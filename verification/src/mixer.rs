//! Real-time mixer for two independently paced feeds.
//!
//! The system feed and the microphone feed describe the same stretch of time.
//! Forwarding both to the encoder one after the other would double the length
//! of the recording, so the mixer holds back what one feed has delivered until
//! the other has caught up, and emits the average of the part that overlaps.
//! A feed that runs alone is passed on unmixed once it has piled up to the
//! drain threshold.

use crate::sample::{all_in_range, mix_pair, mix_samples};
use vstd::prelude::*;

verus! {

/// The number of samples a lone feed may pile up before it is drained: about
/// 100 ms at 48 kHz.
pub const DEFAULT_MAX_PENDING: usize = 4800;

/// One of the two feeds of a capture session.
#[derive(Clone, Copy, Debug, PartialEq, Eq, Structural)]
pub enum Feed {
    System,
    Microphone,
}

/// What the mixer holds: the samples of each feed that are not emitted yet,
/// oldest first, and the drain threshold.
pub struct MixerState {
    pub system: Seq<i32>,
    pub mic: Seq<i32>,
    pub max_pending: nat,
}

/// The elementwise mix of the first `n` samples of `a` and of `b`.
pub open spec fn mix_prefix(a: Seq<i32>, b: Seq<i32>, n: nat) -> Seq<i32>
    recommends
        n <= a.len(),
        n <= b.len(),
{
    Seq::new(n, |i: int| mix_pair(a[i], b[i]))
}

/// The smaller of two lengths.
pub open spec fn min_len(a: nat, b: nat) -> nat {
    if a <= b {
        a
    } else {
        b
    }
}

/// The state with `samples` appended to the buffer of `feed`.
pub open spec fn appended(s: MixerState, feed: Feed, samples: Seq<i32>) -> MixerState {
    match feed {
        Feed::System => MixerState { system: s.system + samples, ..s },
        Feed::Microphone => MixerState { mic: s.mic + samples, ..s },
    }
}

/// What a mixing step emits, if anything.
///
/// Where both buffers hold samples, it is the mix of the part that overlaps.
/// Otherwise it is the whole of a buffer that has reached the threshold, the
/// system buffer first.
pub open spec fn emitted(s: MixerState) -> Option<Seq<i32>> {
    let overlap = min_len(s.system.len(), s.mic.len());
    if overlap > 0 {
        Some(mix_prefix(s.system, s.mic, overlap))
    } else if s.system.len() >= s.max_pending {
        Some(s.system)
    } else if s.mic.len() >= s.max_pending {
        Some(s.mic)
    } else {
        None
    }
}

/// The state that a mixing step leaves: what was emitted is gone from the
/// front of the buffers and the rest keeps its order.
pub open spec fn drained(s: MixerState) -> MixerState {
    let overlap = min_len(s.system.len(), s.mic.len());
    if overlap > 0 {
        MixerState {
            system: s.system.skip(overlap as int),
            mic: s.mic.skip(overlap as int),
            ..s
        }
    } else if s.system.len() >= s.max_pending {
        MixerState { system: Seq::empty(), ..s }
    } else if s.mic.len() >= s.max_pending {
        MixerState { mic: Seq::empty(), ..s }
    } else {
        s
    }
}

/// The state after `samples` of `feed` were pushed.
pub open spec fn pushed(s: MixerState, feed: Feed, samples: Seq<i32>) -> MixerState {
    drained(appended(s, feed, samples))
}

/// What pushing `samples` of `feed` emits.
pub open spec fn push_emits(s: MixerState, feed: Feed, samples: Seq<i32>) -> Option<Seq<i32>> {
    emitted(appended(s, feed, samples))
}

/// The state of a mixer that has received nothing yet.
pub open spec fn fresh(max_pending: nat) -> MixerState {
    MixerState { system: Seq::empty(), mic: Seq::empty(), max_pending }
}

/// At most one feed has samples waiting.
pub open spec fn settled(s: MixerState) -> bool {
    s.system.len() == 0 || s.mic.len() == 0
}

/// The number of samples in an emission; none where nothing is emitted.
pub open spec fn emission_len(e: Option<Seq<i32>>) -> nat {
    match e {
        Some(chunk) => chunk.len(),
        None => 0,
    }
}

/// Buffers pending samples of both feeds and mixes what overlaps.
pub struct AudioMixer {
    system_buf: Vec<i32>,
    mic_buf: Vec<i32>,
    max_pending_samples: usize,
}

impl View for AudioMixer {
    type V = MixerState;

    closed spec fn view(&self) -> MixerState {
        MixerState {
            system: self.system_buf@,
            mic: self.mic_buf@,
            max_pending: self.max_pending_samples as nat,
        }
    }
}

/// Removes the first `n` elements of `buf` and returns them.
fn take_front(buf: &mut Vec<i32>, n: usize) -> (front: Vec<i32>)
    requires
        n <= old(buf).len(),
    ensures
        front@ == old(buf)@.take(n as int),
        final(buf)@ == old(buf)@.skip(n as int),
{
    let mut rest = buf.split_off(n);
    std::mem::swap(buf, &mut rest);
    assert(rest@ =~= old(buf)@.take(n as int));
    assert(buf@ =~= old(buf)@.skip(n as int));
    rest
}

impl AudioMixer {
    /// A mixer with empty buffers and the default drain threshold.
    pub fn new() -> (mixer: Self)
        ensures
            mixer@ == fresh(DEFAULT_MAX_PENDING as nat),
    {
        AudioMixer {
            system_buf: Vec::with_capacity(DEFAULT_MAX_PENDING),
            mic_buf: Vec::with_capacity(DEFAULT_MAX_PENDING),
            max_pending_samples: DEFAULT_MAX_PENDING,
        }
    }

    /// A mixer with empty buffers that drains a lone feed at
    /// `max_pending_samples` samples.
    pub fn with_max_pending(max_pending_samples: usize) -> (mixer: Self)
        ensures
            mixer@ == fresh(max_pending_samples as nat),
    {
        AudioMixer { system_buf: Vec::new(), mic_buf: Vec::new(), max_pending_samples }
    }

    /// The drain threshold.
    pub fn max_pending_samples(&self) -> (n: usize)
        ensures
            n == self@.max_pending,
    {
        self.max_pending_samples
    }

    /// The system samples that wait for microphone samples.
    pub fn pending_system(&self) -> (pending: &Vec<i32>)
        ensures
            pending@ == self@.system,
    {
        &self.system_buf
    }

    /// The microphone samples that wait for system samples.
    pub fn pending_mic(&self) -> (pending: &Vec<i32>)
        ensures
            pending@ == self@.mic,
    {
        &self.mic_buf
    }

    /// Takes in system samples and returns what is to be emitted, if anything.
    pub fn push_system(&mut self, samples: &[i32]) -> (out: Option<Vec<i32>>)
        ensures
            final(self)@ == pushed(old(self)@, Feed::System, samples@),
            out.is_some() == push_emits(old(self)@, Feed::System, samples@).is_some(),
            out.is_some() ==> out.unwrap()@ == push_emits(
                old(self)@,
                Feed::System,
                samples@,
            ).unwrap(),
            settled(final(self)@),
    {
        self.system_buf.extend_from_slice(samples);
        assert(self.system_buf@ =~= old(self).system_buf@ + samples@);
        self.try_mix()
    }

    /// Takes in microphone samples and returns what is to be emitted, if
    /// anything.
    pub fn push_mic(&mut self, samples: &[i32]) -> (out: Option<Vec<i32>>)
        ensures
            final(self)@ == pushed(old(self)@, Feed::Microphone, samples@),
            out.is_some() == push_emits(old(self)@, Feed::Microphone, samples@).is_some(),
            out.is_some() ==> out.unwrap()@ == push_emits(
                old(self)@,
                Feed::Microphone,
                samples@,
            ).unwrap(),
            settled(final(self)@),
    {
        self.mic_buf.extend_from_slice(samples);
        assert(self.mic_buf@ =~= old(self).mic_buf@ + samples@);
        self.try_mix()
    }

    /// Takes in samples of either feed.
    pub fn push(&mut self, feed: Feed, samples: &[i32]) -> (out: Option<Vec<i32>>)
        ensures
            final(self)@ == pushed(old(self)@, feed, samples@),
            out.is_some() == push_emits(old(self)@, feed, samples@).is_some(),
            out.is_some() ==> out.unwrap()@ == push_emits(old(self)@, feed, samples@).unwrap(),
            settled(final(self)@),
    {
        match feed {
            Feed::System => self.push_system(samples),
            Feed::Microphone => self.push_mic(samples),
        }
    }

    /// Mixes the overlap of the two buffers, or drains a lone buffer that has
    /// reached the threshold.
    fn try_mix(&mut self) -> (out: Option<Vec<i32>>)
        ensures
            final(self)@ == drained(old(self)@),
            out.is_some() == emitted(old(self)@).is_some(),
            out.is_some() ==> out.unwrap()@ == emitted(old(self)@).unwrap(),
            settled(final(self)@),
    {
        let overlap: usize = if self.system_buf.len() <= self.mic_buf.len() {
            self.system_buf.len()
        } else {
            self.mic_buf.len()
        };
        if overlap > 0 {
            let mut mixed: Vec<i32> = Vec::with_capacity(overlap);
            let mut i: usize = 0;
            while i < overlap
                invariant
                    i <= overlap,
                    overlap <= self.system_buf.len(),
                    overlap <= self.mic_buf.len(),
                    mixed.len() == i,
                    forall|j: int|
                        0 <= j < i ==> #[trigger] mixed[j] == mix_pair(
                            self.system_buf[j],
                            self.mic_buf[j],
                        ),
                decreases overlap - i,
            {
                mixed.push(mix_samples(self.system_buf[i], self.mic_buf[i]));
                i += 1;
            }
            assert(mixed@ =~= mix_prefix(self.system_buf@, self.mic_buf@, overlap as nat));
            let _ = take_front(&mut self.system_buf, overlap);
            let _ = take_front(&mut self.mic_buf, overlap);
            return Some(mixed);
        }
        if self.system_buf.len() >= self.max_pending_samples {
            let n: usize = self.system_buf.len();
            let chunk = take_front(&mut self.system_buf, n);
            assert(chunk@ =~= old(self)@.system);
            assert(self.system_buf@ =~= Seq::<i32>::empty());
            Some(chunk)
        } else if self.mic_buf.len() >= self.max_pending_samples {
            let n: usize = self.mic_buf.len();
            let chunk = take_front(&mut self.mic_buf, n);
            assert(chunk@ =~= old(self)@.mic);
            assert(self.mic_buf@ =~= Seq::<i32>::empty());
            Some(chunk)
        } else {
            None
        }
    }
}

// ---------------------------------------------------------------------------
// Laws
// ---------------------------------------------------------------------------

/// After any push at most one feed has samples waiting, whatever the state
/// before it.
pub proof fn lemma_push_settles(s: MixerState, feed: Feed, samples: Seq<i32>)
    ensures
        settled(pushed(s, feed, samples)),
{
}

/// A push never reorders: what waits in a buffer after a push is the end of
/// what the buffer held after the samples were appended, in the same order.
/// Samples leave a buffer from the front only.
pub proof fn lemma_push_keeps_order(s: MixerState, feed: Feed, samples: Seq<i32>)
    ensures
        ({
            let full = appended(s, feed, samples);
            let after = pushed(s, feed, samples);
            &&& after.system.len() <= full.system.len()
            &&& after.mic.len() <= full.mic.len()
            &&& after.system == full.system.skip(full.system.len() - after.system.len())
            &&& after.mic == full.mic.skip(full.mic.len() - after.mic.len())
            &&& after.max_pending == s.max_pending
        }),
{
    let full = appended(s, feed, samples);
    let after = pushed(s, feed, samples);
    assert(after.system =~= full.system.skip(full.system.len() - after.system.len()));
    assert(after.mic =~= full.mic.skip(full.mic.len() - after.mic.len()));
}

/// Nothing is lost and nothing is made up: the samples that a push takes
/// from the two buffers are as many as it emits where one buffer is drained,
/// and twice as many where two are mixed into one.
pub proof fn lemma_push_conserves(s: MixerState, feed: Feed, samples: Seq<i32>)
    ensures
        ({
            let full = appended(s, feed, samples);
            let after = pushed(s, feed, samples);
            let taken = full.system.len() + full.mic.len() - after.system.len() - after.mic.len();
            let out = emission_len(push_emits(s, feed, samples));
            if full.system.len() > 0 && full.mic.len() > 0 {
                taken == 2 * out
            } else {
                taken == out
            }
        }),
{
}

/// Two feeds of equal length, shorter than the drain threshold and pushed
/// into a fresh mixer one after the other, come out as one chunk of that
/// length: sample `i` of it is the clamped average of the two samples `i`.
/// Nothing stays behind.
pub proof fn lemma_equal_length_mix(max_pending: nat, a: Seq<i32>, b: Seq<i32>)
    requires
        a.len() == b.len(),
        0 < a.len() < max_pending,
    ensures
        push_emits(fresh(max_pending), Feed::System, a) is None,
        ({
            let waiting = pushed(fresh(max_pending), Feed::System, a);
            let out = push_emits(waiting, Feed::Microphone, b);
            &&& out is Some
            &&& out.unwrap().len() == a.len()
            &&& forall|i: int| 0 <= i < a.len() ==> out.unwrap()[i] == mix_pair(a[i], b[i])
            &&& pushed(waiting, Feed::Microphone, b) == fresh(max_pending)
        }),
{
    let start = fresh(max_pending);
    assert(appended(start, Feed::System, a).system =~= a);
    let waiting = pushed(start, Feed::System, a);
    assert(waiting.system =~= a);
    assert(waiting.mic =~= Seq::<i32>::empty());
    let full = appended(waiting, Feed::Microphone, b);
    assert(full.mic =~= b);
    assert(full.system =~= a);
    let done = pushed(waiting, Feed::Microphone, b);
    assert(done.system =~= Seq::<i32>::empty());
    assert(done.mic =~= Seq::<i32>::empty());
}

/// Feeds of unequal length: the shorter one decides how much is emitted, and
/// the surplus of the longer one waits in its buffer, in order.
pub proof fn lemma_unequal_length_mix(max_pending: nat, a: Seq<i32>, b: Seq<i32>)
    requires
        0 < b.len() <= a.len() < max_pending,
    ensures
        ({
            let waiting = pushed(fresh(max_pending), Feed::System, a);
            let out = push_emits(waiting, Feed::Microphone, b);
            let after = pushed(waiting, Feed::Microphone, b);
            &&& out == Some(mix_prefix(a, b, b.len()))
            &&& after.system == a.skip(b.len() as int)
            &&& after.mic == Seq::<i32>::empty()
        }),
{
    let start = fresh(max_pending);
    assert(appended(start, Feed::System, a).system =~= a);
    let waiting = pushed(start, Feed::System, a);
    assert(waiting.system =~= a);
    let full = appended(waiting, Feed::Microphone, b);
    assert(full.mic =~= b);
    let after = pushed(waiting, Feed::Microphone, b);
    assert(after.mic =~= Seq::<i32>::empty());
}

/// A lone feed is emitted whole and unmixed as soon as it holds the threshold
/// number of samples, and not before.
pub proof fn lemma_threshold_drain(max_pending: nat, feed: Feed, samples: Seq<i32>)
    requires
        max_pending > 0,
    ensures
        samples.len() >= max_pending ==> push_emits(fresh(max_pending), feed, samples) == Some(
            samples,
        ) && pushed(fresh(max_pending), feed, samples) == fresh(max_pending),
        samples.len() < max_pending ==> push_emits(fresh(max_pending), feed, samples) is None,
{
    let start = fresh(max_pending);
    let full = appended(start, feed, samples);
    match feed {
        Feed::System => {
            assert(full.system =~= samples);
        },
        Feed::Microphone => {
            assert(full.mic =~= samples);
        },
    }
}

/// Every sample that comes out of the overlap mix lies in the nominal range,
/// whatever went in.
pub proof fn lemma_mix_is_clamped(a: Seq<i32>, b: Seq<i32>, n: nat)
    requires
        n <= a.len(),
        n <= b.len(),
    ensures
        all_in_range(mix_prefix(a, b, n)),
{
}

/// Where the mixer holds samples of the nominal range only and is given such
/// samples, whatever it emits lies in the nominal range too.
pub proof fn lemma_emission_in_range(s: MixerState, feed: Feed, samples: Seq<i32>)
    requires
        all_in_range(s.system),
        all_in_range(s.mic),
        all_in_range(samples),
    ensures
        push_emits(s, feed, samples) is Some ==> all_in_range(push_emits(s, feed, samples).unwrap()),
        all_in_range(pushed(s, feed, samples).system),
        all_in_range(pushed(s, feed, samples).mic),
{
}

/// The total length of what a run of matched rounds emits.  In each round
/// the system feed delivers a frame and then the microphone feed delivers one.
pub open spec fn rounds_emitted(s: MixerState, rounds: Seq<(Seq<i32>, Seq<i32>)>) -> nat
    decreases rounds.len(),
{
    if rounds.len() == 0 {
        0
    } else {
        let (a, b) = rounds[0];
        let waiting = pushed(s, Feed::System, a);
        let after = pushed(waiting, Feed::Microphone, b);
        emission_len(push_emits(s, Feed::System, a)) + emission_len(
            push_emits(waiting, Feed::Microphone, b),
        ) + rounds_emitted(after, rounds.skip(1))
    }
}

/// The number of samples that the system feed delivers over a run of rounds.
pub open spec fn rounds_duration(rounds: Seq<(Seq<i32>, Seq<i32>)>) -> nat
    decreases rounds.len(),
{
    if rounds.len() == 0 {
        0
    } else {
        rounds[0].0.len() + rounds_duration(rounds.skip(1))
    }
}

/// Duration is preserved: where both feeds deliver frames of equal length,
/// each shorter than the drain threshold, a fresh mixer emits as many samples
/// as one feed delivered, not the sum of both, and ends with empty buffers.
pub proof fn lemma_duration_preserved(max_pending: nat, rounds: Seq<(Seq<i32>, Seq<i32>)>)
    requires
        forall|k: int|
            0 <= k < rounds.len() ==> (#[trigger] rounds[k]).0.len() == rounds[k].1.len()
                && rounds[k].0.len() < max_pending,
    ensures
        rounds_emitted(fresh(max_pending), rounds) == rounds_duration(rounds),
    decreases rounds.len(),
{
    if rounds.len() > 0 {
        let (a, b) = rounds[0];
        let start = fresh(max_pending);
        assert(appended(start, Feed::System, a).system =~= a);
        let waiting = pushed(start, Feed::System, a);
        assert(waiting.system =~= a);
        assert(waiting.mic =~= Seq::<i32>::empty());
        let full = appended(waiting, Feed::Microphone, b);
        assert(full.mic =~= b);
        assert(full.system =~= a);
        let after = pushed(waiting, Feed::Microphone, b);
        assert(after.system =~= Seq::<i32>::empty());
        assert(after.mic =~= Seq::<i32>::empty());
        assert(after == start);
        let rest = rounds.skip(1);
        assert forall|k: int| 0 <= k < rest.len() implies (#[trigger] rest[k]).0.len()
            == rest[k].1.len() && rest[k].0.len() < max_pending by {
            assert(rest[k] == rounds[k + 1]);
        }
        lemma_duration_preserved(max_pending, rest);
    }
}

} // verus!
