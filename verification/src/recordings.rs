//! The recordings on disk: listing them, telling how long they are, and
//! clearing them out.
//!
//! The library works on what its owner read from the directory.  Durations
//! are counted in microseconds.

use crate::filename::{file_time_text, is_file_time};
use crate::paths::{extension, extension_of, file_name, file_name_of};
use crate::recorder::{default_dir, RecorderConfig};
use crate::text::{
    ascii_lowered, has_prefix, lemma_lex_asymmetric, lemma_lex_not_less_transitive, lex_less,
    lowered, same_text, starts_with, text_less, text_of, to_chars,
};
use vstd::prelude::*;

verus! {

/// A recording on disk.
#[derive(Debug, Clone)]
pub struct RecordingInfo {
    /// The full path of the file.
    pub path: String,
    /// The name of the file.
    pub name: String,
    /// The size of the file, in bytes.
    pub size: u64,
    /// The duration, in microseconds; `None` where it could not be told.
    pub duration_micros: Option<u64>,
    /// When the file was last written, as local time in ISO 8601.
    pub created_at: String,
}

/// A recording, as far as contracts go.
pub struct RecordingEntry {
    pub path: Seq<char>,
    pub name: Seq<char>,
    pub size: u64,
    pub duration_micros: Option<u64>,
    pub created_at: Seq<char>,
}

impl View for RecordingInfo {
    type V = RecordingEntry;

    open spec fn view(&self) -> RecordingEntry {
        RecordingEntry {
            path: self.path@,
            name: self.name@,
            size: self.size,
            duration_micros: self.duration_micros,
            created_at: self.created_at@,
        }
    }
}

/// The entries of a list of recordings.
pub open spec fn entries(list: Seq<RecordingInfo>) -> Seq<RecordingEntry> {
    Seq::new(list.len(), |i: int| list[i]@)
}

/// A copy of a recording's entry.
pub fn copy_of(rec: &RecordingInfo) -> (copy: RecordingInfo)
    ensures
        copy@ == rec@,
{
    RecordingInfo {
        path: rec.path.clone(),
        name: rec.name.clone(),
        size: rec.size,
        duration_micros: rec.duration_micros,
        created_at: rec.created_at.clone(),
    }
}

/// The entry for the file at `path`, which is `size` bytes long and was last
/// written `modified_secs` seconds after the start of 1970.  Its time is
/// written as local time, which depends on the machine's time zone.
pub fn recording_info(path: &str, size: u64, duration_micros: Option<u64>, modified_secs: u64)
    -> (rec: RecordingInfo)
    ensures
        rec.path@ == path@,
        rec.name@ == file_name(path@),
        rec.size == size,
        rec.duration_micros == duration_micros,
        is_file_time(rec.created_at@, modified_secs),
{
    RecordingInfo {
        path: String::from_str(path),
        name: file_name_of(path),
        size,
        duration_micros,
        created_at: file_time_text(modified_secs),
    }
}

// ---------------------------------------------------------------------------
// Kinds of files
// ---------------------------------------------------------------------------

/// Whether a path names a recording: its extension is `mp3` or `wav`, in
/// capital or small letters.
pub open spec fn is_audio_path(path: Seq<char>) -> bool {
    match extension(path) {
        Some(ext) => ascii_lowered(ext) == "mp3"@ || ascii_lowered(ext) == "wav"@,
        None => false,
    }
}

fn lower_extension(path: &str) -> (ext: Option<String>)
    ensures
        ext is Some == extension(path@) is Some,
        ext matches Some(e) ==> e@ == ascii_lowered(extension(path@).unwrap()),
{
    match extension_of(path) {
        Some(e) => {
            let chars = to_chars(e.as_str());
            let low = lowered(&chars, 0, chars.len());
            assert(chars@.subrange(0, chars.len() as int) =~= chars@);
            let text = text_of(&low, 0, low.len());
            assert(low@.subrange(0, low.len() as int) =~= low@);
            Some(text)
        },
        None => None,
    }
}

/// Whether a path names a recording.
pub fn is_audio_file(path: &str) -> (b: bool)
    ensures
        b == is_audio_path(path@),
{
    match lower_extension(path) {
        Some(e) => same_text(e.as_str(), "mp3") || same_text(e.as_str(), "wav"),
        None => false,
    }
}

/// How the duration of a file is told.
#[derive(Debug, Clone, Copy, PartialEq, Eq, Structural)]
pub enum DurationSource {
    /// From the header of a WAV file.
    WavHeader,
    /// From the size of an MP3 file.
    Mp3Size,
    /// Not at all.
    Unknown,
}

/// How the duration of the file at `path` is told, by its extension in small
/// letters.
pub fn audio_duration(path: &str) -> (source: DurationSource)
    ensures
        source == (match extension(path@) {
            Some(ext) => if ascii_lowered(ext) == "wav"@ {
                DurationSource::WavHeader
            } else if ascii_lowered(ext) == "mp3"@ {
                DurationSource::Mp3Size
            } else {
                DurationSource::Unknown
            },
            None => DurationSource::Unknown,
        }),
{
    match lower_extension(path) {
        Some(e) => {
            if same_text(e.as_str(), "wav") {
                DurationSource::WavHeader
            } else if same_text(e.as_str(), "mp3") {
                DurationSource::Mp3Size
            } else {
                DurationSource::Unknown
            }
        },
        None => DurationSource::Unknown,
    }
}

/// The duration of `frames` sample frames at `sample_rate` Hz, in
/// microseconds, rounded down; `None` at a rate of zero.
pub open spec fn wav_micros(frames: u32, sample_rate: u32) -> Option<u64> {
    if sample_rate == 0 {
        None
    } else {
        Some(((frames as int * 1_000_000) / (sample_rate as int)) as u64)
    }
}

/// What the header of a WAV file states, as `hound` reads it from the bytes
/// with which the file begins: the number of sample frames and the sample
/// rate; `None` where `hound` does not take the bytes for the beginning of a
/// WAV file.
pub uninterp spec fn parsed_wav_header(bytes: Seq<u8>) -> Option<(u32, u32)>;

/// `WavReader::new` of `hound` on the bytes with which a file begins, then
/// `duration` and `spec().sample_rate` of the reader.  `hound` reads the
/// chunks up to the head of the data chunk and no further.
#[verifier::external_body]
pub(crate) fn read_wav_header(bytes: &Vec<u8>) -> (header: Option<(u32, u32)>)
    ensures
        header == parsed_wav_header(bytes@),
{
    match hound::WavReader::new(bytes.as_slice()) {
        Ok(reader) => Some((reader.duration(), reader.spec().sample_rate)),
        Err(_) => None,
    }
}

/// The duration of a WAV file in microseconds, from the bytes with which it
/// begins; `None` where they are not the beginning of a WAV file.
pub fn wav_file_duration(bytes: &Vec<u8>) -> (micros: Option<u64>)
    ensures
        micros == (match parsed_wav_header(bytes@) {
            Some((frames, rate)) => wav_micros(frames, rate),
            None => None,
        }),
{
    match read_wav_header(bytes) {
        Some((frames, rate)) => wav_duration(frames, rate),
        None => None,
    }
}

/// The duration of `frames` sample frames at `sample_rate` Hz, in
/// microseconds, rounded down; `None` at a rate of zero.
pub fn wav_duration(frames: u32, sample_rate: u32) -> (micros: Option<u64>)
    ensures
        micros == wav_micros(frames, sample_rate),
{
    if sample_rate == 0 {
        return None;
    }
    let scaled: u64 = (frames as u64) * 1_000_000;
    Some(scaled / (sample_rate as u64))
}

/// The microseconds that `size` bytes last at 24000 bytes per second,
/// rounded down, and no more than a `u64` holds.
pub open spec fn mp3_micros(size: u64) -> u64 {
    let exact = (size as int * 125) / 3;
    if exact > u64::MAX {
        u64::MAX
    } else {
        exact as u64
    }
}

/// The duration of an MP3 file of `size` bytes at the recorder's constant
/// 192 kbit/s, which is 24000 bytes per second; `None` for an empty file.
pub fn mp3_duration_estimate(size: u64) -> (micros: Option<u64>)
    ensures
        size == 0 ==> micros is None,
        size > 0 ==> micros == Some(mp3_micros(size)),
{
    if size == 0 {
        return None;
    }
    let scaled: u128 = (size as u128) * 125;
    let micros: u128 = scaled / 3;
    if micros > u64::MAX as u128 {
        Some(u64::MAX)
    } else {
        Some(micros as u64)
    }
}

// ---------------------------------------------------------------------------
// Listing
// ---------------------------------------------------------------------------

/// Whether the recording `a` was written before the recording `b`, going by
/// the text of their times.
pub open spec fn older(a: RecordingInfo, b: RecordingInfo) -> bool {
    lex_less(a.created_at@, b.created_at@)
}

/// A list that runs from new to old, with `x` put in: behind everything that
/// is not older than `x`, and before the rest.
pub open spec fn inserted(sorted: Seq<RecordingInfo>, x: RecordingInfo) -> Seq<RecordingInfo>
    decreases sorted.len(),
{
    if sorted.len() > 0 && older(sorted.last(), x) {
        inserted(sorted.drop_last(), x).push(sorted.last())
    } else {
        sorted.push(x)
    }
}

/// The recordings of `list` from new to old.  Recordings of the same time
/// keep the order that they have in `list`.
pub open spec fn newest_first(list: Seq<RecordingInfo>) -> Seq<RecordingInfo>
    decreases list.len(),
{
    if list.len() == 0 {
        Seq::empty()
    } else {
        inserted(newest_first(list.drop_last()), list.last())
    }
}

proof fn lemma_inserted_at(sorted: Seq<RecordingInfo>, x: RecordingInfo, pos: int)
    requires
        0 <= pos <= sorted.len(),
        forall|k: int| pos <= k < sorted.len() ==> older(#[trigger] sorted[k], x),
        pos > 0 ==> !older(sorted[pos - 1], x),
    ensures
        inserted(sorted, x) == sorted.insert(pos, x),
    decreases sorted.len() - pos,
{
    if pos == sorted.len() {
        assert(sorted.push(x) =~= sorted.insert(pos, x));
    } else {
        assert(older(sorted[sorted.len() - 1], x));
        let front = sorted.drop_last();
        assert forall|k: int| pos <= k < front.len() implies older(#[trigger] front[k], x) by {
            assert(front[k] == sorted[k]);
        }
        lemma_inserted_at(front, x, pos);
        assert(front.insert(pos, x).push(sorted.last()) =~= sorted.insert(pos, x));
    }
}

/// Whether a list runs from new to old: no recording is older than one
/// behind it.
pub open spec fn runs_new_to_old(list: Seq<RecordingInfo>) -> bool {
    forall|i: int, j: int| 0 <= i < j < list.len() ==> !older(#[trigger] list[i], #[trigger] list[j])
}

proof fn lemma_inserted(sorted: Seq<RecordingInfo>, x: RecordingInfo)
    requires
        runs_new_to_old(sorted),
    ensures
        runs_new_to_old(inserted(sorted, x)),
        inserted(sorted, x).len() == sorted.len() + 1,
        inserted(sorted, x).to_multiset() == sorted.to_multiset().insert(x),
        forall|k: int|
            0 <= k < inserted(sorted, x).len() ==> (#[trigger] inserted(sorted, x)[k]) == x || (
            exists|m: int| 0 <= m < sorted.len() && sorted[m] == inserted(sorted, x)[k]),
    decreases sorted.len(),
{
    broadcast use vstd::seq_lib::to_multiset_build;

    let out = inserted(sorted, x);
    if sorted.len() > 0 && older(sorted.last(), x) {
        let front = sorted.drop_last();
        let last = sorted.last();
        assert forall|i: int, j: int| 0 <= i < j < front.len() implies !older(
            #[trigger] front[i],
            #[trigger] front[j],
        ) by {
            assert(front[i] == sorted[i] && front[j] == sorted[j]);
        }
        lemma_inserted(front, x);
        let mid = inserted(front, x);
        assert(out == mid.push(last));
        assert(sorted =~= front.push(last));
        assert(out.to_multiset() =~= sorted.to_multiset().insert(x));
        assert forall|i: int, j: int| 0 <= i < j < out.len() implies !older(
            #[trigger] out[i],
            #[trigger] out[j],
        ) by {
            if j < mid.len() {
                assert(out[i] == mid[i] && out[j] == mid[j]);
            } else {
                assert(out[j] == last);
                assert(out[i] == mid[i]);
                if mid[i] == x {
                    lemma_lex_asymmetric(last.created_at@, x.created_at@);
                } else {
                    let m = choose|m: int| 0 <= m < front.len() && front[m] == mid[i];
                    assert(front[m] == sorted[m]);
                    assert(!older(sorted[m], sorted[sorted.len() - 1]));
                }
            }
        }
        assert forall|k: int| 0 <= k < out.len() implies (#[trigger] out[k]) == x || (exists|
            m: int,
        | 0 <= m < sorted.len() && sorted[m] == out[k]) by {
            if k < mid.len() {
                assert(out[k] == mid[k]);
                if mid[k] != x {
                    let m = choose|m: int| 0 <= m < front.len() && front[m] == mid[k];
                    assert(sorted[m] == out[k]);
                }
            } else {
                assert(sorted[sorted.len() - 1] == out[k]);
            }
        }
    } else {
        assert(out == sorted.push(x));
        assert forall|i: int, j: int| 0 <= i < j < out.len() implies !older(
            #[trigger] out[i],
            #[trigger] out[j],
        ) by {
            if j < sorted.len() {
                assert(out[i] == sorted[i] && out[j] == sorted[j]);
            } else {
                assert(out[j] == x);
                assert(out[i] == sorted[i]);
                // sorted[i] is not older than the last, which is not older than x
                assert(!older(sorted.last(), x));
                if i < sorted.len() - 1 {
                    assert(!older(sorted[i], sorted[sorted.len() - 1]));
                } else {
                    lemma_lex_asymmetric(sorted[i].created_at@, sorted[i].created_at@);
                }
                lemma_lex_not_less_transitive(
                    sorted[i].created_at@,
                    sorted.last().created_at@,
                    x.created_at@,
                );
            }
        }
        assert forall|k: int| 0 <= k < out.len() implies (#[trigger] out[k]) == x || (exists|
            m: int,
        | 0 <= m < sorted.len() && sorted[m] == out[k]) by {
            if k < sorted.len() {
                assert(sorted[k] == out[k]);
            }
        }
    }
}

/// The list from new to old holds the recordings of the list it was made
/// from, each as often as that list, and no recording in it is older than
/// one behind it.
pub proof fn lemma_newest_first(list: Seq<RecordingInfo>)
    ensures
        runs_new_to_old(newest_first(list)),
        newest_first(list).len() == list.len(),
        newest_first(list).to_multiset() == list.to_multiset(),
    decreases list.len(),
{
    broadcast use vstd::seq_lib::to_multiset_build;

    if list.len() > 0 {
        lemma_newest_first(list.drop_last());
        lemma_inserted(newest_first(list.drop_last()), list.last());
        assert(list =~= list.drop_last().push(list.last()));
        assert(list.drop_last().push(list.last()).to_multiset() =~= list.drop_last().to_multiset().insert(
            list.last(),
        ));
    } else {
        assert(list =~= Seq::<RecordingInfo>::empty());
    }
}

/// Puts a list of recordings in order, from new to old.
pub fn sort_newest_first(list: &mut Vec<RecordingInfo>)
    ensures
        final(list)@ == newest_first(old(list)@),
{
    let ghost orig = list@;
    let n: usize = list.len();
    let mut i: usize = 0;
    assert(list@.subrange(0, 0) =~= newest_first(orig.subrange(0, 0)));
    while i < n
        invariant
            i <= n,
            list.len() == n,
            orig.len() == n,
            list@.subrange(0, i as int) == newest_first(orig.subrange(0, i as int)),
            list@.subrange(i as int, n as int) == orig.subrange(i as int, n as int),
        decreases n - i,
    {
        let ghost before = list@;
        let ghost head = before.subrange(0, i as int);
        let x = list.remove(i);
        assert(x == orig[i as int]) by {
            assert(before.subrange(i as int, n as int)[0] == orig.subrange(i as int, n as int)[0]);
        }
        let mut pos: usize = i;
        while pos > 0 && text_less(list[pos - 1].created_at.as_str(), x.created_at.as_str())
            invariant
                pos <= i,
                i < n,
                list.len() == n - 1,
                list@ == before.remove(i as int),
                before.len() == n,
                forall|k: int| pos <= k < i ==> older(#[trigger] list@[k], x),
            decreases pos,
        {
            pos -= 1;
        }
        list.insert(pos, x);
        proof {
            assert forall|k: int| pos <= k < head.len() implies older(#[trigger] head[k], x) by {
                assert(head[k] == before.remove(i as int)[k]);
            }
            if pos > 0 {
                assert(head[pos - 1] == before.remove(i as int)[pos - 1]);
            }
            lemma_inserted_at(head, x, pos as int);
            assert(orig.subrange(0, i + 1).drop_last() =~= orig.subrange(0, i as int));
            assert(orig.subrange(0, i + 1).last() == x);
            assert(list@.subrange(0, i + 1) =~= head.insert(pos as int, x));
            let rest_now = list@.subrange(i + 1, n as int);
            let rest_then = orig.subrange(i + 1, n as int);
            assert(rest_now =~= rest_then) by {
                assert forall|k: int| 0 <= k < n - i - 1 implies #[trigger] rest_now[k]
                    == rest_then[k] by {
                    assert(list@[i + 1 + k] == before.remove(i as int)[i + k]);
                    assert(before.remove(i as int)[i + k] == before[i + 1 + k]);
                    assert(before[i + 1 + k] == before.subrange(i as int, n as int)[k + 1]);
                }
            }
        }
        i += 1;
    }
    assert(list@ =~= list@.subrange(0, n as int));
    assert(orig =~= orig.subrange(0, n as int));
}

/// An entry of a directory, as its owner read it.
#[derive(Debug, Clone)]
pub struct DirEntry {
    /// The full path of the entry.
    pub path: String,
    /// Whether the entry is a regular file.
    pub is_file: bool,
    /// The size of the file, in bytes.
    pub size: u64,
    /// The duration of the recording, in microseconds, where it could be told.
    pub duration_micros: Option<u64>,
    /// When the file was last written, in seconds since the start of 1970.
    pub modified_secs: u64,
}

/// What reading a directory gave.
#[derive(Debug, Clone)]
pub enum DirContent {
    /// The directory does not exist.
    Missing,
    /// The directory could not be read, with what the system said.
    Unreadable(String),
    /// The entries of the directory that could be read, in the order in
    /// which the system gave them.
    Entries(Vec<DirEntry>),
}

/// Whether an entry of a directory is a recording: a regular file whose
/// extension is `mp3` or `wav`, in capital or small letters.
pub open spec fn is_listed(entry: DirEntry) -> bool {
    entry.is_file && is_audio_path(entry.path@)
}

/// Whether `rec` is the recording that the entry `entry` of a directory
/// holds: it has the entry's path, size and duration, the name of its file,
/// and the time of its last writing in local time.
pub open spec fn describes(rec: RecordingEntry, entry: DirEntry) -> bool {
    &&& rec.path == entry.path@
    &&& rec.name == file_name(entry.path@)
    &&& rec.size == entry.size
    &&& rec.duration_micros == entry.duration_micros
    &&& is_file_time(rec.created_at, entry.modified_secs)
}

/// Whether `found` holds the recordings among the first `n` entries of a
/// directory: one for each entry that is a recording and none besides, in
/// the order of the entries.
pub open spec fn selects(found: Seq<RecordingInfo>, dir: Seq<DirEntry>, n: int) -> bool
    decreases n,
{
    if n <= 0 {
        found.len() == 0
    } else if is_listed(dir[n - 1]) {
        found.len() > 0 && describes(found.last()@, dir[n - 1]) && selects(
            found.drop_last(),
            dir,
            n - 1,
        )
    } else {
        selects(found, dir, n - 1)
    }
}

/// Whether `list` is the listing of a directory: its recordings, each once,
/// from new to old.
pub open spec fn is_listing(list: Seq<RecordingInfo>, dir: Seq<DirEntry>) -> bool {
    exists|found: Seq<RecordingInfo>|
        #[trigger] selects(found, dir, dir.len() as int) && list == newest_first(found)
}

/// The number of recordings among the first `n` entries of a directory.
pub open spec fn listed_among(dir: Seq<DirEntry>, n: int) -> nat
    decreases n,
{
    if n <= 0 {
        0
    } else {
        listed_among(dir, n - 1) + (if is_listed(dir[n - 1]) {
            1nat
        } else {
            0nat
        })
    }
}

proof fn lemma_selects_len(found: Seq<RecordingInfo>, dir: Seq<DirEntry>, n: int)
    requires
        selects(found, dir, n),
    ensures
        found.len() == listed_among(dir, n),
    decreases n,
{
    if n > 0 {
        if is_listed(dir[n - 1]) {
            lemma_selects_len(found.drop_last(), dir, n - 1);
        } else {
            lemma_selects_len(found, dir, n - 1);
        }
    }
}

/// A listing holds as many recordings as the directory does, and no
/// recording in it is older than one behind it.
pub proof fn lemma_listing(list: Seq<RecordingInfo>, dir: Seq<DirEntry>)
    requires
        is_listing(list, dir),
    ensures
        list.len() == listed_among(dir, dir.len() as int),
        runs_new_to_old(list),
{
    let found = choose|found: Seq<RecordingInfo>|
        #[trigger] selects(found, dir, dir.len() as int) && list == newest_first(found);
    lemma_selects_len(found, dir, dir.len() as int);
    lemma_newest_first(found);
}

/// Lists the recordings of a directory, from new to old.
///
/// A directory that does not exist has no recordings.  Of a directory that
/// was read, the listing holds the regular files whose extension is `mp3` or
/// `wav`, each once.  A directory that could not be read gives an error with
/// what the system said.
pub fn list_recordings(content: DirContent) -> (r: Result<Vec<RecordingInfo>, String>)
    ensures
        match content {
            DirContent::Missing => r matches Ok(list) && list@.len() == 0,
            DirContent::Unreadable(why) => r matches Err(e) && e@ == "failed to read directory: "@
                + why@,
            DirContent::Entries(dir) => r matches Ok(list) && is_listing(list@, dir@),
        },
{
    let dir = match content {
        DirContent::Missing => {
            return Ok(Vec::new());
        },
        DirContent::Unreadable(why) => {
            let mut message = String::from_str("failed to read directory: ");
            message.append(why.as_str());
            return Err(message);
        },
        DirContent::Entries(dir) => dir,
    };
    let mut found: Vec<RecordingInfo> = Vec::new();
    let mut i: usize = 0;
    while i < dir.len()
        invariant
            i <= dir.len(),
            selects(found@, dir@, i as int),
        decreases dir.len() - i,
    {
        let entry = &dir[i];
        if entry.is_file && is_audio_file(entry.path.as_str()) {
            let ghost before = found@;
            let rec = recording_info(
                entry.path.as_str(),
                entry.size,
                entry.duration_micros,
                entry.modified_secs,
            );
            found.push(rec);
            assert(found@.drop_last() =~= before);
            assert(describes(found@.last()@, dir@[i as int]));
        }
        i += 1;
    }
    let ghost selected = found@;
    sort_newest_first(&mut found);
    assert(selects(selected, dir@, dir@.len() as int) && found@ == newest_first(selected));
    Ok(found)
}

/// The default directory for recordings in this user's environment.
pub fn default_output_dir() -> (dir: String)
    ensures
        exists|audio: Option<Seq<char>>, home: Option<Seq<char>>|
            dir@ == default_dir(audio, home),
{
    RecorderConfig::default().output_dir
}

// ---------------------------------------------------------------------------
// Deleting
// ---------------------------------------------------------------------------

/// Whether the canonical path `file` lies in the directory with the
/// canonical path `dir`, or is that directory: the components of `dir` are
/// the first components of `file`.
pub open spec fn within(file: Seq<char>, dir: Seq<char>) -> bool {
    ||| file == dir
    ||| has_prefix(file, dir + seq!['/'])
    ||| (dir == seq!['/'] && has_prefix(file, dir))
}

/// Whether the canonical path `file` lies in the directory with the
/// canonical path `dir`.
pub fn is_within(file: &str, dir: &str) -> (b: bool)
    ensures
        b == within(file@, dir@),
{
    if same_text(file, dir) {
        return true;
    }
    let chars = to_chars(file);
    assert(chars@.subrange(0, chars.len() as int) =~= chars@);
    let mut below = String::from_str(dir);
    below.push('/');
    proof {
        reveal_strlit("/");
        assert(below@ =~= dir@ + seq!['/']);
        assert("/"@ =~= seq!['/']);
    }
    if starts_with(&chars, 0, chars.len(), below.as_str()) {
        return true;
    }
    same_text(dir, "/") && starts_with(&chars, 0, chars.len(), dir)
}

/// The verdict on a request to delete `file_path`: the canonical path of the
/// file to remove, or why nothing is removed.  `canonical_dir` and
/// `canonical_file` are what resolving the recordings directory and the file
/// gave.  Only files inside the recordings directory are deleted.
pub fn delete_recording(
    canonical_file: Result<String, String>,
    canonical_dir: Result<String, String>,
) -> (r: Result<String, String>)
    ensures
        match canonical_dir {
            Err(why) => r matches Err(e) && e@ == "invalid output directory: "@ + why@,
            Ok(dir) => match canonical_file {
                Err(why) => r matches Err(e) && e@ == "file not found: "@ + why@,
                Ok(file) => if within(file@, dir@) {
                    r matches Ok(p) && p@ == file@
                } else {
                    r matches Err(e) && e@ == "file is outside the recordings directory"@
                },
            },
        },
{
    let dir = match canonical_dir {
        Ok(d) => d,
        Err(why) => {
            let mut message = String::from_str("invalid output directory: ");
            message.append(why.as_str());
            return Err(message);
        },
    };
    let file = match canonical_file {
        Ok(f) => f,
        Err(why) => {
            let mut message = String::from_str("file not found: ");
            message.append(why.as_str());
            return Err(message);
        },
    };
    if !is_within(file.as_str(), dir.as_str()) {
        return Err(String::from_str("file is outside the recordings directory"));
    }
    Ok(file)
}

/// A file that could not be deleted.
#[derive(Debug, Clone)]
pub struct CleanupError {
    pub path: String,
    pub error: String,
}

/// The outcome of deleting a batch of files.
#[derive(Debug, Clone)]
pub struct CleanupResult {
    /// The number of files deleted.
    pub deleted_count: usize,
    /// The bytes freed, counted up to what a `u64` holds.
    pub freed_bytes: u64,
    /// The files that could not be deleted, in the order of the batch.
    pub errors: Vec<CleanupError>,
}

/// One file of a batch: its size before the attempt, 0 where the size could
/// not be read, and why it could not be deleted, `None` where it was.
#[derive(Debug, Clone)]
pub struct DeleteAttempt {
    pub path: String,
    pub size: u64,
    pub error: Option<String>,
}

/// The number of files deleted among the first `n` attempts.
pub open spec fn deleted_among(attempts: Seq<DeleteAttempt>, n: int) -> nat
    decreases n,
{
    if n <= 0 {
        0
    } else {
        deleted_among(attempts, n - 1) + (if attempts[n - 1].error is None {
            1nat
        } else {
            0nat
        })
    }
}

/// The bytes freed by the first `n` attempts.
pub open spec fn freed_among(attempts: Seq<DeleteAttempt>, n: int) -> nat
    decreases n,
{
    if n <= 0 {
        0
    } else {
        freed_among(attempts, n - 1) + (if attempts[n - 1].error is None {
            attempts[n - 1].size as nat
        } else {
            0nat
        })
    }
}

/// The failures among the first `n` attempts: path and reason.
pub open spec fn failures_among(attempts: Seq<DeleteAttempt>, n: int) -> Seq<
    (Seq<char>, Seq<char>),
>
    decreases n,
{
    if n <= 0 {
        Seq::empty()
    } else {
        match attempts[n - 1].error {
            Some(why) => failures_among(attempts, n - 1).push((attempts[n - 1].path@, why@)),
            None => failures_among(attempts, n - 1),
        }
    }
}

/// The failures of a result: path and reason.
pub open spec fn failures_of(errors: Seq<CleanupError>) -> Seq<(Seq<char>, Seq<char>)> {
    Seq::new(errors.len(), |i: int| (errors[i].path@, errors[i].error@))
}

proof fn lemma_deleted_among_bound(attempts: Seq<DeleteAttempt>, n: int)
    requires
        0 <= n,
    ensures
        deleted_among(attempts, n) <= n,
    decreases n,
{
    if n > 0 {
        lemma_deleted_among_bound(attempts, n - 1);
    }
}

/// Sums up a batch of attempts to delete files.
pub fn batch_delete_recordings(attempts: &Vec<DeleteAttempt>) -> (result: CleanupResult)
    ensures
        result.deleted_count == deleted_among(attempts@, attempts.len() as int),
        result.freed_bytes as nat == (if freed_among(attempts@, attempts.len() as int)
            > u64::MAX {
            u64::MAX as nat
        } else {
            freed_among(attempts@, attempts.len() as int)
        }),
        failures_of(result.errors@) == failures_among(attempts@, attempts.len() as int),
{
    let mut deleted_count: usize = 0;
    let mut freed_bytes: u64 = 0;
    let mut errors: Vec<CleanupError> = Vec::new();
    let mut i: usize = 0;
    while i < attempts.len()
        invariant
            i <= attempts.len(),
            deleted_count == deleted_among(attempts@, i as int),
            deleted_count <= i,
            freed_bytes as nat == (if freed_among(attempts@, i as int) > u64::MAX {
                u64::MAX as nat
            } else {
                freed_among(attempts@, i as int)
            }),
            failures_of(errors@) == failures_among(attempts@, i as int),
        decreases attempts.len() - i,
    {
        let attempt = &attempts[i];
        match &attempt.error {
            None => {
                deleted_count += 1;
                freed_bytes = freed_bytes.saturating_add(attempt.size);
            },
            Some(why) => {
                let ghost before = errors@;
                errors.push(CleanupError { path: attempt.path.clone(), error: why.clone() });
                assert(failures_of(errors@) =~= failures_of(before).push(
                    (attempt.path@, why@),
                ));
            },
        }
        i += 1;
    }
    CleanupResult { deleted_count, freed_bytes, errors }
}

// ---------------------------------------------------------------------------
// Clearing out
// ---------------------------------------------------------------------------

/// Which recordings to clear out.  A recording is cleared out if it meets
/// any of the conditions that are set; with none set, nothing is.
#[derive(Debug, Clone)]
pub struct CleanupFilter {
    /// Written before this time, as ISO 8601 text.
    pub before_date: Option<String>,
    /// Shorter than this many microseconds.
    pub min_duration_micros: Option<u64>,
    /// Longer than this many microseconds.
    pub max_duration_micros: Option<u64>,
    /// Larger than this many bytes.
    pub max_size_bytes: Option<u64>,
}

/// Whether a recording meets a condition of the filter.
pub open spec fn meets(rec: RecordingInfo, filter: CleanupFilter) -> bool {
    ||| (filter.before_date matches Some(before) && lex_less(rec.created_at@, before@))
    ||| (filter.min_duration_micros matches Some(min) && rec.duration_micros matches Some(d) && d
        < min)
    ||| (filter.max_duration_micros matches Some(max) && rec.duration_micros matches Some(d) && d
        > max)
    ||| (filter.max_size_bytes matches Some(max) && rec.size > max)
}

/// A filter with no condition set clears nothing out.
pub proof fn lemma_no_condition_clears_nothing(
    recordings: Seq<RecordingInfo>,
    filter: CleanupFilter,
    n: int,
)
    requires
        filter.before_date is None,
        filter.min_duration_micros is None,
        filter.max_duration_micros is None,
        filter.max_size_bytes is None,
    ensures
        cleanable(recordings, filter, n).len() == 0,
    decreases n,
{
    if n > 0 {
        lemma_no_condition_clears_nothing(recordings, filter, n - 1);
    }
}

/// Whether `entry` is the entry of one of the first `n` recordings that
/// meets a condition of the filter.
pub open spec fn is_cleared(
    entry: RecordingEntry,
    recordings: Seq<RecordingInfo>,
    filter: CleanupFilter,
    n: int,
) -> bool {
    exists|i: int| 0 <= i < n && meets(#[trigger] recordings[i], filter) && recordings[i]@ == entry
}

/// What is cleared out is part of the list: no more recordings than the
/// list holds, and each of them one that meets a condition of the filter.
pub proof fn lemma_cleanable_is_part(recordings: Seq<RecordingInfo>, filter: CleanupFilter, n: int)
    requires
        0 <= n <= recordings.len(),
    ensures
        cleanable(recordings, filter, n).len() <= n,
        forall|k: int|
            0 <= k < cleanable(recordings, filter, n).len() ==> is_cleared(
                #[trigger] cleanable(recordings, filter, n)[k],
                recordings,
                filter,
                n,
            ),
    decreases n,
{
    if n > 0 {
        lemma_cleanable_is_part(recordings, filter, n - 1);
        let before = cleanable(recordings, filter, n - 1);
        let now = cleanable(recordings, filter, n);
        assert forall|k: int| 0 <= k < now.len() implies is_cleared(
            #[trigger] now[k],
            recordings,
            filter,
            n,
        ) by {
            if k < before.len() {
                assert(now[k] == before[k]);
                assert(is_cleared(before[k], recordings, filter, n - 1));
                let i = choose|i: int|
                    0 <= i < n - 1 && meets(#[trigger] recordings[i], filter) && recordings[i]@
                        == before[k];
                assert(0 <= i < n && meets(recordings[i], filter) && recordings[i]@ == now[k]);
            } else {
                assert(meets(recordings[n - 1], filter) && recordings[n - 1]@ == now[k]);
            }
        }
    }
}

/// Whether a recording meets a condition of the filter.
pub fn matches_cleanup_filter(rec: &RecordingInfo, filter: &CleanupFilter) -> (b: bool)
    ensures
        b == meets(*rec, *filter),
{
    match &filter.before_date {
        Some(before) => {
            if text_less(rec.created_at.as_str(), before.as_str()) {
                return true;
            }
        },
        None => {},
    }
    match filter.min_duration_micros {
        Some(min) => match rec.duration_micros {
            Some(d) => {
                if d < min {
                    return true;
                }
            },
            None => {},
        },
        None => {},
    }
    match filter.max_duration_micros {
        Some(max) => match rec.duration_micros {
            Some(d) => {
                if d > max {
                    return true;
                }
            },
            None => {},
        },
        None => {},
    }
    match filter.max_size_bytes {
        Some(max) => rec.size > max,
        None => false,
    }
}

/// The entries of the first `n` recordings that meet a condition of the
/// filter, in their order.
pub open spec fn cleanable(recordings: Seq<RecordingInfo>, filter: CleanupFilter, n: int) -> Seq<
    RecordingEntry,
>
    decreases n,
{
    if n <= 0 {
        Seq::empty()
    } else if meets(recordings[n - 1], filter) {
        cleanable(recordings, filter, n - 1).push(recordings[n - 1]@)
    } else {
        cleanable(recordings, filter, n - 1)
    }
}

/// The recordings that the filter clears out, in the order of the list.
pub fn find_cleanable_recordings(recordings: &[RecordingInfo], filter: &CleanupFilter) -> (found:
    Vec<RecordingInfo>)
    ensures
        entries(found@) == cleanable(recordings@, *filter, recordings.len() as int),
{
    let mut found: Vec<RecordingInfo> = Vec::new();
    let mut i: usize = 0;
    while i < recordings.len()
        invariant
            i <= recordings.len(),
            entries(found@) == cleanable(recordings@, *filter, i as int),
        decreases recordings.len() - i,
    {
        if matches_cleanup_filter(&recordings[i], filter) {
            let ghost before = found@;
            found.push(copy_of(&recordings[i]));
            assert(entries(found@) =~= entries(before).push(recordings[i as int]@));
        }
        i += 1;
    }
    found
}

} // verus!
