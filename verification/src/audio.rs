//! The catalog of input devices.
//!
//! The host's audio API hands out device handles that only it can use.  The
//! catalog works on what can be read off them: the name of each device, in
//! the order in which the host lists them, and the name of the device that
//! the host calls its default.

use crate::recorder::{StartFailure, StartStep};
use vstd::prelude::*;

verus! {

/// Metadata about an input device.
#[derive(Debug, Clone)]
pub struct AudioDeviceInfo {
    pub name: String,
    pub index: usize,
    pub is_default: bool,
}

/// An entry of the device list, as far as contracts go.
pub struct DeviceEntry {
    pub name: Seq<char>,
    pub index: nat,
    pub is_default: bool,
}

impl View for AudioDeviceInfo {
    type V = DeviceEntry;

    open spec fn view(&self) -> DeviceEntry {
        DeviceEntry { name: self.name@, index: self.index as nat, is_default: self.is_default }
    }
}

/// The entries of a device list.
pub open spec fn entries_of(list: Seq<AudioDeviceInfo>) -> Seq<DeviceEntry> {
    Seq::new(list.len(), |i: int| list[i]@)
}

/// Names a device of the host without holding its handle.
#[derive(Debug, Clone, Copy, PartialEq, Eq, Structural)]
pub enum DeviceRef {
    /// The device that the host calls its default.
    Default,
    /// The device at this position of the host's list.
    Index(usize),
}

/// How a device delivers its samples.
#[derive(Debug, Clone)]
pub enum SampleFormat {
    /// As IEEE-754 single-precision numbers.
    Float32,
    /// As signed 16-bit integers.
    Int16,
    /// As unsigned 16-bit integers.
    UInt16,
    /// In a format that is not read, with the name that the host has for it.
    Other(String),
}

/// The input format of a device.
#[derive(Debug, Clone)]
pub struct StreamFormat {
    pub channels: u16,
    pub sample_rate: u32,
    pub sample_format: SampleFormat,
}

/// Whether `r` is the verdict on what a device reported as its default
/// input format.
///
/// A device that could not tell its format fails the query with what the
/// host said, and so does a device without channels.  A format that is not
/// read fails with its name.  Every other format is taken as it is.
pub open spec fn is_format_verdict(
    r: Result<StreamFormat, StartFailure>,
    reported: Result<StreamFormat, String>,
) -> bool {
    match reported {
        Err(why) => r matches Err(f) && f.step == StartStep::QueryFormat && f.message@ == why@,
        Ok(format) => if format.channels == 0 {
            r matches Err(f) && f.step == StartStep::QueryFormat && f.message@
                == "device reports no channels"@
        } else {
            match format.sample_format {
                SampleFormat::Other(name) => r matches Err(f) && f.step == StartStep::SampleFormat
                    && f.message@ == name@,
                _ => r == Ok::<StreamFormat, StartFailure>(format),
            }
        },
    }
}

/// What the host reported: the name of each device in the order of its list,
/// `None` for a device whose name it could not tell, and the name of the
/// default device, `None` where there is no default or it has no name.
pub struct HostDevices {
    pub names: Seq<Option<Seq<char>>>,
    pub default_name: Option<Seq<char>>,
    pub has_default: bool,
}

/// Enumerates and selects input devices.
pub struct AudioDeviceManager {
    names: Vec<Option<String>>,
    default_name: Option<String>,
    has_default: bool,
}

/// The characters of a name, where there is one.
pub open spec fn name_view(name: Option<String>) -> Option<Seq<char>> {
    match name {
        Some(n) => Some(n@),
        None => None,
    }
}

impl View for AudioDeviceManager {
    type V = HostDevices;

    closed spec fn view(&self) -> HostDevices {
        HostDevices {
            names: Seq::new(self.names@.len(), |i: int| name_view(self.names@[i])),
            default_name: name_view(self.default_name),
            has_default: self.has_default,
        }
    }
}

/// Whether the device at position `i` is the one to mark as default: it has
/// the default device's name and no device before it has.
pub open spec fn marks_default(host: HostDevices, i: int) -> bool {
    &&& host.default_name is Some
    &&& host.names[i] == host.default_name
    &&& forall|j: int| 0 <= j < i ==> host.names[j] != host.default_name
}

/// The list of the first `n` devices of the host: one entry for each device
/// with a name, under its position in the host's list.
pub open spec fn listed_upto(host: HostDevices, n: int) -> Seq<DeviceEntry>
    decreases n,
{
    if n <= 0 {
        Seq::empty()
    } else {
        let rest = listed_upto(host, n - 1);
        match host.names[n - 1] {
            Some(name) => rest.push(
                DeviceEntry {
                    name,
                    index: (n - 1) as nat,
                    is_default: marks_default(host, n - 1),
                },
            ),
            None => rest,
        }
    }
}

/// The device list of a host.
pub open spec fn listed(host: HostDevices) -> Seq<DeviceEntry> {
    listed_upto(host, host.names.len() as int)
}

/// The position of the first device named `name`, if there is one.
pub open spec fn position_of(host: HostDevices, name: Seq<char>) -> Option<int> {
    if exists|i: int| 0 <= i < host.names.len() && host.names[i] == Some(name) {
        Some(first_named(host, name, 0))
    } else {
        None
    }
}

/// The least position from `from` on at which a device is named `name`; the
/// length of the list where there is none.
pub open spec fn first_named(host: HostDevices, name: Seq<char>, from: int) -> int
    decreases host.names.len() - from,
{
    if from < 0 || from >= host.names.len() {
        host.names.len() as int
    } else if host.names[from] == Some(name) {
        from
    } else {
        first_named(host, name, from + 1)
    }
}

/// Every entry of a device list stands for a named device of the host, the
/// entries are in the host's order, and at most one is marked as default.
pub proof fn lemma_listed(host: HostDevices, n: int)
    requires
        0 <= n <= host.names.len(),
    ensures
        listed_upto(host, n).len() <= n,
        forall|k: int|
            0 <= k < listed_upto(host, n).len() ==> {
                let e = #[trigger] listed_upto(host, n)[k];
                &&& e.index < n
                &&& host.names[e.index as int] == Some(e.name)
                &&& e.is_default == marks_default(host, e.index as int)
            },
        forall|a: int, b: int|
            0 <= a < b < listed_upto(host, n).len() ==> (#[trigger] listed_upto(host, n)[a]).index
                < (#[trigger] listed_upto(host, n)[b]).index,
        forall|a: int, b: int|
            0 <= a < listed_upto(host, n).len() && 0 <= b < listed_upto(host, n).len() && (
            #[trigger] listed_upto(host, n)[a]).is_default && (#[trigger] listed_upto(
                host,
                n,
            )[b]).is_default ==> a == b,
    decreases n,
{
    if n > 0 {
        lemma_listed(host, n - 1);
        let rest = listed_upto(host, n - 1);
        let all = listed_upto(host, n);
        assert forall|a: int, b: int|
            0 <= a < all.len() && 0 <= b < all.len() && (#[trigger] all[a]).is_default && (
            #[trigger] all[b]).is_default implies a == b by {
            if a != b {
                let lo = if a < b {
                    a
                } else {
                    b
                };
                let hi = if a < b {
                    b
                } else {
                    a
                };
                assert(all[lo].index < all[hi].index);
                assert(marks_default(host, all[hi].index as int));
                assert(marks_default(host, all[lo].index as int));
            }
        }
    }
}

impl AudioDeviceManager {
    /// The catalog of what the host reported: the name of each of its input
    /// devices, in its order, and its default input device if it has one,
    /// with that device's name.  A host that failed to enumerate has no
    /// devices.
    pub fn new(names: Vec<Option<String>>, default_device: Option<Option<String>>) -> (manager:
        Self)
        ensures
            manager@.names == Seq::new(names@.len(), |i: int| name_view(names@[i])),
            manager@.has_default == default_device is Some,
            manager@.default_name == (match default_device {
                Some(name) => name_view(name),
                None => None,
            }),
    {
        match default_device {
            Some(name) => AudioDeviceManager { names, default_name: name, has_default: true },
            None => AudioDeviceManager { names, default_name: None, has_default: false },
        }
    }

    /// The devices that have a name, in the host's order, each under its
    /// position in the host's list.  The first device that bears the name of
    /// the host's default device is marked as default, and no other.
    pub fn list_input_devices(&self) -> (list: Vec<AudioDeviceInfo>)
        ensures
            entries_of(list@) == listed(self@),
            forall|a: int, b: int|
                0 <= a < list.len() && 0 <= b < list.len() && (#[trigger] list[a]).is_default && (
                #[trigger] list[b]).is_default ==> a == b,
    {
        let mut list: Vec<AudioDeviceInfo> = Vec::new();
        let mut seen_default: bool = false;
        let mut i: usize = 0;
        let ghost host = self@;
        while i < self.names.len()
            invariant
                i <= self.names.len(),
                host == self@,
                host.names.len() == self.names.len(),
                entries_of(list@) == listed_upto(host, i as int),
                seen_default == (host.default_name is Some && exists|j: int|
                    0 <= j < i && host.names[j] == host.default_name),
            decreases self.names.len() - i,
        {
            let ghost before = list@;
            assert(host.names[i as int] == name_view(self.names@[i as int]));
            match &self.names[i] {
                Some(name) => {
                    let is_default = !seen_default && match &self.default_name {
                        Some(d) => *d == *name,
                        None => false,
                    };
                    proof {
                        if is_default {
                            assert(marks_default(host, i as int));
                        } else {
                            if marks_default(host, i as int) {
                                assert(!seen_default);
                            }
                            assert(!marks_default(host, i as int));
                        }
                    }
                    if is_default {
                        seen_default = true;
                    }
                    list.push(AudioDeviceInfo { name: name.clone(), index: i, is_default });
                    assert(entries_of(list@) =~= entries_of(before).push(list@[before.len() as int]@));
                },
                None => {},
            }
            i += 1;
        }
        proof {
            lemma_listed(host, host.names.len() as int);
            assert forall|a: int, b: int|
                0 <= a < list.len() && 0 <= b < list.len() && (#[trigger] list[a]).is_default && (
                #[trigger] list[b]).is_default implies a == b by {
                assert(entries_of(list@)[a] == list[a]@);
                assert(entries_of(list@)[b] == list[b]@);
            }
        }
        list
    }

    /// The host's default input device, if it has one.
    pub fn default_input_device(&self) -> (device: Option<DeviceRef>)
        ensures
            device == (if self@.has_default {
                Some(DeviceRef::Default)
            } else {
                None
            }),
    {
        if self.has_default {
            Some(DeviceRef::Default)
        } else {
            None
        }
    }

    /// The device at position `index` of the host's list, if the list is
    /// that long.
    pub fn input_device_by_index(&self, index: usize) -> (device: Option<DeviceRef>)
        ensures
            device == (if index < self@.names.len() {
                Some(DeviceRef::Index(index))
            } else {
                None
            }),
    {
        if index < self.names.len() {
            Some(DeviceRef::Index(index))
        } else {
            None
        }
    }

    /// The default input format of a device, given what the device reported:
    /// the format to record in, or the step of a start that fails on it.
    pub fn default_input_config(reported: Result<StreamFormat, String>) -> (r: Result<
        StreamFormat,
        StartFailure,
    >)
        ensures
            is_format_verdict(r, reported),
    {
        match reported {
            Err(why) => Err(StartFailure { step: StartStep::QueryFormat, message: why }),
            Ok(format) => {
                if format.channels == 0 {
                    return Err(
                        StartFailure {
                            step: StartStep::QueryFormat,
                            message: String::from_str("device reports no channels"),
                        },
                    );
                }
                match format.sample_format {
                    SampleFormat::Other(name) => Err(
                        StartFailure { step: StartStep::SampleFormat, message: name },
                    ),
                    SampleFormat::Float32 => Ok(
                        StreamFormat {
                            channels: format.channels,
                            sample_rate: format.sample_rate,
                            sample_format: SampleFormat::Float32,
                        },
                    ),
                    SampleFormat::Int16 => Ok(
                        StreamFormat {
                            channels: format.channels,
                            sample_rate: format.sample_rate,
                            sample_format: SampleFormat::Int16,
                        },
                    ),
                    SampleFormat::UInt16 => Ok(
                        StreamFormat {
                            channels: format.channels,
                            sample_rate: format.sample_rate,
                            sample_format: SampleFormat::UInt16,
                        },
                    ),
                }
            },
        }
    }

    /// The first device named `name`, if there is one.
    pub fn input_device_by_name(&self, name: &str) -> (device: Option<DeviceRef>)
        ensures
            match position_of(self@, name@) {
                Some(i) => 0 <= i < self@.names.len() && device == Some(
                    DeviceRef::Index(i as usize),
                ) && self@.names[i] == Some(name@) && forall|j: int|
                    0 <= j < i ==> self@.names[j] != Some(name@),
                None => device is None,
            },
    {
        let wanted = String::from_str(name);
        let ghost host = self@;
        let mut i: usize = 0;
        while i < self.names.len()
            invariant
                i <= self.names.len(),
                host == self@,
                host.names.len() == self.names.len(),
                wanted@ == name@,
                forall|j: int| 0 <= j < i ==> host.names[j] != Some(name@),
                first_named(host, name@, 0) == first_named(host, name@, i as int),
            decreases self.names.len() - i,
        {
            assert(host.names[i as int] == name_view(self.names@[i as int]));
            let hit = match &self.names[i] {
                Some(n) => *n == wanted,
                None => false,
            };
            if hit {
                return Some(DeviceRef::Index(i));
            }
            i += 1;
        }
        None
    }
}

} // verus!
