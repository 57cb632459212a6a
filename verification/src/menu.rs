//! The tray menu: what it shows, and what a click on one of its entries
//! asks for.

use crate::audio::AudioDeviceInfo;
use crate::paths::{file_name, file_name_of};
use crate::recorder::{text_view, RecorderState};
use crate::text::{decimal, has_prefix, is_digit, push_decimal, same_text, starts_with, to_chars};
use vstd::prelude::*;

verus! {

// ---------------------------------------------------------------------------
// Clicks
// ---------------------------------------------------------------------------

/// What a click on a menu entry asks for.
#[derive(Debug, Clone, Copy, PartialEq, Eq, Structural)]
pub enum TrayCommand {
    /// Start a recording.
    StartRecording,
    /// End the recording in progress.
    StopRecording,
    /// Let the user pick the output directory.
    PickOutputDir,
    /// Show the output directory.
    OpenOutputDir,
    /// Leave; with `stop_first`, after ending the recording in progress.
    Quit { stop_first: bool },
    /// Follow the system's default device.
    SelectDefaultDevice,
    /// Use the device at this position of the host's list.
    SelectDevice(usize),
    /// Nothing: the entry is none of the menu's.
    Nothing,
}

/// The number that a run of decimal digits stands for.
pub open spec fn digits_value(s: Seq<char>) -> nat
    decreases s.len(),
{
    if s.len() == 0 {
        0
    } else {
        digits_value(s.drop_last()) * 10 + (s.last() as int - 48) as nat
    }
}

/// Whether `s` holds decimal digits only.
pub open spec fn all_digits(s: Seq<char>) -> bool {
    forall|i: int| 0 <= i < s.len() ==> is_digit(#[trigger] s[i])
}

/// The position that a text stands for: decimal digits, at least one, with
/// or without a `+` in front; `None` for any other text and for a number
/// that no `usize` holds.
pub open spec fn parsed_index(s: Seq<char>) -> Option<usize> {
    let digits = if s.len() > 0 && s[0] == '+' {
        s.skip(1)
    } else {
        s
    };
    if digits.len() > 0 && all_digits(digits) && digits_value(digits) <= usize::MAX {
        Some(digits_value(digits) as usize)
    } else {
        None
    }
}

proof fn lemma_digits_value_grows(s: Seq<char>, n: int)
    requires
        0 <= n <= s.len(),
        all_digits(s),
    ensures
        digits_value(s.take(n)) <= digits_value(s),
    decreases s.len() - n,
{
    if n < s.len() {
        let front = s.drop_last();
        assert(all_digits(front)) by {
            assert forall|i: int| 0 <= i < front.len() implies is_digit(#[trigger] front[i]) by {
                assert(front[i] == s[i]);
            }
        }
        assert(is_digit(s[s.len() - 1]));
        lemma_digits_value_grows(front, n);
        assert(front.take(n) =~= s.take(n));
    } else {
        assert(s.take(n) =~= s);
    }
}

/// Reads a position from the characters of `chars` from `from` on.
fn parse_index(chars: &Vec<char>, from: usize) -> (r: Option<usize>)
    requires
        from <= chars.len(),
    ensures
        r == parsed_index(chars@.skip(from as int)),
{
    let ghost text = chars@.skip(from as int);
    let n: usize = chars.len();
    let start: usize = if from < n && chars[from] == '+' {
        from + 1
    } else {
        from
    };
    let ghost digits = chars@.skip(start as int);
    assert(digits == (if text.len() > 0 && text[0] == '+' {
        text.skip(1)
    } else {
        text
    })) by {
        if from < n && chars@[from as int] == '+' {
            assert(text.skip(1) =~= chars@.skip(from + 1));
        }
    }
    if start == n {
        return None;
    }
    let mut value: usize = 0;
    let mut i: usize = start;
    while i < n
        invariant
            start <= i <= n,
            n == chars.len(),
            from <= chars.len(),
            digits == chars@.skip(start as int),
            parsed_index(chars@.skip(from as int)) == (if digits.len() > 0 && all_digits(digits)
                && digits_value(digits) <= usize::MAX {
                Some(digits_value(digits) as usize)
            } else {
                None
            }),
            all_digits(digits.take(i - start)),
            value == digits_value(digits.take(i - start)),
        decreases n - i,
    {
        let c: char = chars[i];
        let ghost next = digits.take(i - start + 1);
        proof {
            assert(next.drop_last() =~= digits.take(i - start));
            assert(next.last() == c);
        }
        if !('0' <= c && c <= '9') {
            assert(!all_digits(digits)) by {
                assert(digits[i - start] == c);
            }
            return None;
        }
        assert(all_digits(next)) by {
            assert forall|k: int| 0 <= k < next.len() implies is_digit(#[trigger] next[k]) by {
                if k < i - start {
                    assert(next[k] == digits.take(i - start)[k]);
                }
            }
        }
        let d: usize = (c as u8 - 48) as usize;
        let grown: Option<usize> = match value.checked_mul(10) {
            Some(tens) => tens.checked_add(d),
            None => None,
        };
        match grown {
            Some(v) => {
                value = v;
            },
            None => {
                proof {
                    assert(digits_value(next) > usize::MAX);
                    if all_digits(digits) {
                        lemma_digits_value_grows(digits, i - start + 1);
                    }
                }
                return None;
            },
        }
        i += 1;
    }
    assert(digits.take(n - start) =~= digits);
    Some(value)
}

/// What a click on the entry `id` asks for, while the recorder is in
/// `state`.
pub open spec fn command_for(id: Seq<char>, state: RecorderState) -> TrayCommand {
    if id == "toggle_recording"@ {
        if state == RecorderState::Recording {
            TrayCommand::StopRecording
        } else {
            TrayCommand::StartRecording
        }
    } else if id == "set_output_dir"@ {
        TrayCommand::PickOutputDir
    } else if id == "open_output_dir"@ {
        TrayCommand::OpenOutputDir
    } else if id == "quit"@ {
        TrayCommand::Quit { stop_first: state == RecorderState::Recording }
    } else if has_prefix(id, "device_"@) {
        if id == "device_auto"@ {
            TrayCommand::SelectDefaultDevice
        } else {
            match parsed_index(id.skip(7)) {
                Some(index) => TrayCommand::SelectDevice(index),
                None => TrayCommand::Nothing,
            }
        }
    } else {
        TrayCommand::Nothing
    }
}

/// What a click on the entry `id` asks for, while the recorder is in
/// `state`.
pub fn handle_menu_event(id: &str, state: RecorderState) -> (command: TrayCommand)
    ensures
        command == command_for(id@, state),
{
    let recording: bool = match state {
        RecorderState::Recording => true,
        RecorderState::Idle => false,
    };
    if same_text(id, "toggle_recording") {
        return if recording {
            TrayCommand::StopRecording
        } else {
            TrayCommand::StartRecording
        };
    }
    if same_text(id, "set_output_dir") {
        return TrayCommand::PickOutputDir;
    }
    if same_text(id, "open_output_dir") {
        return TrayCommand::OpenOutputDir;
    }
    if same_text(id, "quit") {
        return TrayCommand::Quit { stop_first: recording };
    }
    let chars = to_chars(id);
    assert(chars@.subrange(0, chars.len() as int) =~= chars@);
    if !starts_with(&chars, 0, chars.len(), "device_") {
        return TrayCommand::Nothing;
    }
    if same_text(id, "device_auto") {
        return TrayCommand::SelectDefaultDevice;
    }
    proof {
        reveal_strlit("device_");
    }
    match parse_index(&chars, 7) {
        Some(index) => TrayCommand::SelectDevice(index),
        None => TrayCommand::Nothing,
    }
}

/// The name of the device at position `index` of the host's list, if the
/// device list has an entry for that position.
pub fn device_name_at(devices: &Vec<AudioDeviceInfo>, index: usize) -> (name: Option<String>)
    ensures
        match name {
            Some(n) => exists|k: int|
                0 <= k < devices.len() && (#[trigger] devices[k]).index == index && devices[k].name@
                    == n@ && forall|j: int| 0 <= j < k ==> (#[trigger] devices[j]).index != index,
            None => forall|k: int| 0 <= k < devices.len() ==> (#[trigger] devices[k]).index != index,
        },
{
    let mut k: usize = 0;
    while k < devices.len()
        invariant
            k <= devices.len(),
            forall|j: int| 0 <= j < k ==> (#[trigger] devices[j]).index != index,
        decreases devices.len() - k,
    {
        if devices[k].index == index {
            return Some(devices[k].name.clone());
        }
        k += 1;
    }
    None
}

// ---------------------------------------------------------------------------
// Entries
// ---------------------------------------------------------------------------

/// An entry of the menu.
#[derive(Debug, Clone)]
pub enum MenuEntry {
    /// A line to click on, or a heading where it is not enabled.
    Item { id: String, label: String, enabled: bool },
    /// A line with a check mark.
    Check { id: String, label: String, checked: bool },
    /// A line that parts groups of entries.
    Separator,
}

/// An entry, as far as contracts go.
pub enum EntryView {
    Item { id: Seq<char>, label: Seq<char>, enabled: bool },
    Check { id: Seq<char>, label: Seq<char>, checked: bool },
    Separator,
}

impl View for MenuEntry {
    type V = EntryView;

    open spec fn view(&self) -> EntryView {
        match self {
            MenuEntry::Item { id, label, enabled } => EntryView::Item {
                id: id@,
                label: label@,
                enabled: *enabled,
            },
            MenuEntry::Check { id, label, checked } => EntryView::Check {
                id: id@,
                label: label@,
                checked: *checked,
            },
            MenuEntry::Separator => EntryView::Separator,
        }
    }
}

/// The views of a list of entries.
pub open spec fn entry_views(entries: Seq<MenuEntry>) -> Seq<EntryView> {
    Seq::new(entries.len(), |i: int| entries[i]@)
}

/// The entry for following the system's default device.
pub open spec fn auto_entry(selected: Option<Seq<char>>) -> EntryView {
    EntryView::Check { id: "device_auto"@, label: "  Auto (Default)"@, checked: selected is None }
}

/// The entry for a device: checked where the device is the selected one.
pub open spec fn device_entry(device: AudioDeviceInfo, selected: Option<Seq<char>>) -> EntryView {
    EntryView::Check {
        id: "device_"@ + decimal(device.index as nat),
        label: if device.is_default {
            "  "@ + device.name@ + " (Default)"@
        } else {
            "  "@ + device.name@
        },
        checked: selected == Some(device.name@),
    }
}

/// The entries for the devices: one for the default device, then one for
/// each device of the list.
pub open spec fn device_entries(devices: Seq<AudioDeviceInfo>, selected: Option<Seq<char>>) -> Seq<
    EntryView,
> {
    seq![auto_entry(selected)] + Seq::new(devices.len(), |i: int| device_entry(devices[i], selected))
}

/// The entries for the devices.
pub fn build_device_items(devices: &Vec<AudioDeviceInfo>, selected: &Option<String>) -> (items: Vec<
    MenuEntry,
>)
    ensures
        entry_views(items@) == device_entries(
            devices@,
            text_view(*selected),
        ),
{
    let ghost sel = text_view(*selected);
    let mut items: Vec<MenuEntry> = Vec::new();
    items.push(
        MenuEntry::Check {
            id: String::from_str("device_auto"),
            label: String::from_str("  Auto (Default)"),
            checked: selected.is_none(),
        },
    );
    let mut i: usize = 0;
    assert(entry_views(items@) =~= seq![auto_entry(sel)]);
    while i < devices.len()
        invariant
            i <= devices.len(),
            sel == text_view(*selected),
            entry_views(items@) == seq![auto_entry(sel)] + Seq::new(
                i as nat,
                |k: int| device_entry(devices[k], sel),
            ),
        decreases devices.len() - i,
    {
        let device = &devices[i];
        let mut label = String::from_str("  ");
        label.append(device.name.as_str());
        if device.is_default {
            label.append(" (Default)");
        }
        let mut id = String::from_str("device_");
        push_decimal(&mut id, device.index as u64);
        let checked: bool = match selected {
            Some(name) => *name == device.name,
            None => false,
        };
        let ghost before = entry_views(items@);
        items.push(MenuEntry::Check { id, label, checked });
        assert(entry_views(items@) =~= before.push(device_entry(devices[i as int], sel)));
        assert(entry_views(items@) =~= seq![auto_entry(sel)] + Seq::new(
            (i + 1) as nat,
            |k: int| device_entry(devices[k], sel),
        ));
        i += 1;
    }
    items
}

/// What the menu shows of the output directory: its last component, or
/// `Unknown` where the path ends without one.
pub open spec fn output_label(output_dir: Seq<char>) -> Seq<char> {
    let name = file_name(output_dir);
    "Output: "@ + (if name.len() == 0 {
        "Unknown"@
    } else {
        name
    }) + "..."@
}

/// The entries above the devices.
pub open spec fn head_entries(recording: bool) -> Seq<EntryView> {
    seq![
        EntryView::Item {
            id: "toggle_recording"@,
            label: if recording {
                "⏹ Stop Recording"@
            } else {
                "⏺ Start Recording"@
            },
            enabled: true,
        },
        EntryView::Separator,
        EntryView::Item { id: "device_header"@, label: "Input Device"@, enabled: false },
    ]
}

/// The entries below the devices.  The output directory cannot be changed
/// while a recording is in progress.
pub open spec fn tail_entries(recording: bool, output_dir: Seq<char>) -> Seq<EntryView> {
    seq![
        EntryView::Separator,
        EntryView::Item {
            id: "set_output_dir"@,
            label: output_label(output_dir),
            enabled: !recording,
        },
        EntryView::Item { id: "open_output_dir"@, label: "Open Output Folder"@, enabled: true },
        EntryView::Separator,
        EntryView::Item { id: "quit"@, label: "Quit Lyre Recorder"@, enabled: true },
    ]
}

fn item(id: &str, label: String, enabled: bool) -> (entry: MenuEntry)
    ensures
        entry@ == (EntryView::Item { id: id@, label: label@, enabled }),
{
    MenuEntry::Item { id: String::from_str(id), label, enabled }
}

/// The menu, from top to bottom.
pub fn build_tray_menu(
    state: RecorderState,
    devices: &Vec<AudioDeviceInfo>,
    selected: &Option<String>,
    output_dir: &str,
) -> (menu: Vec<MenuEntry>)
    ensures
        entry_views(menu@) == head_entries(state == RecorderState::Recording) + device_entries(
            devices@,
            text_view(*selected),
        ) + tail_entries(state == RecorderState::Recording, output_dir@),
{
    let ghost sel = text_view(*selected);
    let recording: bool = match state {
        RecorderState::Recording => true,
        RecorderState::Idle => false,
    };
    let mut menu: Vec<MenuEntry> = Vec::new();
    let toggle_label = if recording {
        String::from_str("⏹ Stop Recording")
    } else {
        String::from_str("⏺ Start Recording")
    };
    menu.push(item("toggle_recording", toggle_label, true));
    menu.push(MenuEntry::Separator);
    menu.push(item("device_header", String::from_str("Input Device"), false));
    assert(entry_views(menu@) =~= head_entries(recording));
    let mut items = build_device_items(devices, selected);
    let ghost head = menu@;
    let ghost middle = items@;
    menu.append(&mut items);
    assert(entry_views(menu@) =~= entry_views(head) + entry_views(middle));

    let name = file_name_of(output_dir);
    let mut label = String::from_str("Output: ");
    if name.as_str().unicode_len() == 0 {
        label.append("Unknown");
    } else {
        label.append(name.as_str());
    }
    label.append("...");
    let ghost upper = menu@;
    menu.push(MenuEntry::Separator);
    menu.push(item("set_output_dir", label, !recording));
    menu.push(item("open_output_dir", String::from_str("Open Output Folder"), true));
    menu.push(MenuEntry::Separator);
    menu.push(item("quit", String::from_str("Quit Lyre Recorder"), true));
    assert(entry_views(menu@) =~= entry_views(upper) + tail_entries(recording, output_dir@));
    menu
}

/// What the tray says when the pointer rests on it.
pub fn tray_tooltip(recording: bool) -> (tip: &'static str)
    ensures
        tip@ == (if recording {
            "Lyre Recorder (Recording...)"@
        } else {
            "Lyre Recorder"@
        }),
{
    if recording {
        "Lyre Recorder (Recording...)"
    } else {
        "Lyre Recorder"
    }
}

} // verus!
