//! Finding the touch panel among the input devices.
use vstd::prelude::*;
use vstd::string::StringExecFns;

use crate::text::{chars_of, lower_chars, range_contains, starts_with};
#[allow(unused_imports)]
use crate::text::{ascii_lower, contains, lower, stands_at};

verus! {

/// Where the kernel lists the input devices.
pub const INPUT_CLASS_DIR: &'static str = "/sys/class/input/";

/// Where the name of a listed device stands, below its entry.
pub const DEVICE_NAME_FILE: &'static str = "/device/name";

/// Where the devices themselves stand.
pub const DEV_INPUT_DIR: &'static str = "/dev/input/";

/// What the entries of event devices start with.
pub const EVENT_PREFIX: &'static str = "event";

/// What the name of the touch panel holds, in small or capital letters.
pub const TOUCH_VENDOR: &'static str = "fts";

/// What the search remembers: the entry whose device name is being read.
#[derive(Debug)]
pub struct TouchSearch {
    pub candidate: Option<String>,
}

impl View for TouchSearch {
    type V = Option<Seq<char>>;

    open spec fn view(&self) -> Option<Seq<char>> {
        text_of(self.candidate)
    }
}

/// What happened after the last action.
#[derive(Debug)]
pub enum TouchEvent {
    /// The list of input devices was opened, or could not be.
    Listed { ok: bool },
    /// The next entry, by its name; `None` where the name is not UTF-8.
    Entry { name: Option<String> },
    /// What the device name of the entry holds; `None` where it could not be read
    /// as text.
    DeviceName { contents: Option<String> },
    /// There are no more entries.
    End,
}

/// What to do next.
#[derive(Debug)]
pub enum TouchAction {
    /// Take the next entry that can be read.
    NextEntry,
    /// Read the device name that stands at `path`.
    ReadDeviceName { path: String },
    /// The search is over; `node` is the touch panel, if it was found.
    Finish { node: Option<String> },
}

/// A search action, as a mathematical value.
pub enum TouchOutcome {
    NextEntry,
    ReadDeviceName { path: Seq<char> },
    Finish { node: Option<Seq<char>> },
}

/// The characters of a text, where there is one.
pub open spec fn text_of(s: Option<String>) -> Option<Seq<char>> {
    match s {
        Some(text) => Some(text@),
        None => None,
    }
}

impl View for TouchAction {
    type V = TouchOutcome;

    open spec fn view(&self) -> TouchOutcome {
        match *self {
            TouchAction::NextEntry => TouchOutcome::NextEntry,
            TouchAction::ReadDeviceName { path } => TouchOutcome::ReadDeviceName { path: path@ },
            TouchAction::Finish { node } => TouchOutcome::Finish { node: text_of(node) },
        }
    }
}

/// Is this the name of an event device's entry?
pub open spec fn is_event_entry(name: Seq<char>) -> bool {
    stands_at(name, EVENT_PREFIX@, 0)
}

/// Is this the device name of the touch panel?
pub open spec fn names_touch_panel(contents: Seq<char>) -> bool {
    contains(lower(contents), TOUCH_VENDOR@)
}

/// Where the device of an entry stands.
pub open spec fn device_node(name: Seq<char>) -> Seq<char> {
    DEV_INPUT_DIR@ + name
}

/// Where the device name of an entry stands.
pub open spec fn device_name_path(name: Seq<char>) -> Seq<char> {
    INPUT_CLASS_DIR@ + name + DEVICE_NAME_FILE@
}

/// An entry whose name cannot be read ends the search; the device name of an
/// event device is read, and every other entry is passed over.
pub open spec fn entry_outcome(name: Option<Seq<char>>) -> TouchOutcome {
    match name {
        None => TouchOutcome::Finish { node: None },
        Some(name) => if is_event_entry(name) {
            TouchOutcome::ReadDeviceName { path: device_name_path(name) }
        } else {
            TouchOutcome::NextEntry
        },
    }
}

/// The search ends at the touch panel, and passes over every other device and
/// every device whose name cannot be read.
pub open spec fn device_outcome(
    candidate: Option<Seq<char>>,
    contents: Option<Seq<char>>,
) -> TouchOutcome {
    match (candidate, contents) {
        (Some(name), Some(text)) => if names_touch_panel(text) {
            TouchOutcome::Finish { node: Some(device_node(name)) }
        } else {
            TouchOutcome::NextEntry
        },
        _ => TouchOutcome::NextEntry,
    }
}

/// One step of the search.
pub open spec fn touch_step(candidate: Option<Seq<char>>, event: TouchEvent) -> (
    Option<Seq<char>>,
    TouchOutcome,
) {
    match event {
        TouchEvent::Listed { ok } => (
            None,
            if ok {
                TouchOutcome::NextEntry
            } else {
                TouchOutcome::Finish { node: None }
            },
        ),
        TouchEvent::Entry { name } => (
            match text_of(name) {
                Some(text) if is_event_entry(text) => Some(text),
                _ => None,
            },
            entry_outcome(text_of(name)),
        ),
        TouchEvent::DeviceName { contents } => (
            None,
            device_outcome(candidate, text_of(contents)),
        ),
        TouchEvent::End => (None, TouchOutcome::Finish { node: None }),
    }
}

impl TouchSearch {
    /// A search that has seen no entry yet.
    pub fn new() -> (search: TouchSearch)
        ensures
            search@ is None,
    {
        TouchSearch { candidate: None }
    }

    /// One step of the search for the touch panel.
    pub fn find_fts_touch_node(&mut self, event: TouchEvent) -> (action: TouchAction)
        ensures
            (final(self)@, action@) == touch_step(old(self)@, event),
    {
        let candidate: Option<String> = self.candidate.take();
        match event {
            TouchEvent::Listed { ok } => if ok {
                TouchAction::NextEntry
            } else {
                TouchAction::Finish { node: None }
            },
            TouchEvent::Entry { name } => match name {
                None => TouchAction::Finish { node: None },
                Some(name) => if starts_with(&chars_of(name.as_str()), &chars_of(EVENT_PREFIX)) {
                    let mut path: String = INPUT_CLASS_DIR.to_owned();
                    path.append(name.as_str());
                    path.append(DEVICE_NAME_FILE);
                    self.candidate = Some(name);
                    TouchAction::ReadDeviceName { path }
                } else {
                    TouchAction::NextEntry
                },
            },
            TouchEvent::DeviceName { contents } => match (candidate, contents) {
                (Some(name), Some(text)) => if is_touch_panel(text.as_str()) {
                    let mut node: String = DEV_INPUT_DIR.to_owned();
                    node.append(name.as_str());
                    TouchAction::Finish { node: Some(node) }
                } else {
                    TouchAction::NextEntry
                },
                _ => TouchAction::NextEntry,
            },
            TouchEvent::End => TouchAction::Finish { node: None },
        }
    }
}

/// Is this the device name of the touch panel?
fn is_touch_panel(contents: &str) -> (yes: bool)
    ensures
        yes == names_touch_panel(contents@),
{
    let small: Vec<char> = lower_chars(&chars_of(contents));
    let vendor: Vec<char> = chars_of(TOUCH_VENDOR);
    assert(small@.subrange(0, small@.len() as int) =~= small@);
    range_contains(&small, 0, small.len(), &vendor)
}

/// An entry of the list, with what its device name holds.
pub struct ListedDevice {
    pub name: Option<String>,
    pub contents: Option<String>,
}

/// Is this entry the touch panel?
pub open spec fn is_touch_entry(device: ListedDevice) -> bool {
    &&& device.name matches Some(name)
    &&& is_event_entry(name@)
    &&& device.contents matches Some(text)
    &&& names_touch_panel(text@)
}

/// What a search that remembers `candidate` finds where the rest of the list is
/// `devices`.
pub open spec fn search(candidate: Option<Seq<char>>, devices: Seq<ListedDevice>) -> Option<
    Seq<char>,
>
    decreases devices.len(),
{
    if devices.len() == 0 {
        match touch_step(candidate, TouchEvent::End).1 {
            TouchOutcome::Finish { node } => node,
            _ => None,
        }
    } else {
        let (seen, first) = touch_step(candidate, TouchEvent::Entry { name: devices[0].name });
        match first {
            TouchOutcome::Finish { node } => node,
            TouchOutcome::NextEntry => search(seen, devices.drop_first()),
            TouchOutcome::ReadDeviceName { .. } => {
                let (next, second) = touch_step(
                    seen,
                    TouchEvent::DeviceName { contents: devices[0].contents },
                );
                match second {
                    TouchOutcome::Finish { node } => node,
                    _ => search(next, devices.drop_first()),
                }
            },
        }
    }
}

/// Is the entry at `i` the touch panel, with no touch panel and no entry without
/// a readable name before it?
pub open spec fn is_first_touch_entry(devices: Seq<ListedDevice>, i: int) -> bool {
    &&& 0 <= i < devices.len()
    &&& is_touch_entry(devices[i])
    &&& forall|j: int|
        0 <= j < i ==> (#[trigger] devices[j]).name is Some && !is_touch_entry(devices[j])
}

/// The search finds the first touch panel of the list, if its entry comes before
/// every entry whose name cannot be read, and nothing otherwise.
pub proof fn law_search_finds_first_touch_panel(
    candidate: Option<Seq<char>>,
    devices: Seq<ListedDevice>,
)
    ensures
        forall|i: int| #[trigger]
            is_first_touch_entry(devices, i) ==> search(candidate, devices) == Some(
                device_node(devices[i].name->0@),
            ),
        (forall|i: int| !#[trigger] is_first_touch_entry(devices, i)) ==> search(
            candidate,
            devices,
        ) is None,
    decreases devices.len(),
{
    if devices.len() > 0 {
        let rest = devices.drop_first();
        law_search_finds_first_touch_panel(None, rest);
        let goes_on = devices[0].name is Some && !is_touch_entry(devices[0]);
        assert(goes_on ==> search(candidate, devices) == search(None, rest));
        assert forall|i: int| #[trigger] is_first_touch_entry(devices, i) implies search(
            candidate,
            devices,
        ) == Some(device_node(devices[i].name->0@)) by {
            if i > 0 {
                assert(devices[0].name is Some);
                assert forall|j: int| 0 <= j < i - 1 implies (#[trigger] rest[j]).name is Some
                    && !is_touch_entry(rest[j]) by {
                    assert(rest[j] == devices[j + 1]);
                }
                assert(rest[i - 1] == devices[i]);
                assert(is_first_touch_entry(rest, i - 1));
            }
        }
        if forall|i: int| !#[trigger] is_first_touch_entry(devices, i) {
            assert(!is_first_touch_entry(devices, 0));
            if goes_on {
                assert forall|i: int| !#[trigger] is_first_touch_entry(rest, i) by {
                    if is_first_touch_entry(rest, i) {
                        assert forall|j: int| 0 <= j < i + 1 implies (#[trigger] devices[j]).name
                            is Some && !is_touch_entry(devices[j]) by {
                            if j > 0 {
                                assert(rest[j - 1] == devices[j]);
                            }
                        }
                        assert(rest[i] == devices[i + 1]);
                        assert(is_first_touch_entry(devices, i + 1));
                    }
                }
            }
        }
    }
}

/// The characters of a text are those of the string, and there are some exactly where
/// there is a string.
pub proof fn law_search_values_are_texts(some: String, action: TouchAction)
    ensures
        text_of(Some(some)) == Some(some@),
        text_of(None) is None,
        action is NextEntry <==> action@ is NextEntry,
        action matches TouchAction::ReadDeviceName { path } ==> action@ == (
        TouchOutcome::ReadDeviceName { path: path@ }),
        action matches TouchAction::Finish { node: Some(node) } ==> action@ == (
        TouchOutcome::Finish { node: Some(node@) }),
        action matches TouchAction::Finish { node: None } ==> action@ == (TouchOutcome::Finish {
            node: None,
        }),
{
}

/// A device name is that of the touch panel exactly where the three letters f, t and
/// s stand in it side by side, each of them small or capital.
pub proof fn law_touch_panel_is_told_by_three_letters(contents: Seq<char>)
    ensures
        names_touch_panel(contents) <==> exists|at: int|
            {
                &&& 0 <= at
                &&& at + 3 <= contents.len()
                &&& #[trigger] contents[at] == 'f' || contents[at] == 'F'
                &&& contents[at + 1] == 't' || contents[at + 1] == 'T'
                &&& contents[at + 2] == 's' || contents[at + 2] == 'S'
            },
{
    reveal_strlit("fts");
    let small = lower(contents);
    if names_touch_panel(contents) {
        let at = choose|at: int| stands_at(small, TOUCH_VENDOR@, at);
        let part = small.subrange(at, at + 3);
        assert(part[0] == 'f' && part[1] == 't' && part[2] == 's');
        assert(small[at] == 'f' && small[at + 1] == 't' && small[at + 2] == 's');
        lemma_lower_is(contents[at], 'f', 'F');
        lemma_lower_is(contents[at + 1], 't', 'T');
        lemma_lower_is(contents[at + 2], 's', 'S');
    }
    assert forall|at: int|
        {
            &&& 0 <= at
            &&& at + 3 <= contents.len()
            &&& #[trigger] contents[at] == 'f' || contents[at] == 'F'
            &&& contents[at + 1] == 't' || contents[at + 1] == 'T'
            &&& contents[at + 2] == 's' || contents[at + 2] == 'S'
        } implies names_touch_panel(contents) by {
        lemma_lower_is(contents[at], 'f', 'F');
        lemma_lower_is(contents[at + 1], 't', 'T');
        lemma_lower_is(contents[at + 2], 's', 'S');
        assert(small.subrange(at, at + 3) =~= TOUCH_VENDOR@);
        assert(stands_at(small, TOUCH_VENDOR@, at));
    }
}

/// A character reads as a small letter where it is that letter or its capital.
proof fn lemma_lower_is(c: char, small: char, capital: char)
    requires
        'a' <= small <= 'z',
        capital as int + 32 == small as int,
    ensures
        ascii_lower(c) == small <==> c == small || c == capital,
{
}

/// An entry is asked for its device name exactly where its name starts with `event`;
/// the file that is asked for stands below the whole name, and the whole name is kept
/// for the answer. An entry whose name cannot be read ends the search with nothing,
/// and every other one is passed over.
pub proof fn law_event_entries_are_asked_for_their_name(
    candidate: Option<Seq<char>>,
    name: Option<String>,
)
    ensures
        ({
            let (kept, outcome) = touch_step(candidate, TouchEvent::Entry { name });
            match name {
                None => kept is None && outcome == (TouchOutcome::Finish { node: None }),
                Some(name) => if name@.len() >= 5 && name@[0] == 'e' && name@[1] == 'v' && name@[2]
                    == 'e' && name@[3] == 'n' && name@[4] == 't' {
                    &&& kept == Some(name@)
                    &&& outcome == (TouchOutcome::ReadDeviceName {
                        path: "/sys/class/input/"@ + name@ + "/device/name"@,
                    })
                } else {
                    kept is None && outcome is NextEntry
                },
            }
        }),
{
    reveal_strlit("event");
    if let Some(name) = name {
        let s = name@;
        if s.len() >= 5 {
            let front = s.subrange(0, 5);
            if s[0] == 'e' && s[1] == 'v' && s[2] == 'e' && s[3] == 'n' && s[4] == 't' {
                assert(front =~= EVENT_PREFIX@);
            } else {
                assert(front[0] == s[0] && front[1] == s[1] && front[2] == s[2] && front[3]
                    == s[3] && front[4] == s[4]);
                assert(front != EVENT_PREFIX@);
            }
        }
    }
}

/// The answer ends the search exactly where it can be read and holds the three
/// letters. The node that is found is as long as the text `/dev/input/` and the whole
/// name of the entry together, starts with the one and ends with the other.
pub proof fn law_found_node_is_directory_and_entry(
    candidate: Option<Seq<char>>,
    contents: Option<String>,
)
    ensures
        ({
            let (kept, outcome) = touch_step(candidate, TouchEvent::DeviceName { contents });
            let is_panel = candidate is Some && contents is Some && exists|at: int|
                {
                    &&& 0 <= at
                    &&& at + 3 <= contents->0@.len()
                    &&& #[trigger] contents->0@[at] == 'f' || contents->0@[at] == 'F'
                    &&& contents->0@[at + 1] == 't' || contents->0@[at + 1] == 'T'
                    &&& contents->0@[at + 2] == 's' || contents->0@[at + 2] == 'S'
                };
            &&& kept is None
            &&& outcome is Finish <==> is_panel
            &&& !is_panel ==> outcome is NextEntry
            &&& outcome matches TouchOutcome::Finish { node } ==> {
                &&& node is Some
                &&& node->0 == "/dev/input/"@ + candidate->0
                &&& node->0.len() == 11 + candidate->0.len()
                &&& node->0.take(11) == "/dev/input/"@
                &&& node->0.skip(11) == candidate->0
            }
        }),
{
    reveal_strlit("/dev/input/");
    if let Some(text) = contents {
        law_touch_panel_is_told_by_three_letters(text@);
    }
    if let TouchOutcome::Finish { node: Some(node) } = touch_step(
        candidate,
        TouchEvent::DeviceName { contents },
    ).1 {
        assert(node.take(11) =~= "/dev/input/"@);
        assert(node.skip(11) =~= candidate->0);
    }
}

/// Two entries with different names never give the same node.
pub proof fn law_found_nodes_tell_entries_apart(
    a: Seq<char>,
    b: Seq<char>,
    one: Option<String>,
    other: Option<String>,
)
    ensures
        ({
            let first = touch_step(Some(a), TouchEvent::DeviceName { contents: one }).1;
            let second = touch_step(Some(b), TouchEvent::DeviceName { contents: other }).1;
            first is Finish && second is Finish && first == second ==> a == b
        }),
{
    law_found_node_is_directory_and_entry(Some(a), one);
    law_found_node_is_directory_and_entry(Some(b), other);
}

/// A list that cannot be opened, and the end of a list, end the search with nothing;
/// a list that can be opened is gone through. Nothing is kept from before.
pub proof fn law_search_goes_through_the_list(candidate: Option<Seq<char>>, ok: bool)
    ensures
        touch_step(candidate, TouchEvent::Listed { ok }) == (
            None::<Seq<char>>,
            if ok {
                TouchOutcome::NextEntry
            } else {
                TouchOutcome::Finish { node: None }
            },
        ),
        touch_step(candidate, TouchEvent::End) == (
            None::<Seq<char>>,
            TouchOutcome::Finish { node: None },
        ),
{
}

/// Whatever a search finds is the node of an entry of the list whose name starts with
/// `event` and whose device name holds the three letters.
pub proof fn law_search_finds_a_listed_panel(
    candidate: Option<Seq<char>>,
    devices: Seq<ListedDevice>,
)
    ensures
        search(candidate, devices) matches Some(node) ==> exists|i: int|
            {
                &&& 0 <= i < devices.len()
                &&& (#[trigger] devices[i]).name is Some
                &&& node == "/dev/input/"@ + devices[i].name->0@
                &&& "event"@.is_prefix_of(devices[i].name->0@)
                &&& devices[i].contents is Some
                &&& names_touch_panel(devices[i].contents->0@)
            },
    decreases devices.len(),
{
    if devices.len() > 0 {
        let rest = devices.drop_first();
        let device = devices[0];
        law_search_finds_a_listed_panel(None, rest);
        if let Some(node) = search(None, rest) {
            let i = choose|i: int|
                {
                    &&& 0 <= i < rest.len()
                    &&& (#[trigger] rest[i]).name is Some
                    &&& node == "/dev/input/"@ + rest[i].name->0@
                    &&& "event"@.is_prefix_of(rest[i].name->0@)
                    &&& rest[i].contents is Some
                    &&& names_touch_panel(rest[i].contents->0@)
                };
            assert(devices[i + 1] == rest[i]);
        }
        if is_touch_entry(device) {
            assert("event"@.is_prefix_of(device.name->0@));
        }
    }
}

} // verus!
