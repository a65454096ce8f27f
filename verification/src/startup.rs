//! What the wake service does before it serves.
use vstd::prelude::*;

#[allow(unused_imports)]
use crate::touch::text_of;
#[allow(unused_imports)]
use crate::watch::{watch_step, WatchEvent, WatchState};

verus! {

/// What was found out at the start.
#[derive(Debug)]
pub enum StartupEvent {
    /// Whether the backlight node and the suspend state node exist.
    Nodes { backlight: bool, suspend_state: bool },
    /// Whether the preference is on.
    Preference { enabled: bool },
    /// The watch for the preference to be switched on has ended.
    WatchEnded,
    /// The search for the touch panel has ended.
    TouchNode { node: Option<String> },
}

/// What to do next.
#[derive(Debug)]
pub enum StartupAction {
    /// End the program.
    Exit,
    /// Read the preference.
    ReadPreference,
    /// Watch the preference until it is on.
    WatchPreference,
    /// Search for the touch panel.
    FindTouchNode,
    /// Serve gestures from the device at `node`.
    Serve { node: String },
}

/// A startup action, as a mathematical value.
pub enum StartupOutcome {
    Exit,
    ReadPreference,
    WatchPreference,
    FindTouchNode,
    Serve { node: Seq<char> },
}

impl View for StartupAction {
    type V = StartupOutcome;

    open spec fn view(&self) -> StartupOutcome {
        match *self {
            StartupAction::Exit => StartupOutcome::Exit,
            StartupAction::ReadPreference => StartupOutcome::ReadPreference,
            StartupAction::WatchPreference => StartupOutcome::WatchPreference,
            StartupAction::FindTouchNode => StartupOutcome::FindTouchNode,
            StartupAction::Serve { node } => StartupOutcome::Serve { node: node@ },
        }
    }
}

/// A device without one of the two nodes, or without the touch panel, is not
/// served; and nothing is served before the preference is on.
pub open spec fn startup_step(event: StartupEvent) -> StartupOutcome {
    match event {
        StartupEvent::Nodes { backlight, suspend_state } => if backlight && suspend_state {
            StartupOutcome::ReadPreference
        } else {
            StartupOutcome::Exit
        },
        StartupEvent::Preference { enabled } => if enabled {
            StartupOutcome::FindTouchNode
        } else {
            StartupOutcome::WatchPreference
        },
        StartupEvent::WatchEnded => StartupOutcome::FindTouchNode,
        StartupEvent::TouchNode { node } => match text_of(node) {
            Some(path) => StartupOutcome::Serve { node: path },
            None => StartupOutcome::Exit,
        },
    }
}

/// One step of starting the wake service.
pub fn start_up(event: StartupEvent) -> (action: StartupAction)
    ensures
        action@ == startup_step(event),
{
    match event {
        StartupEvent::Nodes { backlight, suspend_state } => if !backlight || !suspend_state {
            StartupAction::Exit
        } else {
            StartupAction::ReadPreference
        },
        StartupEvent::Preference { enabled } => if !enabled {
            StartupAction::WatchPreference
        } else {
            StartupAction::FindTouchNode
        },
        StartupEvent::WatchEnded => StartupAction::FindTouchNode,
        StartupEvent::TouchNode { node } => match node {
            Some(node) => StartupAction::Serve { node },
            None => StartupAction::Exit,
        },
    }
}

/// While the start waits, the watch ends exactly when the preference is read as
/// on.
pub proof fn law_start_waits_for_preference(state: WatchState, enabled: bool)
    ensures
        watch_step(state, WatchEvent::Answered { keep: wants_to_wait(enabled) }).1.next is Stop
            <==> enabled,
{
}

/// The start waits for as long as the preference is off.
pub open spec fn wants_to_wait(enabled: bool) -> bool {
    !enabled
}

/// The answer to the watcher while the start waits for the preference: go on
/// until it is on.
pub fn keep_waiting(enabled: bool) -> (keep: bool)
    ensures
        keep == wants_to_wait(enabled),
{
    !enabled
}

/// The program ends exactly where a node or the touch panel is missing. The preference
/// is read where both nodes are there, and watched exactly where it is off. The touch
/// panel is searched for where the preference is on, or once it has come on; and the
/// device that is served is the one that was found.
pub proof fn law_start_serves_the_found_device(event: StartupEvent)
    ensures
        ({
            let outcome = startup_step(event);
            &&& outcome is Exit <==> match event {
                StartupEvent::Nodes { backlight, suspend_state } => !backlight || !suspend_state,
                StartupEvent::TouchNode { node } => node is None,
                _ => false,
            }
            &&& outcome is ReadPreference <==> event == (StartupEvent::Nodes {
                backlight: true,
                suspend_state: true,
            })
            &&& outcome is WatchPreference <==> event == (StartupEvent::Preference {
                enabled: false,
            })
            &&& outcome is FindTouchNode <==> event == (StartupEvent::Preference { enabled: true })
                || event is WatchEnded
            &&& outcome is Serve <==> (event matches StartupEvent::TouchNode { node } && node
                is Some)
            &&& outcome matches StartupOutcome::Serve { node: served } ==> (
            event matches StartupEvent::TouchNode { node: Some(found) } && served == found@)
        }),
{
}

/// An action of the start is what it says.
pub proof fn law_start_actions_are_what_they_say(action: StartupAction)
    ensures
        action is Exit <==> action@ is Exit,
        action is ReadPreference <==> action@ is ReadPreference,
        action is WatchPreference <==> action@ is WatchPreference,
        action is FindTouchNode <==> action@ is FindTouchNode,
        action matches StartupAction::Serve { node } ==> action@ == (StartupOutcome::Serve {
            node: node@,
        }),
        wants_to_wait(true) == false,
        wants_to_wait(false) == true,
{
}

} // verus!
