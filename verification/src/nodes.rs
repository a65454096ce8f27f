//! The kernel's text nodes, and what the service does to them.
use vstd::prelude::*;
use vstd::slice::slice_to_vec;
#[allow(unused_imports)]
use vstd::string::StringSliceAdditionalSpecFns;

verus! {

/// Holds the panel's backlight level.
pub const BACKLIGHT_NODE: &'static str = "/sys/class/backlight/panel0-backlight/brightness";

/// A name written here is taken as a wake lock.
pub const WAKE_LOCK_NODE: &'static str = "/sys/power/wake_lock";

/// A name written here is dropped from the wake locks.
pub const WAKE_UNLOCK_NODE: &'static str = "/sys/power/wake_unlock";

/// Reads as zero while the touch panel is not suspended.
pub const SUSPEND_STATE_NODE: &'static str = "/sys/devices/virtual/touch/touch_dev/suspend_state";

/// The wake lock that this service takes while it keeps the panel lit.
pub const MY_AOD_WAKE_LOCK: &'static str = "vendor.hyperfusion.aod.display-service";

/// A wake lock that is dropped to let the device sleep.
pub const NO_SUSPEND_LOCK: &'static str = "PowerManagerService.noSuspend";

/// The other wake lock that is dropped to let the device sleep.
pub const SENSORS_LOCK: &'static str = "SensorsHAL_WAKEUP";

/// A node that the service writes.
#[derive(Debug, Clone, Copy, PartialEq, Eq, Structural)]
pub enum Node {
    Backlight,
    WakeLock,
    WakeUnlock,
}

impl Node {
    /// Where the node stands in the file system.
    pub open spec fn spec_path(self) -> Seq<char> {
        match self {
            Node::Backlight => BACKLIGHT_NODE@,
            Node::WakeLock => WAKE_LOCK_NODE@,
            Node::WakeUnlock => WAKE_UNLOCK_NODE@,
        }
    }

    /// Where the node stands in the file system.
    pub fn path(&self) -> (path: &'static str)
        ensures
            path@ == self.spec_path(),
    {
        match self {
            Node::Backlight => BACKLIGHT_NODE,
            Node::WakeLock => WAKE_LOCK_NODE,
            Node::WakeUnlock => WAKE_UNLOCK_NODE,
        }
    }
}

/// One thing to do, in the order given.
#[derive(Debug)]
pub enum Command {
    /// Replace the content of `node` with `data`.
    Write { node: Node, data: Vec<u8> },
    /// Wait for that many microseconds.
    Pause { micros: u64 },
    /// Let go of the lock on the screen state.
    ReleaseScreen,
}

/// What a command does, as a mathematical value.
pub enum Effect {
    Write { node: Node, data: Seq<u8> },
    Pause { micros: nat },
    ReleaseScreen,
}

impl View for Command {
    type V = Effect;

    open spec fn view(&self) -> Effect {
        match *self {
            Command::Write { node, data } => Effect::Write { node, data: data@ },
            Command::Pause { micros } => Effect::Pause { micros: micros as nat },
            Command::ReleaseScreen => Effect::ReleaseScreen,
        }
    }
}

/// What a row of commands does.
pub open spec fn effects(commands: Seq<Command>) -> Seq<Effect> {
    commands.map_values(|c: Command| c@)
}

/// Writing the text `text` to `node`.
pub open spec fn write_text(node: Node, text: &str) -> Effect {
    Effect::Write { node, data: text.spec_bytes() }
}

/// The command that writes the text `val` to `node`.
pub fn write_node(node: Node, val: &str) -> (command: Command)
    ensures
        command@ == write_text(node, val),
{
    Command::Write { node, data: slice_to_vec(val.as_bytes()) }
}

/// The two wake locks that keep the device from sleeping are dropped, one after
/// the other.
pub open spec fn deep_sleep_effects() -> Seq<Effect> {
    seq![
        write_text(Node::WakeUnlock, NO_SUSPEND_LOCK),
        write_text(Node::WakeUnlock, SENSORS_LOCK),
    ]
}

/// What lets the device fall into deep sleep.
pub fn force_deep_sleep() -> (commands: Vec<Command>)
    ensures
        effects(commands@) == deep_sleep_effects(),
{
    let mut commands: Vec<Command> = Vec::new();
    commands.push(write_node(Node::WakeUnlock, NO_SUSPEND_LOCK));
    commands.push(write_node(Node::WakeUnlock, SENSORS_LOCK));
    assert(effects(commands@) =~= deep_sleep_effects());
    commands
}

/// A row of commands does one thing for each command, in order: it writes the bytes
/// of the command to its node, waits for as long as the command says, or lets go of
/// the lock.
pub proof fn law_commands_do_what_they_say(commands: Seq<Command>, i: int)
    requires
        0 <= i < commands.len(),
    ensures
        effects(commands).len() == commands.len(),
        match commands[i] {
            Command::Write { node, data } => effects(commands)[i] == (Effect::Write {
                node,
                data: data@,
            }),
            Command::Pause { micros } => effects(commands)[i] == (Effect::Pause {
                micros: micros as nat,
            }),
            Command::ReleaseScreen => effects(commands)[i] is ReleaseScreen,
        },
{
}

/// A text is written byte by byte, as it is, to the node that was named.
pub proof fn law_text_is_written_as_it_is(node: Node, text: &str)
    ensures
        write_text(node, text) == (Effect::Write { node, data: text.spec_bytes() }),
{
}

/// Each node stands at a path of its own.
pub proof fn law_node_paths(node: Node)
    ensures
        node is Backlight ==> node.spec_path()
            == "/sys/class/backlight/panel0-backlight/brightness"@,
        node is WakeLock ==> node.spec_path() == "/sys/power/wake_lock"@,
        node is WakeUnlock ==> node.spec_path() == "/sys/power/wake_unlock"@,
{
}

/// Sending the device to sleep is two writes, each of the name of a wake lock to the
/// node that drops it.
pub proof fn law_deep_sleep_drops_two_locks()
    ensures
        deep_sleep_effects().len() == 2,
        deep_sleep_effects()[0] == (Effect::Write {
            node: Node::WakeUnlock,
            data: "PowerManagerService.noSuspend".spec_bytes(),
        }),
        deep_sleep_effects()[1] == (Effect::Write {
            node: Node::WakeUnlock,
            data: "SensorsHAL_WAKEUP".spec_bytes(),
        }),
{
}

} // verus!
