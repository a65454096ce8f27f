//! The wake service: when the panel is lit, and when it goes dark again.
use vstd::prelude::*;

use crate::bytes::ByteOrder;
use crate::fade::{fade_brightness, TARGET_BRIGHTNESS};
#[allow(unused_imports)]
use crate::fade::fade_effects;
#[allow(unused_imports)]
use crate::input::{input_action, INPUT_EVENT_SIZE};
use crate::input::{InputAction, InputEvent, InputRead, READ_RETRY_MS};
#[allow(unused_imports)]
use crate::nodes::{deep_sleep_effects, effects, write_text};
use crate::nodes::{force_deep_sleep, write_node, Command, Effect, Node, MY_AOD_WAKE_LOCK};

verus! {

/// How long the panel stays lit after a gesture, in nanoseconds.
pub const AOD_TIMEOUT_NS: u64 = 10_000_000_000;

/// What is known of the panel. It is shared between threads under a lock.
#[derive(Debug, Clone, Copy, PartialEq, Eq, Structural)]
pub struct ScreenState {
    /// Has the service lit the panel?
    pub on: bool,
    /// When the panel is to go dark, in nanoseconds of the monotonic clock.
    pub deadline: Option<u64>,
}

/// The whole state of the service.
#[derive(Debug, Clone, Copy, PartialEq, Eq, Structural)]
pub struct AodService {
    /// Does the preference allow gestures to light the panel?
    pub is_aod_enabled: bool,
    /// What is known of the panel.
    pub screen: ScreenState,
}

/// What the thread that lights the panel has observed.
#[derive(Debug, Clone, Copy, PartialEq, Eq, Structural)]
pub enum WakeupEvent {
    /// A wake gesture arrived.
    Gesture,
    /// The suspend state was read.
    SuspendState { state: i32 },
    /// The lock on the screen state was taken, and then the clock was read.
    Locked { now: u64 },
}

/// What the thread that lights the panel does next.
#[derive(Debug)]
pub enum WakeupAction {
    /// Nothing: the gesture is passed over.
    Ignore,
    /// Read the suspend state.
    ReadSuspendState,
    /// Take the lock on the screen state, then read the clock.
    LockScreen,
    /// Notify the timer, then run the commands, and only then let go of the
    /// lock.
    Armed { commands: Vec<Command> },
}

/// A wakeup action, as a mathematical value.
pub enum WakeupOutcome {
    Ignore,
    ReadSuspendState,
    LockScreen,
    Armed { effects: Seq<Effect> },
}

impl View for WakeupAction {
    type V = WakeupOutcome;

    open spec fn view(&self) -> WakeupOutcome {
        match *self {
            WakeupAction::Ignore => WakeupOutcome::Ignore,
            WakeupAction::ReadSuspendState => WakeupOutcome::ReadSuspendState,
            WakeupAction::LockScreen => WakeupOutcome::LockScreen,
            WakeupAction::Armed { commands } => WakeupOutcome::Armed {
                effects: effects(commands@),
            },
        }
    }
}

/// What the timer thread has observed. It holds the lock on the screen state
/// with each of these.
#[derive(Debug, Clone, Copy, PartialEq, Eq, Structural)]
pub enum TimerEvent {
    /// The clock was read.
    Look { now: u64 },
    /// A wait with a limit is over, because the limit was reached or because of
    /// a notice, and then the clock was read.
    Waited { timed_out: bool, now: u64 },
    /// The suspend state was read.
    SuspendState { state: i32 },
}

/// What the timer thread does next.
#[derive(Debug)]
pub enum TimerAction {
    /// Wait for a notice, until there is a deadline.
    WaitForNotice,
    /// Wait for a notice, but no longer than that.
    WaitFor { nanos: u64 },
    /// Read the clock and look again.
    Recheck,
    /// Let go of the lock and start over.
    Restart,
    /// Read the suspend state, with the lock held.
    ReadSuspendState,
    /// Run the commands, let go of the lock where they have not, and start over.
    Run { commands: Vec<Command> },
}

/// A timer action, as a mathematical value.
pub enum TimerOutcome {
    WaitForNotice,
    WaitFor { nanos: nat },
    Recheck,
    Restart,
    ReadSuspendState,
    Run { effects: Seq<Effect> },
}

impl View for TimerAction {
    type V = TimerOutcome;

    open spec fn view(&self) -> TimerOutcome {
        match *self {
            TimerAction::WaitForNotice => TimerOutcome::WaitForNotice,
            TimerAction::WaitFor { nanos } => TimerOutcome::WaitFor { nanos: nanos as nat },
            TimerAction::Recheck => TimerOutcome::Recheck,
            TimerAction::Restart => TimerOutcome::Restart,
            TimerAction::ReadSuspendState => TimerOutcome::ReadSuspendState,
            TimerAction::Run { commands } => TimerOutcome::Run { effects: effects(commands@) },
        }
    }
}

/// Lighting the panel: the wake lock is taken, then the backlight fades in.
pub open spec fn light_up() -> Seq<Effect> {
    seq![write_text(Node::WakeLock, MY_AOD_WAKE_LOCK)] + fade_effects(0, TARGET_BRIGHTNESS as int)
}

/// Dropping the wake lock that was taken to light the panel.
pub open spec fn drop_wake_lock() -> Seq<Effect> {
    seq![write_text(Node::WakeUnlock, MY_AOD_WAKE_LOCK)]
}

/// Going dark: the backlight fades out and the wake lock is dropped, both with
/// the screen state locked; then, unlocked, the device is sent to sleep.
pub open spec fn go_dark() -> Seq<Effect> {
    fade_effects(TARGET_BRIGHTNESS as int, 0) + drop_wake_lock() + seq![Effect::ReleaseScreen]
        + deep_sleep_effects()
}

/// The first step of a wakeup looks at the preference, the second at the
/// suspend state. The third moves the deadline, and lights the panel where it is
/// dark.
pub open spec fn wakeup_step(service: AodService, event: WakeupEvent) -> (
    AodService,
    WakeupOutcome,
) {
    match event {
        WakeupEvent::Gesture => if service.is_aod_enabled {
            (service, WakeupOutcome::ReadSuspendState)
        } else {
            (service, WakeupOutcome::Ignore)
        },
        WakeupEvent::SuspendState { state } => if state != 0 {
            (service, WakeupOutcome::LockScreen)
        } else {
            (service, WakeupOutcome::Ignore)
        },
        WakeupEvent::Locked { now } => (
            AodService {
                screen: ScreenState {
                    on: true,
                    deadline: Some((now + AOD_TIMEOUT_NS) as u64),
                },
                ..service
            },
            WakeupOutcome::Armed {
                effects: if service.screen.on {
                    Seq::empty()
                } else {
                    light_up()
                },
            },
        ),
    }
}

/// The deadline has passed: it is taken away, and where the panel is lit, the
/// suspend state decides how it goes dark.
pub open spec fn expire(service: AodService) -> (AodService, TimerOutcome) {
    (
        AodService { screen: ScreenState { deadline: None, ..service.screen }, ..service },
        if service.screen.on {
            TimerOutcome::ReadSuspendState
        } else {
            TimerOutcome::Restart
        },
    )
}

/// Has the deadline been taken away from a lit panel? Then the suspend state is
/// being read.
pub open spec fn is_expiring(screen: ScreenState) -> bool {
    screen.on && screen.deadline is None
}

/// One step of the timer. A panel that goes dark while the touch panel is not
/// suspended was already switched by someone else: only the wake lock is
/// dropped.
pub open spec fn timer_step(service: AodService, event: TimerEvent) -> (AodService, TimerOutcome) {
    match event {
        TimerEvent::Look { now } => match service.screen.deadline {
            None => (service, TimerOutcome::WaitForNotice),
            Some(deadline) => if now >= deadline {
                expire(service)
            } else {
                (service, TimerOutcome::WaitFor { nanos: (deadline - now) as nat })
            },
        },
        TimerEvent::Waited { timed_out, now } => match service.screen.deadline {
            Some(deadline) if timed_out && now >= deadline => expire(service),
            _ => (service, TimerOutcome::Recheck),
        },
        TimerEvent::SuspendState { state } => if is_expiring(service.screen) {
            (
                AodService { screen: ScreenState { on: false, ..service.screen }, ..service },
                TimerOutcome::Run {
                    effects: if state == 0 {
                        drop_wake_lock()
                    } else {
                        go_dark()
                    },
                },
            )
        } else {
            (service, TimerOutcome::Restart)
        },
    }
}

/// Two rows of commands, one after the other, do what they do one after the
/// other.
proof fn lemma_effects_append(a: Seq<Command>, b: Seq<Command>)
    ensures
        effects(a + b) == effects(a) + effects(b),
{
    assert(effects(a + b) =~= effects(a) + effects(b));
}

impl ScreenState {
    /// Is there no deadline to wait for?
    pub open spec fn has_no_deadline(self) -> bool {
        self.deadline is None
    }

    /// Is there no deadline to wait for?
    pub fn is_idle(&self) -> (idle: bool)
        ensures
            idle == (self.deadline is None),
            idle == self.has_no_deadline(),
    {
        self.deadline.is_none()
    }
}

impl AodService {
    /// The service as it starts.
    pub open spec fn at_start() -> AodService {
        AodService { is_aod_enabled: true, screen: ScreenState { on: false, deadline: None } }
    }

    /// The service, with the preference as it was read last.
    pub open spec fn with_preference(self, enabled: bool) -> AodService {
        AodService { is_aod_enabled: enabled, ..self }
    }

    /// A service that allows gestures, with a dark panel and no deadline.
    pub fn new() -> (service: AodService)
        ensures
            service == AodService::at_start(),
            service == (AodService {
                is_aod_enabled: true,
                screen: ScreenState { on: false, deadline: None },
            }),
    {
        AodService { is_aod_enabled: true, screen: ScreenState { on: false, deadline: None } }
    }

    /// One step of what a wake gesture sets off.
    pub fn trigger_wakeup(&mut self, event: WakeupEvent) -> (action: WakeupAction)
        requires
            event matches WakeupEvent::Locked { now } ==> now + AOD_TIMEOUT_NS <= u64::MAX,
        ensures
            (*final(self), action@) == wakeup_step(*old(self), event),
    {
        match event {
            WakeupEvent::Gesture => {
                if !self.is_aod_enabled {
                    return WakeupAction::Ignore;
                }
                WakeupAction::ReadSuspendState
            },
            WakeupEvent::SuspendState { state } => {
                if state == 0 {
                    return WakeupAction::Ignore;
                }
                WakeupAction::LockScreen
            },
            WakeupEvent::Locked { now } => {
                self.screen.deadline = Some(now + AOD_TIMEOUT_NS);
                let mut commands: Vec<Command> = Vec::new();
                if !self.screen.on {
                    self.screen.on = true;
                    commands.push(write_node(Node::WakeLock, MY_AOD_WAKE_LOCK));
                    let ghost first = commands@;
                    let mut fade = fade_brightness(0, TARGET_BRIGHTNESS);
                    let ghost second = fade@;
                    commands.append(&mut fade);
                    proof {
                        lemma_effects_append(first, second);
                        assert(effects(first) =~= seq![
                            write_text(Node::WakeLock, MY_AOD_WAKE_LOCK),
                        ]);
                    }
                } else {
                    assert(effects(commands@) =~= Seq::empty());
                }
                WakeupAction::Armed { commands }
            },
        }
    }

    /// The deadline has passed.
    fn expire_deadline(&mut self) -> (action: TimerAction)
        ensures
            (*final(self), action@) == expire(*old(self)),
    {
        self.screen.deadline = None;
        if self.screen.on {
            TimerAction::ReadSuspendState
        } else {
            TimerAction::Restart
        }
    }

    /// One step of the timer that makes the panel go dark.
    pub fn handle_timeout(&mut self, event: TimerEvent) -> (action: TimerAction)
        ensures
            (*final(self), action@) == timer_step(*old(self), event),
    {
        match event {
            TimerEvent::Look { now } => match self.screen.deadline {
                None => TimerAction::WaitForNotice,
                Some(deadline) => if now >= deadline {
                    self.expire_deadline()
                } else {
                    TimerAction::WaitFor { nanos: deadline - now }
                },
            },
            TimerEvent::Waited { timed_out, now } => match self.screen.deadline {
                None => TimerAction::Recheck,
                Some(deadline) => if timed_out && now >= deadline {
                    self.expire_deadline()
                } else {
                    TimerAction::Recheck
                },
            },
            TimerEvent::SuspendState { state } => {
                if !self.screen.on || self.screen.deadline.is_some() {
                    return TimerAction::Restart;
                }
                self.screen.on = false;
                TimerAction::Run { commands: darken(state) }
            },
        }
    }

    /// Follows the input device: a device that cannot be opened is given up, a
    /// failed read is tried again after a pause, a wake gesture lights the panel
    /// and every other event is passed over. `order` is the byte order of the
    /// machine.
    pub fn monitor_input(order: ByteOrder, read: InputRead) -> (action: InputAction)
        requires
            read matches InputRead::Record(record) ==> record@.len() == INPUT_EVENT_SIZE,
        ensures
            action == input_action(order, read),
    {
        match read {
            InputRead::OpenFailed => InputAction::Stop,
            InputRead::Opened => InputAction::Read,
            InputRead::ReadFailed => InputAction::PauseThenRead { millis: READ_RETRY_MS },
            InputRead::Record(record) => {
                let event = InputEvent::from_record(order, record.as_slice());
                if event.is_wake_gesture() {
                    InputAction::WakeThenRead
                } else {
                    InputAction::Read
                }
            },
        }
    }

    /// Takes over the preference as it was read last. The answer is always to go
    /// on watching it.
    pub fn run_config_watcher(&mut self, enabled: bool) -> (keep: bool)
        ensures
            *final(self) == (AodService { is_aod_enabled: enabled, ..*old(self) }),
            *final(self) == old(self).with_preference(enabled),
            keep,
    {
        self.is_aod_enabled = enabled;
        true
    }
}

/// How the panel goes dark, by the suspend state.
fn darken(state: i32) -> (commands: Vec<Command>)
    ensures
        effects(commands@) == if state == 0 {
            drop_wake_lock()
        } else {
            go_dark()
        },
{
    if state == 0 {
        let mut commands: Vec<Command> = Vec::new();
        commands.push(write_node(Node::WakeUnlock, MY_AOD_WAKE_LOCK));
        assert(effects(commands@) =~= drop_wake_lock());
        return commands;
    }
    let mut commands: Vec<Command> = fade_brightness(TARGET_BRIGHTNESS, 0);
    let ghost faded = effects(commands@);
    commands.push(write_node(Node::WakeUnlock, MY_AOD_WAKE_LOCK));
    commands.push(Command::ReleaseScreen);
    assert(effects(commands@) =~= faded + drop_wake_lock() + seq![Effect::ReleaseScreen]);
    let ghost first = commands@;
    let mut sleep: Vec<Command> = force_deep_sleep();
    let ghost second = sleep@;
    commands.append(&mut sleep);
    proof {
        lemma_effects_append(first, second);
    }
    commands
}

} // verus!
