//! What holds of the wake service as a whole, and what restoring leaves of a backlight.
//!
//! The service only hands out effects. To say what they amount to, this module
//! follows a board: the level that was written last, and the wake locks that are
//! held.
use vstd::prelude::*;
#[allow(unused_imports)]
use vstd::string::StringSliceAdditionalSpecFns;

#[allow(unused_imports)]
use crate::decimal::{digits_value, int_digits, lemma_nat_digits_value, nat_digits};
#[allow(unused_imports)]
use crate::dpms::{number_in, restore_effects};
#[allow(unused_imports)]
use crate::fade::{
    fade_effects,
    fade_levels,
    law_fade_writes_and_waits,
    level_effects,
    TARGET_BRIGHTNESS,
};
#[allow(unused_imports)]
use crate::lux::{brightness_for, law_brightness_in_range};
#[allow(unused_imports)]
use crate::nodes::{
    deep_sleep_effects,
    effects,
    write_text,
    Effect,
    Node,
    MY_AOD_WAKE_LOCK,
    NO_SUSPEND_LOCK,
    SENSORS_LOCK,
};
#[allow(unused_imports)]
use crate::service::{
    drop_wake_lock,
    go_dark,
    is_expiring,
    light_up,
    timer_step,
    wakeup_step,
    AodService,
    ScreenState,
    TimerAction,
    TimerEvent,
    TimerOutcome,
    WakeupAction,
    WakeupEvent,
    WakeupOutcome,
    AOD_TIMEOUT_NS,
};

verus! {

/// The nodes that the service writes, as far as the writes can be seen.
#[verifier::ext_equal]
pub struct Board {
    /// What was written to the backlight last.
    pub level: Seq<u8>,
    /// The names of the wake locks that are held.
    pub locks: Set<Seq<u8>>,
}

/// What one effect does to the board.
pub open spec fn apply(board: Board, effect: Effect) -> Board {
    match effect {
        Effect::Write { node, data } => match node {
            Node::Backlight => Board { level: data, ..board },
            Node::WakeLock => Board { locks: board.locks.insert(data), ..board },
            Node::WakeUnlock => Board { locks: board.locks.remove(data), ..board },
        },
        _ => board,
    }
}

/// What a row of effects does to the board.
pub open spec fn apply_all(board: Board, effects: Seq<Effect>) -> Board
    decreases effects.len(),
{
    if effects.len() == 0 {
        board
    } else {
        apply(apply_all(board, effects.drop_last()), effects.last())
    }
}

/// The name of the wake lock that the service takes.
pub open spec fn my_lock() -> Seq<u8> {
    MY_AOD_WAKE_LOCK.spec_bytes()
}

/// Two rows of effects, one after the other.
proof fn lemma_apply_append(board: Board, a: Seq<Effect>, b: Seq<Effect>)
    ensures
        apply_all(board, a + b) == apply_all(apply_all(board, a), b),
    decreases b.len(),
{
    if b.len() == 0 {
        assert(a + b =~= a);
    } else {
        assert((a + b).drop_last() =~= a + b.drop_last());
        lemma_apply_append(board, a, b.drop_last());
    }
}

/// One effect.
proof fn lemma_apply_one(board: Board, effect: Effect)
    ensures
        apply_all(board, seq![effect]) == apply(board, effect),
{
    assert(seq![effect].drop_last() =~= Seq::<Effect>::empty());
    assert(apply_all(board, Seq::<Effect>::empty()) == board);
}

/// Setting levels changes the level only.
proof fn lemma_apply_levels(board: Board, levels: Seq<int>)
    ensures
        apply_all(board, level_effects(levels)) == (Board {
            level: if levels.len() == 0 {
                board.level
            } else {
                int_digits(levels.last())
            },
            ..board
        }),
    decreases levels.len(),
{
    if levels.len() > 0 {
        lemma_apply_levels(board, levels.drop_last());
        let all = level_effects(levels);
        assert(all.drop_last().drop_last() =~= level_effects(levels.drop_last()));
        reveal_with_fuel(apply_all, 3);
    }
}

/// Lighting a dark panel leaves it at its target level, with the wake lock held
/// and no other lock touched.
pub proof fn law_light_up(board: Board)
    ensures
        apply_all(board, light_up()) == (Board {
            level: int_digits(TARGET_BRIGHTNESS as int),
            locks: board.locks.insert(my_lock()),
        }),
{
    let lock = Effect::Write { node: Node::WakeLock, data: my_lock() };
    lemma_apply_append(board, seq![lock], fade_effects(0, TARGET_BRIGHTNESS as int));
    lemma_apply_one(board, lock);
    lemma_apply_levels(apply(board, lock), fade_levels(0, TARGET_BRIGHTNESS as int));
}

/// Where someone else has switched the panel, its level stays as it is, and the
/// wake lock is dropped.
pub proof fn law_drop_wake_lock(board: Board)
    ensures
        apply_all(board, drop_wake_lock()) == (Board {
            locks: board.locks.remove(my_lock()),
            ..board
        }),
{
    lemma_apply_one(board, Effect::Write { node: Node::WakeUnlock, data: my_lock() });
}

/// Sending the device to sleep drops two locks.
proof fn lemma_apply_deep_sleep(board: Board)
    ensures
        apply_all(board, deep_sleep_effects()) == (Board {
            locks: board.locks.remove(NO_SUSPEND_LOCK.spec_bytes()).remove(
                SENSORS_LOCK.spec_bytes(),
            ),
            ..board
        }),
{
    let no_suspend = write_text(Node::WakeUnlock, NO_SUSPEND_LOCK);
    let sensors = write_text(Node::WakeUnlock, SENSORS_LOCK);
    assert(deep_sleep_effects() =~= seq![no_suspend] + seq![sensors]);
    lemma_apply_append(board, seq![no_suspend], seq![sensors]);
    lemma_apply_one(board, no_suspend);
    lemma_apply_one(apply(board, no_suspend), sensors);
}

/// Going dark leaves the level at zero, with the wake lock dropped and with it
/// the two locks that keep the device awake.
pub proof fn law_go_dark(board: Board)
    ensures
        apply_all(board, go_dark()) == (Board {
            level: int_digits(0),
            locks: board.locks.remove(my_lock()).remove(NO_SUSPEND_LOCK.spec_bytes()).remove(
                SENSORS_LOCK.spec_bytes(),
            ),
        }),
{
    let fade = fade_effects(TARGET_BRIGHTNESS as int, 0);
    let release = seq![Effect::ReleaseScreen];
    let b1 = apply_all(board, fade);
    let b2 = apply_all(b1, drop_wake_lock());
    lemma_apply_levels(board, fade_levels(TARGET_BRIGHTNESS as int, 0));
    law_drop_wake_lock(b1);
    lemma_apply_one(b2, Effect::ReleaseScreen);
    lemma_apply_append(board, fade, drop_wake_lock());
    lemma_apply_append(board, fade + drop_wake_lock(), release);
    lemma_apply_append(board, fade + drop_wake_lock() + release, deep_sleep_effects());
    lemma_apply_deep_sleep(b2);
}

/// The three wake locks have three names.
proof fn lemma_lock_names_differ()
    ensures
        NO_SUSPEND_LOCK.spec_bytes() != my_lock(),
        SENSORS_LOCK.spec_bytes() != my_lock(),
{
    reveal_strlit("vendor.hyperfusion.aod.display-service");
    reveal_strlit("PowerManagerService.noSuspend");
    reveal_strlit("SensorsHAL_WAKEUP");
    vstd::utf8::is_ascii_chars_encode_utf8(MY_AOD_WAKE_LOCK@);
    vstd::utf8::is_ascii_chars_encode_utf8(NO_SUSPEND_LOCK@);
    vstd::utf8::is_ascii_chars_encode_utf8(SENSORS_LOCK@);
}

/// Setting levels never lets go of the lock on the screen state.
proof fn lemma_levels_hold_lock(levels: Seq<int>)
    ensures
        forall|i: int|
            0 <= i < level_effects(levels).len() ==> !(#[trigger] level_effects(levels)[i]
                is ReleaseScreen),
    decreases levels.len(),
{
    if levels.len() > 0 {
        let front = level_effects(levels.drop_last());
        lemma_levels_hold_lock(levels.drop_last());
        assert forall|i: int| 0 <= i < level_effects(levels).len() implies !(
        #[trigger] level_effects(levels)[i] is ReleaseScreen) by {
            if i < front.len() {
                assert(level_effects(levels)[i] == front[i]);
            }
        }
    }
}

/// Lighting the panel, and only dropping its wake lock, happen under the lock on the
/// screen state from beginning to end. Going dark fades out and drops the wake lock
/// under that lock, lets go of it once, and only then drops the two locks that keep
/// the device awake.
pub proof fn law_lock_is_free_before_deep_sleep()
    ensures
        forall|i: int| 0 <= i < light_up().len() ==> !(#[trigger] light_up()[i] is ReleaseScreen),
        forall|i: int|
            0 <= i < drop_wake_lock().len() ==> !(#[trigger] drop_wake_lock()[i] is ReleaseScreen),
        ({
            let fade = fade_effects(TARGET_BRIGHTNESS as int, 0);
            let n = fade.len() as int;
            &&& go_dark().len() == n + 4
            &&& go_dark().take(n) == fade
            &&& forall|i: int| 0 <= i < n + 1 ==> !(#[trigger] go_dark()[i] is ReleaseScreen)
            &&& go_dark()[n] == write_text(Node::WakeUnlock, MY_AOD_WAKE_LOCK)
            &&& go_dark()[n + 1] is ReleaseScreen
            &&& go_dark()[n + 2] == write_text(Node::WakeUnlock, NO_SUSPEND_LOCK)
            &&& go_dark()[n + 3] == write_text(Node::WakeUnlock, SENSORS_LOCK)
        }),
{
    let fade_in = fade_effects(0, TARGET_BRIGHTNESS as int);
    let fade_out = fade_effects(TARGET_BRIGHTNESS as int, 0);
    lemma_levels_hold_lock(fade_levels(0, TARGET_BRIGHTNESS as int));
    lemma_levels_hold_lock(fade_levels(TARGET_BRIGHTNESS as int, 0));
    assert forall|i: int| 0 <= i < light_up().len() implies !(#[trigger] light_up()[i]
        is ReleaseScreen) by {
        if i > 0 {
            assert(light_up()[i] == fade_in[i - 1]);
        }
    }
    assert forall|i: int| 0 <= i < fade_out.len() + 1 implies !(#[trigger] go_dark()[i]
        is ReleaseScreen) by {
        if i < fade_out.len() {
            assert(go_dark()[i] == fade_out[i]);
        }
    }
    assert(go_dark().take(fade_out.len() as int) =~= fade_out);
}

/// Sending the device to sleep touches neither the level nor the service's own wake
/// lock. So it makes no difference whether another thread lights the panel, or drops
/// the wake lock, before it or after it.
pub proof fn law_deep_sleep_keeps_out_of_the_way(board: Board)
    ensures
        apply_all(board, deep_sleep_effects()).level == board.level,
        apply_all(board, deep_sleep_effects()).locks.contains(my_lock()) <==> board.locks.contains(
            my_lock(),
        ),
        apply_all(apply_all(board, deep_sleep_effects()), light_up()) == apply_all(
            apply_all(board, light_up()),
            deep_sleep_effects(),
        ),
        apply_all(apply_all(board, deep_sleep_effects()), drop_wake_lock()) == apply_all(
            apply_all(board, drop_wake_lock()),
            deep_sleep_effects(),
        ),
{
    lemma_lock_names_differ();
    let lit = apply_all(board, light_up());
    let dropped = apply_all(board, drop_wake_lock());
    let asleep = apply_all(board, deep_sleep_effects());
    lemma_apply_deep_sleep(board);
    lemma_apply_deep_sleep(lit);
    lemma_apply_deep_sleep(dropped);
    law_light_up(board);
    law_light_up(asleep);
    law_drop_wake_lock(board);
    law_drop_wake_lock(asleep);
    assert(apply_all(asleep, light_up()) =~= apply_all(lit, deep_sleep_effects()));
    assert(apply_all(asleep, drop_wake_lock()) =~= apply_all(dropped, deep_sleep_effects()));
}

/// A whole gesture: the preference is looked at first, then the suspend state, then
/// the lock is taken and the clock read; a step that passes the gesture over is the
/// last. `seen` is the service as it was when the gesture arrived, `locked` as it is
/// once the lock is taken.
pub open spec fn whole_gesture(seen: AodService, state: i32, locked: AodService, now: u64) -> (
    AodService,
    WakeupOutcome,
) {
    let (gated, first) = wakeup_step(seen, WakeupEvent::Gesture);
    if !(first is ReadSuspendState) {
        (locked, first)
    } else {
        let second = wakeup_step(gated, WakeupEvent::SuspendState { state }).1;
        if !(second is LockScreen) {
            (locked, second)
        } else {
            wakeup_step(locked, WakeupEvent::Locked { now })
        }
    }
}

/// A gesture is passed over, with the service left as it is and nothing written,
/// exactly when the preference is off or the touch panel is not suspended. Every
/// other gesture moves the deadline, and lights the panel where it is dark.
pub proof fn law_whole_gesture(seen: AodService, state: i32, locked: AodService, now: u64)
    requires
        now + AOD_TIMEOUT_NS <= u64::MAX,
    ensures
        ({
            let (after, outcome) = whole_gesture(seen, state, locked, now);
            &&& outcome is Ignore || outcome is Armed
            &&& outcome is Ignore <==> !seen.is_aod_enabled || state == 0
            &&& outcome is Ignore ==> after == locked
            &&& outcome matches WakeupOutcome::Armed { effects } ==> {
                &&& (after, outcome) == wakeup_step(locked, WakeupEvent::Locked { now })
                &&& after == (AodService {
                    screen: ScreenState {
                        on: true,
                        deadline: Some((now + AOD_TIMEOUT_NS) as u64),
                    },
                    ..locked
                })
                &&& effects == if locked.screen.on {
                    Seq::empty()
                } else {
                    light_up()
                }
            }
        }),
{
}

/// What a whole gesture, undisturbed by other threads, leaves of the service and of
/// the board: all as it was where it is passed over, and otherwise what its last
/// step leaves.
pub proof fn law_whole_gesture_on_board(world: World, state: i32, now: u64)
    ensures
        ({
            let (service, outcome) = whole_gesture(world.service, state, world.service, now);
            let board = match outcome {
                WakeupOutcome::Armed { effects } => apply_all(world.board, effects),
                _ => world.board,
            };
            (World { service, board, late: world.late }) == if world.service.is_aod_enabled
                && state != 0 {
                world_step(world, Step::Wakeup(WakeupEvent::Locked { now }))
            } else {
                world
            }
        }),
{
    lemma_parts();
    assert(world.late + Seq::<Effect>::empty() =~= world.late);
}

/// How many effects come before the lock on the screen state is let go.
pub open spec fn release_at(effects: Seq<Effect>) -> nat
    decreases effects.len(),
{
    if effects.len() == 0 || effects[0] is ReleaseScreen {
        0
    } else {
        1 + release_at(effects.drop_first())
    }
}

/// The effects that happen under the lock on the screen state.
pub open spec fn held_part(effects: Seq<Effect>) -> Seq<Effect> {
    effects.take(release_at(effects) as int)
}

/// The effects that happen after the lock is let go.
pub open spec fn late_part(effects: Seq<Effect>) -> Seq<Effect> {
    if release_at(effects) < effects.len() {
        effects.skip(release_at(effects) as int + 1)
    } else {
        Seq::empty()
    }
}

/// The service, the board as it has been left, and the effects that are still to
/// come from a thread that no longer holds the lock.
pub struct World {
    pub service: AodService,
    pub board: Board,
    pub late: Seq<Effect>,
}

/// A step of one of the threads. What a thread does under the lock in answer to one
/// event is one step, and each effect after it has let go of the lock is a step by
/// itself: other threads may take steps of theirs before it.
pub enum Step {
    /// The thread that lights the panel.
    Wakeup(WakeupEvent),
    /// The timer.
    Timer(TimerEvent),
    /// The preference was read.
    Config { enabled: bool },
    /// The next of the effects that are still to come.
    Late,
}

/// What a step makes of the service.
pub open spec fn step_service(service: AodService, step: Step) -> AodService {
    match step {
        Step::Wakeup(event) => wakeup_step(service, event).0,
        Step::Timer(event) => timer_step(service, event).0,
        Step::Config { enabled } => AodService { is_aod_enabled: enabled, ..service },
        Step::Late => service,
    }
}

/// The effects that a step of the service hands out.
pub open spec fn step_effects(service: AodService, step: Step) -> Seq<Effect> {
    match step {
        Step::Wakeup(event) => match wakeup_step(service, event).1 {
            WakeupOutcome::Armed { effects } => effects,
            _ => Seq::empty(),
        },
        Step::Timer(event) => match timer_step(service, event).1 {
            TimerOutcome::Run { effects } => effects,
            _ => Seq::empty(),
        },
        _ => Seq::empty(),
    }
}

/// The effects that happen in a step.
pub open spec fn step_writes(world: World, step: Step) -> Seq<Effect> {
    if step is Late {
        world.late.take(if world.late.len() > 0 {
            1
        } else {
            0
        })
    } else {
        held_part(step_effects(world.service, step))
    }
}

/// What a step does.
pub open spec fn world_step(world: World, step: Step) -> World {
    World {
        service: step_service(world.service, step),
        board: apply_all(world.board, step_writes(world, step)),
        late: if step is Late {
            world.late.skip(step_writes(world, step).len() as int)
        } else {
            world.late + late_part(step_effects(world.service, step))
        },
    }
}

/// Are these effects of sending the device to sleep, and nothing else?
pub open spec fn only_deep_sleep(effects: Seq<Effect>) -> bool {
    forall|i: int|
        0 <= i < effects.len() ==> deep_sleep_effects().contains(#[trigger] effects[i])
}

/// A place that holds the release, or is the end, with no release before it, is
/// where the lock is let go.
proof fn lemma_release_is(effects: Seq<Effect>, k: int)
    requires
        0 <= k <= effects.len(),
        forall|i: int| 0 <= i < k ==> !(#[trigger] effects[i] is ReleaseScreen),
        k < effects.len() ==> effects[k] is ReleaseScreen,
    ensures
        release_at(effects) == k,
    decreases effects.len(),
{
    if k > 0 {
        assert(!(effects[0] is ReleaseScreen));
        let rest = effects.drop_first();
        assert forall|i: int| 0 <= i < k - 1 implies !(#[trigger] rest[i] is ReleaseScreen) by {
            assert(rest[i] == effects[i + 1]);
        }
        lemma_release_is(rest, k - 1);
    }
}

/// Which effects happen under the lock, and which after it.
proof fn lemma_parts()
    ensures
        held_part(Seq::<Effect>::empty()) == Seq::<Effect>::empty(),
        late_part(Seq::<Effect>::empty()) == Seq::<Effect>::empty(),
        held_part(light_up()) == light_up(),
        late_part(light_up()) == Seq::<Effect>::empty(),
        held_part(drop_wake_lock()) == drop_wake_lock(),
        late_part(drop_wake_lock()) == Seq::<Effect>::empty(),
        held_part(go_dark()) == fade_effects(TARGET_BRIGHTNESS as int, 0) + drop_wake_lock(),
        late_part(go_dark()) == deep_sleep_effects(),
{
    law_lock_is_free_before_deep_sleep();
    let n = fade_effects(TARGET_BRIGHTNESS as int, 0).len() as int;
    lemma_release_is(light_up(), light_up().len() as int);
    lemma_release_is(drop_wake_lock(), drop_wake_lock().len() as int);
    lemma_release_is(go_dark(), n + 1);
    assert(held_part(Seq::<Effect>::empty()) =~= Seq::<Effect>::empty());
    assert(held_part(light_up()) =~= light_up());
    assert(held_part(drop_wake_lock()) =~= drop_wake_lock());
    assert(held_part(go_dark()) =~= fade_effects(TARGET_BRIGHTNESS as int, 0)
        + drop_wake_lock());
    assert(late_part(go_dark()) =~= deep_sleep_effects());
}

/// The part of going dark that happens under the lock.
proof fn lemma_apply_held_dark(board: Board)
    ensures
        apply_all(board, held_part(go_dark())) == (Board {
            level: int_digits(0),
            locks: board.locks.remove(my_lock()),
        }),
{
    let fade = fade_effects(TARGET_BRIGHTNESS as int, 0);
    lemma_parts();
    lemma_apply_append(board, fade, drop_wake_lock());
    lemma_apply_levels(board, fade_levels(TARGET_BRIGHTNESS as int, 0));
    law_drop_wake_lock(apply_all(board, fade));
}

/// Only effects of sending the device to sleep are ever left over, and the next of
/// them leaves the level and the own wake lock alone.
proof fn lemma_late(world: World, step: Step)
    requires
        only_deep_sleep(world.late),
    ensures
        only_deep_sleep(world_step(world, step).late),
        step is Late ==> {
            &&& world_step(world, step).board.level == world.board.level
            &&& world_step(world, step).board.locks.contains(my_lock())
                <==> world.board.locks.contains(my_lock())
            &&& lock_moves(step_writes(world, step)) == Seq::<bool>::empty()
        },
{
    lemma_parts();
    lemma_lock_names_differ();
    let after = world_step(world, step).late;
    let more = late_part(step_effects(world.service, step));
    if step is Late {
        let writes = step_writes(world, step);
        if world.late.len() > 0 {
            let effect = world.late[0];
            assert(deep_sleep_effects().contains(effect));
            assert(writes =~= seq![effect]);
            lemma_apply_one(world.board, effect);
            assert(writes.drop_last() =~= Seq::<Effect>::empty());
            assert(lock_moves(writes.drop_last()) == Seq::<bool>::empty());
        } else {
            assert(writes =~= Seq::<Effect>::empty());
        }
        assert forall|i: int| 0 <= i < after.len() implies deep_sleep_effects().contains(
            #[trigger] after[i],
        ) by {
            assert(after[i] == world.late[i + writes.len()]);
        }
    } else {
        assert forall|i: int| 0 <= i < after.len() implies deep_sleep_effects().contains(
            #[trigger] after[i],
        ) by {
            if i < world.late.len() {
                assert(after[i] == world.late[i]);
            } else {
                assert(after[i] == more[i - world.late.len()]);
                assert(more == deep_sleep_effects());
            }
        }
    }
}

/// What a row of steps does.
pub open spec fn world_after(world: World, steps: Seq<Step>) -> World
    decreases steps.len(),
{
    if steps.len() == 0 {
        world
    } else {
        world_step(world_after(world, steps.drop_last()), steps.last())
    }
}

/// The wake lock is held exactly while the panel is lit, only a lit panel has a
/// deadline, and what is still to come only sends the device to sleep.
pub open spec fn is_consistent(world: World) -> bool {
    &&& only_deep_sleep(world.late)
    &&& world.board.locks.contains(my_lock()) <==> world.service.screen.on
    &&& world.service.screen.deadline is Some ==> world.service.screen.on
}

/// No step of any thread parts the wake lock from the panel.
pub proof fn law_step_keeps_wake_lock_in_step(world: World, step: Step)
    requires
        is_consistent(world),
    ensures
        is_consistent(world_step(world, step)),
{
    lemma_parts();
    lemma_late(world, step);
    law_light_up(world.board);
    law_drop_wake_lock(world.board);
    lemma_apply_held_dark(world.board);
    assert(apply_all(world.board, Seq::<Effect>::empty()) == world.board);
}

/// From the start on, for every row of steps and so for every order in which the
/// threads take them, the wake lock is held exactly while the panel is lit: none is
/// leaked, and none is dropped early. That includes the case that the panel is lit
/// again while the timer, which has let go of the lock, still sends the device to
/// sleep.
pub proof fn law_wake_lock_follows_panel(world: World, steps: Seq<Step>)
    requires
        !world.service.screen.on,
        world.service.screen.deadline is None,
        !world.board.locks.contains(my_lock()),
        world.late.len() == 0,
    ensures
        is_consistent(world_after(world, steps)),
    decreases steps.len(),
{
    if steps.len() > 0 {
        law_wake_lock_follows_panel(world, steps.drop_last());
        law_step_keeps_wake_lock_in_step(world_after(world, steps.drop_last()), steps.last());
    }
}

/// Between two turns at the lock, the panel is lit exactly while it has a
/// deadline.
pub open spec fn is_settled(screen: ScreenState) -> bool {
    screen.on <==> screen.deadline is Some
}

/// A wakeup never leaves the panel lit without a deadline.
pub proof fn law_wakeup_settles(service: AodService, event: WakeupEvent)
    requires
        is_settled(service.screen),
    ensures
        is_settled(wakeup_step(service, event).0.screen),
{
}

/// The timer takes the deadline from a lit panel only to read the suspend state
/// next, with the lock still held; and whatever that state is, the panel is dark
/// when the lock is let go.
pub proof fn law_timer_settles(service: AodService, event: TimerEvent, state: i32)
    requires
        is_settled(service.screen),
    ensures
        ({
            let (next, outcome) = timer_step(service, event);
            let (last, end) = timer_step(next, TimerEvent::SuspendState { state });
            if outcome is ReadSuspendState {
                &&& is_expiring(next.screen)
                &&& is_settled(last.screen)
                &&& !last.screen.on
                &&& end is Run
            } else {
                is_settled(next.screen)
            }
        }),
{
}

/// What one thread does between taking the lock and letting go of it, or without
/// the lock.
pub enum Turn {
    /// A step of the thread that lights the panel.
    Wakeup(WakeupEvent),
    /// A step of the timer, and where it asks for the suspend state, the step that
    /// takes `state`.
    Timer { event: TimerEvent, state: i32 },
    /// The preference was read.
    Config { enabled: bool },
}

/// What a turn makes of the service.
pub open spec fn turn_step(service: AodService, turn: Turn) -> AodService {
    match turn {
        Turn::Wakeup(event) => wakeup_step(service, event).0,
        Turn::Timer { event, state } => {
            let (next, outcome) = timer_step(service, event);
            if outcome is ReadSuspendState {
                timer_step(next, TimerEvent::SuspendState { state }).0
            } else {
                next
            }
        },
        Turn::Config { enabled } => AodService { is_aod_enabled: enabled, ..service },
    }
}

/// What a row of turns makes of the service.
pub open spec fn after_turns(service: AodService, turns: Seq<Turn>) -> AodService
    decreases turns.len(),
{
    if turns.len() == 0 {
        service
    } else {
        turn_step(after_turns(service, turns.drop_last()), turns.last())
    }
}

/// Over every row of turns, in whatever order the threads take them, the panel is
/// lit exactly while it has a deadline.
pub proof fn law_lit_exactly_while_deadline(service: AodService, turns: Seq<Turn>)
    requires
        is_settled(service.screen),
    ensures
        is_settled(after_turns(service, turns).screen),
    decreases turns.len(),
{
    if turns.len() > 0 {
        let before = after_turns(service, turns.drop_last());
        law_lit_exactly_while_deadline(service, turns.drop_last());
        match turns.last() {
            Turn::Wakeup(event) => law_wakeup_settles(before, event),
            Turn::Timer { event, state } => law_timer_settles(before, event, state),
            Turn::Config { enabled } => {},
        }
    }
}

/// Before the deadline the timer changes nothing.
pub proof fn law_timer_waits_for_deadline(service: AodService, deadline: u64, now: u64)
    requires
        service.screen.deadline == Some(deadline),
        now < deadline,
    ensures
        timer_step(service, TimerEvent::Look { now }) == (
            service,
            TimerOutcome::WaitFor { nanos: (deadline - now) as nat },
        ),
        forall|timed_out: bool| #[trigger]
            timer_step(service, TimerEvent::Waited { timed_out, now }) == (
                service,
                TimerOutcome::Recheck,
            ),
{
}

/// After a gesture the panel is lit for the whole timeout: a look at the clock
/// before its end waits for the rest of it, and the first look after its end
/// takes the deadline away.
pub proof fn law_gesture_lights_for_timeout(service: AodService, then: u64, now: u64)
    requires
        then + AOD_TIMEOUT_NS <= u64::MAX,
    ensures
        ({
            let lit = wakeup_step(service, WakeupEvent::Locked { now: then }).0;
            let (next, outcome) = timer_step(lit, TimerEvent::Look { now });
            &&& lit.screen.on
            &&& if now < then + AOD_TIMEOUT_NS {
                &&& next == lit
                &&& outcome == (TimerOutcome::WaitFor {
                    nanos: (then + AOD_TIMEOUT_NS - now) as nat,
                })
            } else {
                &&& is_expiring(next.screen)
                &&& outcome is ReadSuspendState
            }
        }),
{
}

/// A gesture and the timeout after it undo each other: the panel is dark again
/// and the wake lock is dropped. The level is back at zero, unless someone else
/// has switched the panel; then it is left at the target. After a fade the device is
/// still to be sent to sleep.
pub proof fn law_timeout_undoes_gesture(world: World, then: u64, now: u64, state: i32)
    requires
        !world.service.screen.on,
        world.service.screen.deadline is None,
        then + AOD_TIMEOUT_NS <= now,
    ensures
        ({
            let end = world_after(
                world,
                seq![
                    Step::Wakeup(WakeupEvent::Locked { now: then }),
                    Step::Timer(TimerEvent::Look { now }),
                    Step::Timer(TimerEvent::SuspendState { state }),
                ],
            );
            &&& end.service == world.service
            &&& end.late == world.late + if state == 0 {
                Seq::empty()
            } else {
                deep_sleep_effects()
            }
            &&& !end.board.locks.contains(my_lock())
            &&& end.board.level == if state == 0 {
                int_digits(TARGET_BRIGHTNESS as int)
            } else {
                int_digits(0)
            }
        }),
{
    let gesture = Step::Wakeup(WakeupEvent::Locked { now: then });
    let look = Step::Timer(TimerEvent::Look { now });
    let suspend = Step::Timer(TimerEvent::SuspendState { state });
    let lit = world_step(world, gesture);
    reveal_with_fuel(world_after, 4);
    assert(seq![gesture, look, suspend].drop_last() =~= seq![gesture, look]);
    assert(seq![gesture, look].drop_last() =~= seq![gesture]);
    assert(seq![gesture].drop_last() =~= Seq::<Step>::empty());
    lemma_parts();
    law_light_up(world.board);
    law_drop_wake_lock(lit.board);
    lemma_apply_held_dark(lit.board);
    assert(world.late + Seq::<Effect>::empty() =~= world.late);
    assert(apply_all(lit.board, Seq::<Effect>::empty()) == lit.board);
}

/// A second gesture lights nothing anew; it moves the deadline, and never to an
/// earlier time.
pub proof fn law_later_gesture_extends(service: AodService, first: u64, second: u64)
    requires
        first <= second,
        second + AOD_TIMEOUT_NS <= u64::MAX,
    ensures
        ({
            let once = wakeup_step(service, WakeupEvent::Locked { now: first }).0;
            let (twice, outcome) = wakeup_step(once, WakeupEvent::Locked { now: second });
            &&& outcome == (WakeupOutcome::Armed { effects: Seq::empty() })
            &&& twice.screen.on
            &&& once.screen.deadline == Some((first + AOD_TIMEOUT_NS) as u64)
            &&& twice.screen.deadline == Some((second + AOD_TIMEOUT_NS) as u64)
            &&& once.screen.deadline->0 <= twice.screen.deadline->0
        }),
{
}

/// A gesture is passed over exactly while the preference is off.
pub proof fn law_preference_gates_gestures(world: World, enabled: bool)
    ensures
        ({
            let set = world_step(world, Step::Config { enabled });
            let (service, outcome) = wakeup_step(set.service, WakeupEvent::Gesture);
            &&& service == set.service
            &&& outcome is Ignore <==> !enabled
            &&& outcome is ReadSuspendState <==> enabled
        }),
{
}

/// A touch panel that is not suspended is left alone.
pub proof fn law_awake_panel_is_left_alone(service: AodService)
    ensures
        wakeup_step(service, WakeupEvent::SuspendState { state: 0 }) == (
            service,
            WakeupOutcome::Ignore,
        ),
{
}

/// What is decided before the lock is taken does not depend on the screen state,
/// and leaves it alone.
pub proof fn law_gate_needs_no_lock(
    service: AodService,
    other: ScreenState,
    event: WakeupEvent,
)
    requires
        !(event is Locked),
    ensures
        wakeup_step(service, event).0 == service,
        wakeup_step(AodService { screen: other, ..service }, event).1 == wakeup_step(
            service,
            event,
        ).1,
{
}

/// What is decided under the lock does not depend on the preference, and leaves
/// it alone.
pub proof fn law_lock_needs_no_preference(
    service: AodService,
    other: bool,
    wakeup: WakeupEvent,
    timer: TimerEvent,
)
    requires
        wakeup is Locked,
    ensures
        ({
            let changed = AodService { is_aod_enabled: other, ..service };
            &&& wakeup_step(changed, wakeup).1 == wakeup_step(service, wakeup).1
            &&& wakeup_step(changed, wakeup).0 == (AodService {
                is_aod_enabled: other,
                ..wakeup_step(service, wakeup).0
            })
            &&& timer_step(changed, timer).1 == timer_step(service, timer).1
            &&& timer_step(changed, timer).0 == (AodService {
                is_aod_enabled: other,
                ..timer_step(service, timer).0
            })
        }),
{
}

/// The takes and drops of the service's own wake lock among `effects`, in order: a
/// take is true, a drop is false.
pub open spec fn lock_moves(effects: Seq<Effect>) -> Seq<bool>
    decreases effects.len(),
{
    if effects.len() == 0 {
        Seq::empty()
    } else {
        let front = lock_moves(effects.drop_last());
        match effects.last() {
            Effect::Write { node: Node::WakeLock, data } if data == my_lock() => front.push(true),
            Effect::Write { node: Node::WakeUnlock, data } if data == my_lock() => front.push(
                false,
            ),
            _ => front,
        }
    }
}

/// The takes and drops of the service's own wake lock over a row of steps.
pub open spec fn moves_over(world: World, steps: Seq<Step>) -> Seq<bool>
    decreases steps.len(),
{
    if steps.len() == 0 {
        Seq::empty()
    } else {
        let front = steps.drop_last();
        moves_over(world, front) + lock_moves(
            step_writes(world_after(world, front), steps.last()),
        )
    }
}

/// Two rows of effects, one after the other.
proof fn lemma_moves_append(a: Seq<Effect>, b: Seq<Effect>)
    ensures
        lock_moves(a + b) == lock_moves(a) + lock_moves(b),
    decreases b.len(),
{
    if b.len() == 0 {
        assert(a + b =~= a);
        assert(lock_moves(a) + lock_moves(b) =~= lock_moves(a));
    } else {
        assert((a + b).drop_last() =~= a + b.drop_last());
        lemma_moves_append(a, b.drop_last());
        assert(lock_moves(a + b) =~= lock_moves(a) + lock_moves(b));
    }
}

/// Setting levels moves no lock.
proof fn lemma_levels_move_no_lock(levels: Seq<int>)
    ensures
        lock_moves(level_effects(levels)) == Seq::<bool>::empty(),
    decreases levels.len(),
{
    if levels.len() > 0 {
        lemma_levels_move_no_lock(levels.drop_last());
        let all = level_effects(levels);
        assert(all.drop_last().drop_last() =~= level_effects(levels.drop_last()));
        reveal_with_fuel(lock_moves, 3);
    }
}

/// Lighting the panel takes the lock once; each way of going dark drops it once,
/// while the lock on the screen state is held.
proof fn lemma_lock_moves()
    ensures
        lock_moves(light_up()) == seq![true],
        lock_moves(drop_wake_lock()) == seq![false],
        lock_moves(held_part(go_dark())) == seq![false],
{
    lemma_parts();
    let take = seq![Effect::Write { node: Node::WakeLock, data: my_lock() }];
    let fade_in = fade_effects(0, TARGET_BRIGHTNESS as int);
    let fade_out = fade_effects(TARGET_BRIGHTNESS as int, 0);
    lemma_levels_move_no_lock(fade_levels(0, TARGET_BRIGHTNESS as int));
    lemma_levels_move_no_lock(fade_levels(TARGET_BRIGHTNESS as int, 0));
    lemma_moves_append(take, fade_in);
    lemma_moves_append(fade_out, drop_wake_lock());
    reveal_with_fuel(lock_moves, 3);
    assert(take.drop_last() =~= Seq::<Effect>::empty());
    assert(drop_wake_lock().drop_last() =~= Seq::<Effect>::empty());
    assert(lock_moves(light_up()) =~= seq![true]);
    assert(lock_moves(drop_wake_lock()) =~= seq![false]);
    assert(lock_moves(held_part(go_dark())) =~= seq![false]);
}

/// Over every row of steps the service takes its wake lock and drops it in turn,
/// beginning with a take: it never takes a lock that it holds, and never drops one
/// that it does not. The last move is a take exactly while the panel is lit. What is
/// still to come once the lock is let go only sends the device to sleep.
pub proof fn law_takes_and_drops_alternate(world: World, steps: Seq<Step>)
    requires
        !world.service.screen.on,
        world.service.screen.deadline is None,
        world.late.len() == 0,
    ensures
        only_deep_sleep(world_after(world, steps).late),
        forall|i: int|
            0 <= i < moves_over(world, steps).len() ==> #[trigger] moves_over(world, steps)[i] == (
            i % 2 == 0),
        world_after(world, steps).service.screen.on <==> moves_over(world, steps).len() % 2 == 1,
    decreases steps.len(),
{
    if steps.len() > 0 {
        let front = steps.drop_last();
        law_takes_and_drops_alternate(world, front);
        lemma_lock_moves();
        let before = moves_over(world, front);
        let more = lock_moves(step_writes(world_after(world, front), steps.last()));
        lemma_parts();
        lemma_late(world_after(world, front), steps.last());
        assert(lock_moves(Seq::<Effect>::empty()) =~= Seq::<bool>::empty());
        assert(more.len() <= 1);
        assert forall|i: int| 0 <= i < moves_over(world, steps).len() implies #[trigger] moves_over(
            world,
            steps,
        )[i] == (i % 2 == 0) by {
            if i < before.len() {
                assert(moves_over(world, steps)[i] == before[i]);
            }
        }
    }
}

/// The deadline is taken away exactly where the clock, read before a wait or after one
/// that timed out, has reached it. It never moves otherwise, and the timer makes no
/// deadline of its own. A panel that is lit then has its suspend state read next; for a
/// dark one the timer starts over.
pub proof fn law_overdue_deadline_is_taken_away(service: AodService, event: TimerEvent)
    ensures
        ({
            let (after, outcome) = timer_step(service, event);
            let overdue = match (service.screen.deadline, event) {
                (Some(deadline), TimerEvent::Look { now }) => now >= deadline,
                (Some(deadline), TimerEvent::Waited { timed_out, now }) => timed_out && now
                    >= deadline,
                _ => false,
            };
            &&& overdue ==> after.screen.deadline is None
            &&& !overdue ==> after.screen.deadline == service.screen.deadline
            &&& overdue && service.screen.on ==> outcome is ReadSuspendState
            &&& overdue && !service.screen.on ==> outcome is Restart
            &&& outcome is ReadSuspendState ==> overdue
        }),
{
}

/// The timer never oversleeps: it waits without a limit only where there is no deadline,
/// and every other wait ends when the deadline comes, neither before nor after. It waits
/// only right after it has read the clock, and after every wait that leaves the deadline
/// in place it reads the clock again.
pub proof fn law_timer_never_oversleeps(service: AodService, event: TimerEvent)
    ensures
        ({
            let (after, outcome) = timer_step(service, event);
            &&& outcome is WaitForNotice <==> event is Look && service.screen.deadline is None
            &&& outcome is WaitFor <==> (event matches TimerEvent::Look { now }
                && service.screen.deadline matches Some(deadline) && now < deadline)
            &&& outcome matches TimerOutcome::WaitFor { nanos } ==> (
            event matches TimerEvent::Look { now } && service.screen.deadline == Some(
                (now + nanos) as u64,
            ) && now + nanos <= u64::MAX && nanos > 0)
            &&& outcome is Recheck <==> (event matches TimerEvent::Waited { timed_out, now } && (
            service.screen.deadline matches Some(deadline) ==> !timed_out || now < deadline))
        }),
{
}

/// A panel that was lit is off as soon as the suspend state has been read after its
/// deadline, whatever that state is, and the timer never changes the panel otherwise:
/// it lights none, and it leaves the preference alone. A state that was not asked for
/// makes it start over.
pub proof fn law_expired_panel_goes_off(service: AodService, event: TimerEvent)
    ensures
        ({
            let (after, outcome) = timer_step(service, event);
            let answered = event is SuspendState && service.screen.on && service.screen.deadline
                is None;
            &&& after.is_aod_enabled == service.is_aod_enabled
            &&& after.screen.on <==> service.screen.on && !answered
            &&& outcome is Run <==> answered
            &&& event is SuspendState && !answered ==> outcome is Restart && after == service
        }),
{
}

/// Every way through the timer, from a clock that has reached the deadline of a lit
/// panel: two steps later the panel is off, the deadline is gone and the wake lock is
/// dropped.
pub proof fn law_timeout_ends_in_the_dark(
    service: AodService,
    board: Board,
    deadline: u64,
    event: TimerEvent,
    state: i32,
)
    requires
        service.screen.on,
        service.screen.deadline == Some(deadline),
        match event {
            TimerEvent::Look { now } => now >= deadline,
            TimerEvent::Waited { timed_out, now } => timed_out && now >= deadline,
            _ => false,
        },
    ensures
        ({
            let (expired, first) = timer_step(service, event);
            let (dark, last) = timer_step(expired, TimerEvent::SuspendState { state });
            &&& first is ReadSuspendState
            &&& dark == (AodService {
                screen: ScreenState { on: false, deadline: None },
                ..service
            })
            &&& last matches TimerOutcome::Run { effects } && {
                let end = apply_all(board, effects);
                &&& !end.locks.contains("vendor.hyperfusion.aod.display-service".spec_bytes())
                &&& end.level == if state == 0 {
                    board.level
                } else {
                    int_digits(0)
                }
                &&& state != 0 ==> !end.locks.contains(
                    "PowerManagerService.noSuspend".spec_bytes(),
                ) && !end.locks.contains("SensorsHAL_WAKEUP".spec_bytes())
                &&& forall|lock: Seq<u8>| #[trigger]
                    board.locks.contains(lock) && lock
                        != "vendor.hyperfusion.aod.display-service".spec_bytes() && (state == 0 || (
                    lock != "PowerManagerService.noSuspend".spec_bytes() && lock
                        != "SensorsHAL_WAKEUP".spec_bytes())) ==> end.locks.contains(lock)
            }
        }),
{
    law_drop_wake_lock(board);
    law_go_dark(board);
}

/// What darkening a panel does, one thing after the other. Where the touch panel is not
/// suspended, the name of the wake lock is written to the node that drops it, and that
/// is all. Otherwise the levels from 180 down to 0 are written to the backlight and held
/// for two milliseconds each; then the wake lock is dropped, the lock on the screen
/// state is let go, and the two locks that keep the device awake are dropped.
pub proof fn law_darkening_one_by_one(service: AodService, state: i32)
    requires
        service.screen.on,
        service.screen.deadline is None,
    ensures
        timer_step(service, TimerEvent::SuspendState { state }).1 matches TimerOutcome::Run {
            effects,
        } && {
            let drops = Effect::Write {
                node: Node::WakeUnlock,
                data: "vendor.hyperfusion.aod.display-service".spec_bytes(),
            };
            if state == 0 {
                effects.len() == 1 && effects[0] == drops
            } else {
                &&& effects.len() == 366
                &&& forall|k: int|
                    0 <= k < 362 ==> #[trigger] effects[k] == if k % 2 == 0 {
                        Effect::Write { node: Node::Backlight, data: int_digits(180 - k / 2) }
                    } else {
                        Effect::Pause { micros: 2000 }
                    }
                &&& effects[362] == drops
                &&& effects[363] is ReleaseScreen
                &&& effects[364] == (Effect::Write {
                    node: Node::WakeUnlock,
                    data: "PowerManagerService.noSuspend".spec_bytes(),
                })
                &&& effects[365] == (Effect::Write {
                    node: Node::WakeUnlock,
                    data: "SensorsHAL_WAKEUP".spec_bytes(),
                })
            }
        },
{
    law_fade_writes_and_waits(180, 0);
    let fade = fade_effects(180, 0);
    assert forall|k: int| 0 <= k < 362 implies #[trigger] go_dark()[k] == if k % 2 == 0 {
        Effect::Write { node: Node::Backlight, data: int_digits(180 - k / 2) }
    } else {
        Effect::Pause { micros: 2000 }
    } by {
        assert(go_dark()[k] == fade[k]);
    }
}

/// A wakeup goes through three gates, and each looks at one thing: the first at the
/// preference, the second at the suspend state; the third is the lock, and lets
/// everything through. The first two change nothing. The third lights the panel, sets
/// the deadline to ten seconds from then, and leaves the preference alone.
pub proof fn law_wakeup_gates(service: AodService, event: WakeupEvent)
    requires
        event matches WakeupEvent::Locked { now } ==> now + 10_000_000_000 <= u64::MAX,
    ensures
        ({
            let (after, outcome) = wakeup_step(service, event);
            &&& outcome is ReadSuspendState <==> event is Gesture && service.is_aod_enabled
            &&& outcome is LockScreen <==> (event matches WakeupEvent::SuspendState { state }
                && state != 0)
            &&& outcome is Armed <==> event is Locked
            &&& outcome is Ignore <==> (event is Gesture && !service.is_aod_enabled) || event == (
            WakeupEvent::SuspendState { state: 0 })
            &&& after.is_aod_enabled == service.is_aod_enabled
            &&& !(event is Locked) ==> after.screen == service.screen
            &&& event matches WakeupEvent::Locked { now } ==> {
                &&& after.screen.on
                &&& after.screen.deadline matches Some(deadline) && deadline == now
                    + 10_000_000_000
            }
        }),
{
}

/// What lighting a panel does, one thing after the other: the name of the wake lock is
/// written to the node that takes it, and the levels from 0 up to 180 are written to the
/// backlight and held for two milliseconds each. For a panel that is lit already,
/// nothing is done.
pub proof fn law_lighting_one_by_one(service: AodService, now: u64)
    ensures
        wakeup_step(service, WakeupEvent::Locked { now }).1 matches WakeupOutcome::Armed {
            effects,
        } && if service.screen.on {
            effects.len() == 0
        } else {
            &&& effects.len() == 363
            &&& effects[0] == (Effect::Write {
                node: Node::WakeLock,
                data: "vendor.hyperfusion.aod.display-service".spec_bytes(),
            })
            &&& forall|k: int|
                0 < k < 363 ==> #[trigger] effects[k] == if k % 2 == 1 {
                    Effect::Write { node: Node::Backlight, data: int_digits(k / 2) }
                } else {
                    Effect::Pause { micros: 2000 }
                }
        },
{
    law_fade_writes_and_waits(0, 180);
    let fade = fade_effects(0, 180);
    assert forall|k: int| 0 < k < 363 implies #[trigger] light_up()[k] == if k % 2 == 1 {
        Effect::Write { node: Node::Backlight, data: int_digits(k / 2) }
    } else {
        Effect::Pause { micros: 2000 }
    } by {
        assert(light_up()[k] == fade[k - 1]);
        assert(k % 2 == 1 ==> (k - 1) / 2 == k / 2 && (k - 1) % 2 == 0);
        assert(k % 2 == 0 ==> (k - 1) % 2 == 1);
    }
}

/// The actions of the service are what they say: of the same kind as what they stand
/// for, with the same wait and with the effects of the same commands.
pub proof fn law_actions_are_what_they_say(wakeup: WakeupAction, timer: TimerAction)
    ensures
        wakeup is Ignore <==> wakeup@ is Ignore,
        wakeup is ReadSuspendState <==> wakeup@ is ReadSuspendState,
        wakeup is LockScreen <==> wakeup@ is LockScreen,
        wakeup matches WakeupAction::Armed { commands } ==> wakeup@ == (WakeupOutcome::Armed {
            effects: effects(commands@),
        }),
        timer is WaitForNotice <==> timer@ is WaitForNotice,
        timer matches TimerAction::WaitFor { nanos } ==> timer@ == (TimerOutcome::WaitFor {
            nanos: nanos as nat,
        }),
        timer is Recheck <==> timer@ is Recheck,
        timer is Restart <==> timer@ is Restart,
        timer is ReadSuspendState <==> timer@ is ReadSuspendState,
        timer matches TimerAction::Run { commands } ==> timer@ == (TimerOutcome::Run {
            effects: effects(commands@),
        }),
{
}

/// Restoring a backlight leaves it at the numeral of the brightness for the light where
/// it read as zero, and as it was otherwise. It moves no wake lock.
pub proof fn law_restored_level(board: Board, buf: Seq<u8>, n: int, lux_bits: u32)
    ensures
        ({
            let end = apply_all(board, restore_effects(buf, n, lux_bits));
            &&& end.locks == board.locks
            &&& end.level == if number_in(buf, n) == 0 {
                nat_digits(brightness_for(lux_bits) as nat)
            } else {
                board.level
            }
            &&& number_in(buf, n) == 0 ==> digits_value(end.level) == brightness_for(lux_bits)
                && digits_value(end.level) != 0
        }),
{
    let done = restore_effects(buf, n, lux_bits);
    if number_in(buf, n) == 0 {
        reveal_with_fuel(apply_all, 4);
        lemma_nat_digits_value(brightness_for(lux_bits) as nat);
        law_brightness_in_range(lux_bits);
    }
}

/// The service starts with gestures allowed, a dark panel and no deadline.
pub proof fn law_service_starts_dark()
    ensures
        AodService::at_start().is_aod_enabled,
        !AodService::at_start().screen.on,
        AodService::at_start().screen.deadline is None,
{
}

/// The preference that was read last is the one that counts, and reading it leaves the
/// panel and its deadline alone.
pub proof fn law_last_preference_counts(service: AodService, first: bool, last: bool)
    ensures
        service.with_preference(last).is_aod_enabled == last,
        service.with_preference(last).screen == service.screen,
        service.with_preference(first).with_preference(last) == service.with_preference(last),
{
}

/// A screen is idle exactly where the timer, whatever the time, waits for a notice.
pub proof fn law_idle_screen_waits_for_notice(service: AodService, now: u64)
    ensures
        service.screen.has_no_deadline() <==> timer_step(service, TimerEvent::Look { now }).1
            is WaitForNotice,
        service.screen.has_no_deadline() <==> service.screen.deadline is None,
{
}

} // verus!
