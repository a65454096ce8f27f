use hyperfusion_aod::bytes::ByteOrder;
use hyperfusion_aod::fade::{fade_brightness, FADE_DELAY_US, TARGET_BRIGHTNESS};
use hyperfusion_aod::input::{InputAction, InputEvent, InputRead, INPUT_EVENT_SIZE};
use hyperfusion_aod::nodes::{force_deep_sleep, write_node, Command, Node};
use hyperfusion_aod::service::{
    AodService, ScreenState, TimerAction, TimerEvent, WakeupAction, WakeupEvent, AOD_TIMEOUT_NS,
};

const SECOND: u64 = 1_000_000_000;

#[derive(Debug, PartialEq)]
enum Seen {
    Write(&'static str, String),
    Pause(u64),
    Release,
}

fn seen(commands: &[Command]) -> Vec<Seen> {
    commands
        .iter()
        .map(|c| match c {
            Command::Write { node, data } => {
                Seen::Write(node.path(), String::from_utf8(data.clone()).unwrap())
            }
            Command::Pause { micros } => Seen::Pause(*micros),
            Command::ReleaseScreen => Seen::Release,
        })
        .collect()
}

fn fade_seen(levels: impl Iterator<Item = i32>) -> Vec<Seen> {
    let mut out = Vec::new();
    for level in levels {
        out.push(Seen::Write(
            "/sys/class/backlight/panel0-backlight/brightness",
            level.to_string(),
        ));
        out.push(Seen::Pause(2000));
    }
    out
}

fn lit_at(now: u64) -> AodService {
    let mut service = AodService::new();
    service.trigger_wakeup(WakeupEvent::Locked { now });
    service
}

fn big_record(ev_type: u16, code: u16, value: i32) -> Vec<u8> {
    let mut out = Vec::new();
    out.extend_from_slice(&1_700_000_000i64.to_be_bytes());
    out.extend_from_slice(&123_456i64.to_be_bytes());
    out.extend_from_slice(&ev_type.to_be_bytes());
    out.extend_from_slice(&code.to_be_bytes());
    out.extend_from_slice(&value.to_be_bytes());
    out
}

fn record(ev_type: u16, code: u16, value: i32) -> Vec<u8> {
    let mut out = Vec::new();
    out.extend_from_slice(&1_700_000_000i64.to_le_bytes());
    out.extend_from_slice(&123_456i64.to_le_bytes());
    out.extend_from_slice(&ev_type.to_le_bytes());
    out.extend_from_slice(&code.to_le_bytes());
    out.extend_from_slice(&value.to_le_bytes());
    out
}

#[test]
fn new_service_is_enabled_and_dark() {
    let service = AodService::new();
    assert!(service.is_aod_enabled);
    assert_eq!(service.screen, ScreenState { on: false, deadline: None });
    assert!(service.screen.is_idle());
}

#[test]
fn fade_in_visits_every_level() {
    let commands = fade_brightness(0, TARGET_BRIGHTNESS);
    assert_eq!(seen(&commands), fade_seen(0..=180));
    assert_eq!(FADE_DELAY_US, 2000);
}

#[test]
fn fade_out_is_fade_in_backwards() {
    let commands = fade_brightness(TARGET_BRIGHTNESS, 0);
    assert_eq!(seen(&commands), fade_seen((0..=180).rev()));
}

#[test]
fn fade_to_the_same_level_does_nothing() {
    assert!(fade_brightness(7, 7).is_empty());
    assert!(fade_brightness(i32::MIN, i32::MIN).is_empty());
}

#[test]
fn fade_passes_through_negative_levels() {
    assert_eq!(seen(&fade_brightness(2, -2)), fade_seen([2, 1, 0, -1, -2].into_iter()));
    assert_eq!(
        seen(&fade_brightness(i32::MIN, i32::MIN + 1)),
        fade_seen([i32::MIN, i32::MIN + 1].into_iter())
    );
    assert_eq!(
        seen(&fade_brightness(i32::MAX - 1, i32::MAX)),
        fade_seen([i32::MAX - 1, i32::MAX].into_iter())
    );
}

#[test]
fn deep_sleep_drops_both_locks() {
    assert_eq!(
        seen(&force_deep_sleep()),
        vec![
            Seen::Write("/sys/power/wake_unlock", "PowerManagerService.noSuspend".to_string()),
            Seen::Write("/sys/power/wake_unlock", "SensorsHAL_WAKEUP".to_string()),
        ]
    );
}

#[test]
fn write_node_takes_the_text_as_it_is() {
    assert_eq!(
        seen(&[write_node(Node::WakeLock, "grün")]),
        vec![Seen::Write("/sys/power/wake_lock", "grün".to_string())]
    );
}

#[test]
fn gesture_is_ignored_while_disabled() {
    let mut service = AodService::new();
    assert!(service.run_config_watcher(false));
    assert!(matches!(service.trigger_wakeup(WakeupEvent::Gesture), WakeupAction::Ignore));
    assert!(service.run_config_watcher(true));
    assert!(matches!(
        service.trigger_wakeup(WakeupEvent::Gesture),
        WakeupAction::ReadSuspendState
    ));
    assert_eq!(service, AodService::new());
}

#[test]
fn awake_panel_is_left_alone() {
    let mut service = AodService::new();
    let action = service.trigger_wakeup(WakeupEvent::SuspendState { state: 0 });
    assert!(matches!(action, WakeupAction::Ignore));
    assert_eq!(service, AodService::new());
    for state in [1, -1, 7] {
        let action = service.trigger_wakeup(WakeupEvent::SuspendState { state });
        assert!(matches!(action, WakeupAction::LockScreen));
    }
}

#[test]
fn first_gesture_lights_the_panel() {
    let mut service = AodService::new();
    match service.trigger_wakeup(WakeupEvent::Locked { now: 3 * SECOND }) {
        WakeupAction::Armed { commands } => {
            let mut expected = vec![Seen::Write(
                "/sys/power/wake_lock",
                "vendor.hyperfusion.aod.display-service".to_string(),
            )];
            expected.extend(fade_seen(0..=180));
            assert_eq!(seen(&commands), expected);
        }
        other => panic!("{:?}", other),
    }
    assert_eq!(service.screen, ScreenState { on: true, deadline: Some(13 * SECOND) });
    assert!(!service.screen.is_idle());
}

#[test]
fn second_gesture_only_moves_the_deadline() {
    let mut service = lit_at(0);
    match service.trigger_wakeup(WakeupEvent::Locked { now: 4 * SECOND }) {
        WakeupAction::Armed { commands } => assert!(commands.is_empty()),
        other => panic!("{:?}", other),
    }
    assert_eq!(service.screen, ScreenState { on: true, deadline: Some(14 * SECOND) });
}

#[test]
fn latest_possible_gesture_is_served() {
    let mut service = AodService::new();
    service.trigger_wakeup(WakeupEvent::Locked { now: u64::MAX - AOD_TIMEOUT_NS });
    assert_eq!(service.screen.deadline, Some(u64::MAX));
}

#[test]
fn timer_without_deadline_waits_for_notice() {
    let mut service = AodService::new();
    assert!(matches!(
        service.handle_timeout(TimerEvent::Look { now: 9 }),
        TimerAction::WaitForNotice
    ));
    assert!(matches!(
        service.handle_timeout(TimerEvent::Waited { timed_out: true, now: 9 }),
        TimerAction::Recheck
    ));
    assert_eq!(service, AodService::new());
}

#[test]
fn timer_waits_for_the_rest_of_the_timeout() {
    let mut service = lit_at(SECOND);
    let before = service;
    assert!(matches!(
        service.handle_timeout(TimerEvent::Look { now: 4 * SECOND }),
        TimerAction::WaitFor { nanos } if nanos == 7 * SECOND
    ));
    assert!(matches!(
        service.handle_timeout(TimerEvent::Waited { timed_out: true, now: 11 * SECOND - 1 }),
        TimerAction::Recheck
    ));
    assert_eq!(service, before);
}

#[test]
fn notice_after_the_deadline_is_looked_at_again() {
    let mut service = lit_at(0);
    let before = service;
    assert!(matches!(
        service.handle_timeout(TimerEvent::Waited { timed_out: false, now: 20 * SECOND }),
        TimerAction::Recheck
    ));
    assert_eq!(service, before);
    assert!(matches!(
        service.handle_timeout(TimerEvent::Look { now: 20 * SECOND }),
        TimerAction::ReadSuspendState
    ));
}

#[test]
fn deadline_expires_on_the_dot() {
    for event in [
        TimerEvent::Look { now: 10 * SECOND },
        TimerEvent::Waited { timed_out: true, now: 10 * SECOND },
    ] {
        let mut service = lit_at(0);
        assert!(matches!(service.handle_timeout(event), TimerAction::ReadSuspendState));
        assert_eq!(service.screen, ScreenState { on: true, deadline: None });
    }
}

#[test]
fn deadline_of_a_dark_panel_just_goes() {
    let mut service = AodService::new();
    service.screen.deadline = Some(5);
    assert!(matches!(
        service.handle_timeout(TimerEvent::Look { now: 5 }),
        TimerAction::Restart
    ));
    assert_eq!(service, AodService::new());
}

#[test]
fn panel_switched_elsewhere_only_loses_its_lock() {
    let mut service = lit_at(0);
    service.handle_timeout(TimerEvent::Look { now: 10 * SECOND });
    match service.handle_timeout(TimerEvent::SuspendState { state: 0 }) {
        TimerAction::Run { commands } => assert_eq!(
            seen(&commands),
            vec![Seen::Write(
                "/sys/power/wake_unlock",
                "vendor.hyperfusion.aod.display-service".to_string()
            )]
        ),
        other => panic!("{:?}", other),
    }
    assert_eq!(service, AodService::new());
}

#[test]
fn panel_fades_out_and_sleeps() {
    let mut service = lit_at(0);
    service.handle_timeout(TimerEvent::Look { now: 10 * SECOND });
    match service.handle_timeout(TimerEvent::SuspendState { state: 1 }) {
        TimerAction::Run { commands } => {
            let mut expected = fade_seen((0..=180).rev());
            expected.push(Seen::Write(
                "/sys/power/wake_unlock",
                "vendor.hyperfusion.aod.display-service".to_string(),
            ));
            expected.push(Seen::Release);
            expected.push(Seen::Write(
                "/sys/power/wake_unlock",
                "PowerManagerService.noSuspend".to_string(),
            ));
            expected
                .push(Seen::Write("/sys/power/wake_unlock", "SensorsHAL_WAKEUP".to_string()));
            assert_eq!(seen(&commands), expected);
        }
        other => panic!("{:?}", other),
    }
    assert_eq!(service, AodService::new());
}

#[test]
fn screen_is_released_once_and_only_before_deep_sleep() {
    let mut service = AodService::new();
    match service.trigger_wakeup(WakeupEvent::Locked { now: 0 }) {
        WakeupAction::Armed { commands } => {
            assert!(!seen(&commands).contains(&Seen::Release));
        }
        other => panic!("{:?}", other),
    }
    service.handle_timeout(TimerEvent::Look { now: 10 * SECOND });
    let mut switched = service;
    match switched.handle_timeout(TimerEvent::SuspendState { state: 0 }) {
        TimerAction::Run { commands } => assert!(!seen(&commands).contains(&Seen::Release)),
        other => panic!("{:?}", other),
    }
    match service.handle_timeout(TimerEvent::SuspendState { state: 1 }) {
        TimerAction::Run { commands } => {
            let all = seen(&commands);
            let places: Vec<usize> =
                (0..all.len()).filter(|&i| all[i] == Seen::Release).collect();
            assert_eq!(places, vec![2 * 181 + 1]);
            assert_eq!(all[places[0] + 1..], seen(&force_deep_sleep())[..]);
        }
        other => panic!("{:?}", other),
    }
}

#[test]
fn gesture_during_deep_sleep_keeps_its_wake_lock() {
    let mut service = lit_at(0);
    service.handle_timeout(TimerEvent::Look { now: 10 * SECOND });
    let dark = match service.handle_timeout(TimerEvent::SuspendState { state: 1 }) {
        TimerAction::Run { commands } => seen(&commands),
        other => panic!("{:?}", other),
    };
    let lit = match service.trigger_wakeup(WakeupEvent::Locked { now: 11 * SECOND }) {
        WakeupAction::Armed { commands } => seen(&commands),
        other => panic!("{:?}", other),
    };
    let release = dark.iter().position(|one| *one == Seen::Release).unwrap();
    let own = "vendor.hyperfusion.aod.display-service";
    for between in release + 1..=dark.len() {
        let mut held = vec!["PowerManagerService.noSuspend", "SensorsHAL_WAKEUP", own];
        for one in dark[..between].iter().chain(&lit).chain(&dark[between..]) {
            match one {
                Seen::Write("/sys/power/wake_lock", _) => held.push(own),
                Seen::Write("/sys/power/wake_unlock", name) => held.retain(|lock| lock != name),
                _ => {}
            }
        }
        assert_eq!(held, vec![own]);
    }
}

#[test]
fn suspend_state_that_was_not_asked_for_changes_nothing() {
    let mut service = lit_at(0);
    let before = service;
    assert!(matches!(
        service.handle_timeout(TimerEvent::SuspendState { state: 1 }),
        TimerAction::Restart
    ));
    assert_eq!(service, before);
}

#[test]
fn wake_lock_follows_the_panel_over_a_long_run() {
    let mut service = AodService::new();
    let mut held = false;
    let mut now = 0;
    for round in 0..40u64 {
        now += (round * 3 + 1) * SECOND / 2;
        let commands = if round % 3 == 0 {
            match service.trigger_wakeup(WakeupEvent::Locked { now }) {
                WakeupAction::Armed { commands } => commands,
                other => panic!("{:?}", other),
            }
        } else {
            match service.handle_timeout(TimerEvent::Look { now }) {
                TimerAction::ReadSuspendState => {
                    let state = (round % 2) as i32;
                    match service.handle_timeout(TimerEvent::SuspendState { state }) {
                        TimerAction::Run { commands } => commands,
                        other => panic!("{:?}", other),
                    }
                }
                _ => Vec::new(),
            }
        };
        for step in seen(&commands) {
            match step {
                Seen::Write("/sys/power/wake_lock", name) => {
                    assert_eq!(name, "vendor.hyperfusion.aod.display-service");
                    assert!(!held);
                    held = true;
                }
                Seen::Write("/sys/power/wake_unlock", name)
                    if name == "vendor.hyperfusion.aod.display-service" =>
                {
                    assert!(held);
                    held = false;
                }
                _ => {}
            }
        }
        assert_eq!(held, service.screen.on);
        assert_eq!(service.screen.on, service.screen.deadline.is_some());
    }
}

#[test]
fn input_record_is_read_field_by_field() {
    let bytes: Vec<u8> = (0..24).map(|i| 0xf0u8.wrapping_add(i)).collect();
    let event = InputEvent::from_record(ByteOrder::Little, &bytes);
    assert_eq!(event.sec, i64::from_le_bytes(bytes[0..8].try_into().unwrap()));
    assert_eq!(event.usec, i64::from_le_bytes(bytes[8..16].try_into().unwrap()));
    assert_eq!(event.ev_type, u16::from_le_bytes(bytes[16..18].try_into().unwrap()));
    assert_eq!(event.code, u16::from_le_bytes(bytes[18..20].try_into().unwrap()));
    assert_eq!(event.value, i32::from_le_bytes(bytes[20..24].try_into().unwrap()));
    let event = InputEvent::from_record(ByteOrder::Big, &bytes);
    assert_eq!(event.sec, i64::from_be_bytes(bytes[0..8].try_into().unwrap()));
    assert_eq!(event.usec, i64::from_be_bytes(bytes[8..16].try_into().unwrap()));
    assert_eq!(event.ev_type, u16::from_be_bytes(bytes[16..18].try_into().unwrap()));
    assert_eq!(event.code, u16::from_be_bytes(bytes[18..20].try_into().unwrap()));
    assert_eq!(event.value, i32::from_be_bytes(bytes[20..24].try_into().unwrap()));
    assert_eq!(INPUT_EVENT_SIZE, 24);
}

#[test]
fn input_record_fields_reach_their_limits() {
    for order in [ByteOrder::Little, ByteOrder::Big] {
        assert_eq!(
            InputEvent::from_record(order, &[0xff; 24]),
            InputEvent { sec: -1, usec: -1, ev_type: 0xffff, code: 0xffff, value: -1 }
        );
    }
    let mut low = [0u8; 24];
    low[7] = 0x80;
    low[23] = 0x80;
    let event = InputEvent::from_record(ByteOrder::Little, &low);
    assert_eq!((event.sec, event.value), (i64::MIN, i32::MIN));
    let mut low = [0u8; 24];
    low[0] = 0x80;
    low[20] = 0x80;
    let event = InputEvent::from_record(ByteOrder::Big, &low);
    assert_eq!((event.sec, event.value), (i64::MIN, i32::MIN));
}

#[test]
fn both_gesture_keys_wake() {
    for code in [354, 338] {
        assert_eq!(
            AodService::monitor_input(ByteOrder::Little, InputRead::Record(record(1, code, 1))),
            InputAction::WakeThenRead
        );
        assert_eq!(
            AodService::monitor_input(ByteOrder::Big, InputRead::Record(big_record(1, code, 1))),
            InputAction::WakeThenRead
        );
        assert_eq!(
            AodService::monitor_input(ByteOrder::Big, InputRead::Record(record(1, code, 1))),
            InputAction::Read
        );
    }
}

#[test]
fn other_input_events_are_passed_over() {
    for (ev_type, code, value) in
        [(1, 354, 0), (1, 354, 2), (1, 354, -1), (1, 353, 1), (0, 354, 1), (3, 338, 1), (1, 0, 1)]
    {
        assert_eq!(
            AodService::monitor_input(
                ByteOrder::Little,
                InputRead::Record(record(ev_type, code, value))
            ),
            InputAction::Read
        );
    }
}

#[test]
fn input_device_is_given_up_or_tried_again() {
    let order = ByteOrder::Little;
    assert_eq!(AodService::monitor_input(order, InputRead::OpenFailed), InputAction::Stop);
    assert_eq!(AodService::monitor_input(order, InputRead::Opened), InputAction::Read);
    assert_eq!(
        AodService::monitor_input(order, InputRead::ReadFailed),
        InputAction::PauseThenRead { millis: 100 }
    );
}

/// Runs a whole gesture, and says whether it was passed over.
fn gesture_is_ignored(service: &mut AodService, state: i32, now: u64) -> bool {
    if !matches!(service.trigger_wakeup(WakeupEvent::Gesture), WakeupAction::ReadSuspendState) {
        return true;
    }
    let action = service.trigger_wakeup(WakeupEvent::SuspendState { state });
    if !matches!(action, WakeupAction::LockScreen) {
        return true;
    }
    let action = service.trigger_wakeup(WakeupEvent::Locked { now });
    assert!(matches!(action, WakeupAction::Armed { .. }));
    false
}

#[test]
fn whole_gesture_needs_preference_and_suspended_panel() {
    for enabled in [false, true] {
        for state in [0, 1, -1] {
            let mut service = AodService::new();
            service.run_config_watcher(enabled);
            let before = service;
            let ignored = gesture_is_ignored(&mut service, state, 5);
            assert_eq!(ignored, !enabled || state == 0);
            if ignored {
                assert_eq!(service, before);
            } else {
                assert_eq!(
                    service.screen,
                    ScreenState { on: true, deadline: Some(10 * SECOND + 5) }
                );
            }
        }
    }
}
