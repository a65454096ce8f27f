use hyperfusion_aod::decimal::i32_numeral;
use hyperfusion_aod::dpms::{
    do_inject, is_dpms_on, parse_u32, probe_poll_support, probe_requests, sysfs_write_u32,
    wait_dpms_change, DpmsMonitor, DpmsWait, PollRequest,
};
use hyperfusion_aod::lux::{lux_to_brightness, INITIAL_LUX_BITS};
use hyperfusion_aod::nodes::{Command, Node};
use hyperfusion_aod::sensor::{follow_sensor, SensorAction, SensorEvent};

const LUX_MAP: [(f32, u32); 9] = [
    (1.0, 50),
    (10.0, 200),
    (50.0, 350),
    (200.0, 550),
    (500.0, 1023),
    (1000.0, 2047),
    (3000.0, 3095),
    (6000.0, 4095),
    (f32::MAX, 4095),
];

fn by_table(lux: f32) -> u32 {
    for (threshold, brightness) in LUX_MAP {
        if lux < threshold {
            return brightness;
        }
    }
    4095
}

#[test]
fn brightness_agrees_with_the_table_at_its_edges() {
    for (threshold, _) in LUX_MAP {
        let bits = threshold.to_bits();
        for lux in [
            threshold,
            f32::from_bits(bits - 1),
            f32::from_bits(bits + 1),
            -threshold,
        ] {
            assert_eq!(lux_to_brightness(lux.to_bits()), by_table(lux), "{}", lux);
        }
    }
}

#[test]
fn brightness_agrees_with_the_table_on_odd_values() {
    for lux in [
        0.0,
        -0.0,
        f32::MIN_POSITIVE,
        f32::EPSILON,
        -1.0e30,
        1.0e30,
        f32::MIN,
        f32::MAX,
        f32::INFINITY,
        f32::NEG_INFINITY,
        f32::NAN,
        -f32::NAN,
    ] {
        assert_eq!(lux_to_brightness(lux.to_bits()), by_table(lux), "{}", lux);
    }
    assert_eq!(lux_to_brightness(f32::NAN.to_bits()), 4095);
    assert_eq!(lux_to_brightness((-3.5f32).to_bits()), 50);
}

#[test]
fn brightness_agrees_with_the_table_all_over() {
    let mut bits: u32 = 0;
    loop {
        assert_eq!(lux_to_brightness(bits), by_table(f32::from_bits(bits)));
        match bits.checked_add(997) {
            Some(next) => bits = next,
            None => break,
        }
    }
}

#[test]
fn brightness_grows_with_the_light() {
    let mut last = 0;
    for tenth in 0..100_000u32 {
        let brightness = lux_to_brightness((tenth as f32 / 10.0).to_bits());
        assert!(brightness >= last);
        last = brightness;
    }
    assert_eq!(last, 4095);
}

#[test]
fn initial_light_is_two_hundred_lux() {
    assert_eq!(INITIAL_LUX_BITS, 200f32.to_bits());
    assert_eq!(lux_to_brightness(INITIAL_LUX_BITS), 1023);
}

#[test]
fn dpms_says_on() {
    assert!(is_dpms_on(b"On\n\0\0\0\0\0", 3));
    assert!(is_dpms_on(b"On", 2));
    assert!(!is_dpms_on(b"On", 1));
    assert!(!is_dpms_on(b"Off\n", 4));
    assert!(!is_dpms_on(b"on\n", 3));
    assert!(!is_dpms_on(b"", 0));
    assert!(!is_dpms_on(b"x", 2));
}

#[test]
fn leading_digits_are_read() {
    assert_eq!(parse_u32(b"0\n", 2), 0);
    assert_eq!(parse_u32(b"1023\n\0\0\0", 5), 1023);
    assert_eq!(parse_u32(b"1023", 2), 10);
    assert_eq!(parse_u32(b"", 0), 0);
    assert_eq!(parse_u32(b"12a34", 5), 12);
    assert_eq!(parse_u32(b"a12", 3), 0);
    assert_eq!(parse_u32(b" 12", 3), 0);
    assert_eq!(parse_u32(b"-12", 3), 0);
    assert_eq!(parse_u32(b"0007", 4), 7);
    assert_eq!(parse_u32(b"4294967295", 10), u32::MAX);
    assert_eq!(parse_u32(b"99999999", 8), 99_999_999);
}

#[test]
fn digits_are_written_as_std_does() {
    for val in [0, 1, 9, 10, 99, 100, 550, 4095, 1_000_000_000, u32::MAX - 1, u32::MAX] {
        assert_eq!(sysfs_write_u32(val), val.to_string().into_bytes());
    }
    for val in [0, 7, -7, 180, i32::MAX, i32::MIN] {
        assert_eq!(i32_numeral(val), val.to_string().into_bytes());
    }
}

#[test]
fn written_number_reads_back() {
    for val in (0..=u32::MAX).step_by(7_654_321).chain([u32::MAX]) {
        let mut data = sysfs_write_u32(val);
        assert_eq!(parse_u32(&data, data.len()), val);
        data.push(b'\n');
        assert_eq!(parse_u32(&data, data.len()), val);
    }
}

fn writes(commands: &[Command]) -> Vec<String> {
    commands
        .iter()
        .map(|c| match c {
            Command::Write { node: Node::Backlight, data } => {
                String::from_utf8(data.clone()).unwrap()
            }
            Command::Pause { micros } => format!("pause {}", micros),
            other => panic!("{:?}", other),
        })
        .collect()
}

#[test]
fn zero_backlight_is_restored_twice() {
    let commands = do_inject(b"0\n\0\0\0\0\0\0", 2, 20f32.to_bits());
    assert_eq!(writes(&commands), vec!["350", "pause 8000", "350"]);
    let commands = do_inject(&[0; 8], 0, 7000f32.to_bits());
    assert_eq!(writes(&commands), vec!["4095", "pause 8000", "4095"]);
}

#[test]
fn lit_backlight_is_left_alone() {
    assert!(do_inject(b"1\n\0\0\0\0\0\0", 2, 20f32.to_bits()).is_empty());
    assert!(do_inject(b"99999999", 8, 20f32.to_bits()).is_empty());
}

#[test]
fn restored_backlight_is_left_alone() {
    for lux in [0.0f32, 5.0, 20.0, 100.0, 300.0, 700.0, 2000.0, 5000.0, 9000.0] {
        let mut buf = [0u8; 8];
        let data = sysfs_write_u32(lux_to_brightness(lux.to_bits()));
        buf[..data.len()].copy_from_slice(&data);
        buf[data.len()] = b'\n';
        assert!(do_inject(&buf, data.len() + 1, lux.to_bits()).is_empty());
    }
}

#[test]
fn panel_comes_on_at_rising_edges() {
    let looks = [false, true, true, false, false, true, false, true];
    for start in [false, true] {
        let mut monitor = DpmsMonitor { last_on: start, use_poll: false };
        let mut last = start;
        for now in looks {
            assert_eq!(monitor.observe(now), !last && now);
            assert_eq!(monitor, DpmsMonitor { last_on: now, use_poll: false });
            last = now;
        }
    }
}

#[test]
fn monitor_waits_as_it_can() {
    let monitor = DpmsMonitor { last_on: false, use_poll: true };
    let events = libc::POLLPRI | libc::POLLERR;
    assert_eq!(
        monitor.wait(),
        DpmsWait::ForChange { request: PollRequest { events, limit_millis: 500 } }
    );
    assert_eq!(
        probe_requests(),
        (
            PollRequest { events, limit_millis: 100 },
            PollRequest { events, limit_millis: 2 },
        )
    );
    let monitor = DpmsMonitor { last_on: true, use_poll: false };
    assert_eq!(monitor.wait(), DpmsWait::Pause { millis: 8 });
}

#[test]
fn poll_answers_are_judged() {
    assert!(wait_dpms_change(1));
    assert!(!wait_dpms_change(0));
    assert!(!wait_dpms_change(-1));
    assert!(!probe_poll_support(0));
    assert!(probe_poll_support(1));
    assert!(probe_poll_support(2));
}

#[test]
fn sensor_is_given_up_where_it_is_missing() {
    assert_eq!(follow_sensor(SensorEvent::Manager { found: false }), SensorAction::Stop);
    assert_eq!(
        follow_sensor(SensorEvent::Manager { found: true }),
        SensorAction::FindSensor { kind: ndk_sys::ASENSOR_TYPE_LIGHT as i32 }
    );
    assert_eq!(follow_sensor(SensorEvent::Sensor { found: false }), SensorAction::Stop);
    assert_eq!(
        follow_sensor(SensorEvent::Sensor { found: true }),
        SensorAction::Enable { period_micros: 100_000 }
    );
}

#[test]
fn sensor_reports_are_passed_on() {
    assert_eq!(follow_sensor(SensorEvent::Enabled), SensorAction::Poll);
    assert_eq!(
        follow_sensor(SensorEvent::Polled { count: 1, lux_bits: 42 }),
        SensorAction::PublishThenPoll { lux_bits: 42 }
    );
    for count in [0, -1] {
        assert_eq!(
            follow_sensor(SensorEvent::Polled { count, lux_bits: 42 }),
            SensorAction::Rest { millis: 50 }
        );
    }
    assert_eq!(follow_sensor(SensorEvent::Rested), SensorAction::Poll);
}
