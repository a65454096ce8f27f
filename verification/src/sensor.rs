//! Following the light sensor.
use vstd::prelude::*;

verus! {

/// The kind of sensor that is asked for: one of light.
pub const LIGHT_SENSOR: i32 = 5;

/// How often the light sensor is to report, in microseconds.
pub const SENSOR_PERIOD_US: i32 = 100_000;

/// How long to pause where there is no report, in milliseconds.
pub const SENSOR_PAUSE_MS: u64 = 50;

/// How long to give the light sensor at the start, in milliseconds.
pub const SENSOR_START_MS: u64 = 200;

/// What was found out about the sensor.
#[derive(Debug, Clone, Copy, PartialEq, Eq, Structural)]
pub enum SensorEvent {
    /// Whether there is a sensor manager.
    Manager { found: bool },
    /// Whether there is a light sensor.
    Sensor { found: bool },
    /// The sensor was set up to report.
    Enabled,
    /// A report was asked for. `count` says how many came; the light of the one
    /// that came last has the pattern `lux_bits`.
    Polled { count: isize, lux_bits: u32 },
    /// The pause is over.
    Rested,
}

/// What to do next.
#[derive(Debug, Clone, Copy, PartialEq, Eq, Structural)]
pub enum SensorAction {
    /// Give the sensor up.
    Stop,
    /// Ask for a sensor of that kind.
    FindSensor { kind: i32 },
    /// Have the sensor report every so many microseconds.
    Enable { period_micros: i32 },
    /// Ask for a report.
    Poll,
    /// Pass the light on, then ask for a report.
    PublishThenPoll { lux_bits: u32 },
    /// Wait for that many milliseconds.
    Rest { millis: u64 },
}

/// A sensor that is not there is given up. Every report is passed on as it
/// comes, and a pause is made only where none has come.
pub open spec fn sensor_step(event: SensorEvent) -> SensorAction {
    match event {
        SensorEvent::Manager { found } => if found {
            SensorAction::FindSensor { kind: LIGHT_SENSOR }
        } else {
            SensorAction::Stop
        },
        SensorEvent::Sensor { found } => if found {
            SensorAction::Enable { period_micros: SENSOR_PERIOD_US }
        } else {
            SensorAction::Stop
        },
        SensorEvent::Polled { count, lux_bits } => if count > 0 {
            SensorAction::PublishThenPoll { lux_bits }
        } else {
            SensorAction::Rest { millis: SENSOR_PAUSE_MS }
        },
        _ => SensorAction::Poll,
    }
}

/// One step of following the light sensor.
pub fn follow_sensor(event: SensorEvent) -> (action: SensorAction)
    ensures
        action == sensor_step(event),
{
    match event {
        SensorEvent::Manager { found } => if !found {
            SensorAction::Stop
        } else {
            SensorAction::FindSensor { kind: LIGHT_SENSOR }
        },
        SensorEvent::Sensor { found } => if !found {
            SensorAction::Stop
        } else {
            SensorAction::Enable { period_micros: SENSOR_PERIOD_US }
        },
        SensorEvent::Polled { count, lux_bits } => if count > 0 {
            SensorAction::PublishThenPoll { lux_bits }
        } else {
            SensorAction::Rest { millis: SENSOR_PAUSE_MS }
        },
        SensorEvent::Enabled | SensorEvent::Rested => SensorAction::Poll,
    }
}

/// The sensor is given up exactly where the manager or the sensor is missing. It is
/// asked for as a light sensor, and set up to report ten times in a second. Every
/// report that came is passed on with its own light, and a pause of 50 milliseconds is
/// made exactly where none came; in every other case a report is asked for.
pub proof fn law_every_report_is_passed_on(event: SensorEvent)
    ensures
        ({
            let action = sensor_step(event);
            &&& action is Stop <==> event == (SensorEvent::Manager { found: false }) || event == (
            SensorEvent::Sensor { found: false })
            &&& action == (SensorAction::FindSensor { kind: 5 }) <==> event == (
            SensorEvent::Manager { found: true })
            &&& action == (SensorAction::Enable { period_micros: 100_000 }) <==> event == (
            SensorEvent::Sensor { found: true })
            &&& action is PublishThenPoll <==> (event matches SensorEvent::Polled { count, .. }
                && count > 0)
            &&& action matches SensorAction::PublishThenPoll { lux_bits: passed_on } ==> (
            event matches SensorEvent::Polled { lux_bits, .. } && passed_on == lux_bits)
            &&& action == (SensorAction::Rest { millis: 50 }) <==> (
            event matches SensorEvent::Polled { count, .. } && count <= 0)
            &&& action is Poll <==> event is Enabled || event is Rested
        }),
{
}

} // verus!
