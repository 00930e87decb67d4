//! Samples and the readings that are made of them.
use growhat::config::{Backend, Calibration, Config, Hertz, SensorConfig};
use growhat::sensor::{
    Moisture, ReadingStatus, SensorError, SensorSource, SensorTracker, SimulatedSource,
};

const SECOND: u128 = 1_000_000_000;

fn hz(value: f64) -> Hertz {
    Hertz {
        bits: value.to_bits(),
    }
}

fn config(calibration: Option<Calibration>) -> Config {
    Config {
        device_id: "x".into(),
        name: "X".into(),
        backend: Backend::Simulated,
        sample_interval_ms: 1000,
        stale_after_ms: 2000,
        measurement_window_ms: 1000,
        gpio_chip: b"/dev/gpiochip0".to_vec(),
        hardware_confirmed: false,
        panel_enabled: false,
        pump: None,
        sensors: vec![SensorConfig {
            channel: 1,
            name: "Soil".into(),
            calibration,
            simulated_hz: hz(10.0),
        }],
        mqtt: None,
    }
}

fn dry_to_wet() -> Calibration {
    Calibration {
        dry_hz: hz(30.0),
        wet_hz: hz(1.0),
    }
}

#[test]
fn invalid_then_stale_never_reuses_moisture() {
    let cfg = config(Some(dry_to_wet()));
    let mut tracker = SensorTracker::new(&cfg);
    assert_eq!(
        tracker.update(vec![(1, Ok(hz(10.0)))], 0)[0].status,
        ReadingStatus::Valid
    );
    let invalid = tracker.update(vec![(1, Ok(hz(f64::NAN)))], SECOND);
    assert_eq!(invalid[0].status, ReadingStatus::Invalid);
    assert_eq!(invalid[0].moisture_percent, None);
    let stale = tracker.update(vec![], 2 * SECOND);
    assert_eq!(stale[0].status, ReadingStatus::Stale);
    assert_eq!(stale[0].raw_hz, Some(hz(10.0)));
    assert_eq!(stale[0].age_ms, Some(2000));
}

#[test]
fn missing_calibration_reports_uncalibrated_without_percentage() {
    let cfg = config(None);
    let mut source = SimulatedSource::new(&cfg);
    let reading = SensorTracker::new(&cfg).update(source.read(), 0).remove(0);
    assert_eq!(reading.status, ReadingStatus::Uncalibrated);
    assert_eq!(reading.raw_hz, Some(hz(10.0)));
    assert_eq!(reading.moisture_percent, None);
}

#[test]
fn no_pulses_stays_distinct_from_invalid_and_recovers() {
    let mut cfg = config(None);
    cfg.stale_after_ms = 15_000;
    let mut tracker = SensorTracker::new(&cfg);
    tracker.update(vec![(1, Ok(hz(10.0)))], 0);
    for seconds in [1, 20] {
        let reading = tracker
            .update(vec![(1, Err(SensorError::NoPulses))], seconds * SECOND)
            .remove(0);
        assert_eq!(reading.status, ReadingStatus::NoSignal);
        assert_eq!(reading.raw_hz, Some(hz(10.0)));
        assert_eq!(reading.moisture_percent, None);
        assert_eq!(
            reading.error.as_deref(),
            Some("no moisture pulses in measurement window")
        );
    }
    let reading = tracker
        .update(vec![(1, Ok(hz(8.0)))], 21 * SECOND)
        .remove(0);
    assert_eq!(reading.status, ReadingStatus::Uncalibrated);
    assert_eq!(reading.raw_hz, Some(hz(8.0)));
}

#[test]
fn a_calibrated_reading_names_its_frequency_and_calibration() {
    let mut tracker = SensorTracker::new(&config(Some(dry_to_wet())));
    let reading = tracker.update(vec![(1, Ok(hz(10.0)))], 7).remove(0);
    assert_eq!(
        reading.moisture_percent,
        Some(Moisture {
            hz: hz(10.0),
            calibration: dry_to_wet()
        })
    );
    assert_eq!(reading.age_ms, Some(0));
    assert_eq!(reading.error, None);
}

#[test]
fn every_unusable_sample_says_why() {
    let mut tracker = SensorTracker::new(&config(None));
    for (sample, words) in [
        (
            Err(SensorError::InsufficientPulses),
            "insufficient pulses to determine frequency",
        ),
        (Err(SensorError::Other("line lost".into())), "line lost"),
        (Ok(hz(0.0)), "nonpositive or nonfinite frequency"),
        (Ok(hz(-4.0)), "nonpositive or nonfinite frequency"),
        (Ok(hz(f64::INFINITY)), "nonpositive or nonfinite frequency"),
    ] {
        let reading = tracker.update(vec![(1, sample)], 0).remove(0);
        assert_eq!(reading.status, ReadingStatus::Invalid);
        assert_eq!(reading.error.as_deref(), Some(words));
        assert_eq!(reading.raw_hz, None);
        assert_eq!(reading.age_ms, None);
    }
    let reading = tracker.update(vec![(2, Ok(hz(3.0)))], 0).remove(0);
    assert_eq!(reading.status, ReadingStatus::Invalid);
    assert_eq!(reading.error.as_deref(), Some("missing sample"));
}

#[test]
fn channels_are_remembered_apart_and_the_last_sample_counts() {
    let mut cfg = config(None);
    cfg.sensors.push(SensorConfig {
        channel: 3,
        name: "Bench".into(),
        calibration: None,
        simulated_hz: hz(5.0),
    });
    let mut tracker = SensorTracker::new(&cfg);
    let readings = tracker.update(
        vec![(3, Ok(hz(1.0))), (1, Ok(hz(2.0))), (3, Ok(hz(4.0)))],
        SECOND,
    );
    assert_eq!(readings.len(), 2);
    assert_eq!(readings[0].channel, 1);
    assert_eq!(readings[0].raw_hz, Some(hz(2.0)));
    assert_eq!(readings[1].channel, 3);
    assert_eq!(readings[1].raw_hz, Some(hz(4.0)));
    let readings = tracker.update(vec![(1, Ok(hz(6.0)))], 2 * SECOND);
    assert_eq!(readings[0].raw_hz, Some(hz(6.0)));
    assert_eq!(readings[1].raw_hz, Some(hz(4.0)));
    assert_eq!(readings[1].age_ms, Some(1000));
    assert_eq!(readings[1].status, ReadingStatus::Invalid);
}

#[test]
fn a_clock_that_steps_back_gives_no_negative_age() {
    let mut tracker = SensorTracker::new(&config(None));
    tracker.update(vec![(1, Ok(hz(2.0)))], 5 * SECOND);
    let reading = tracker.update(vec![], SECOND).remove(0);
    assert_eq!(reading.age_ms, Some(0));
    assert_eq!(reading.status, ReadingStatus::Invalid);
}

#[test]
fn only_current_frequencies_are_healthy() {
    assert!(ReadingStatus::Valid.is_healthy());
    assert!(ReadingStatus::Uncalibrated.is_healthy());
    assert!(!ReadingStatus::NoSignal.is_healthy());
    assert!(!ReadingStatus::Invalid.is_healthy());
    assert!(!ReadingStatus::Stale.is_healthy());
}
