//! Edges, windows and measurements.
use growhat::config::{Backend, Config, ConfigError, Hertz, SensorConfig};
use growhat::hardware::{sequence_gap, Capture, Edge, PulseRate, PulseWindow};
use growhat::measurement::{
    monotonic_ns, sensor_lines, Measurement, Observation, RateSample, SourceError, Stage,
};
use growhat::sensor::SensorError;

fn hertz(rate: PulseRate) -> f64 {
    rate.pulses as f64 * 1_000_000_000.0 / rate.span_ns as f64
}

#[test]
fn ignores_old_and_future_edges_and_uses_event_span() {
    let mut p = PulseWindow::default();
    for ns in [1, 100, 300_000_100, 600_000_100, 1_000_000_100] {
        p.push(ns, 100, 1_000_000_100);
    }
    assert_eq!(p.count, 3);
    assert!((hertz(p.frequency(false).unwrap()) - (2.0 / 0.6)).abs() < 0.00001);
}

#[test]
fn missing_and_single_low_frequency_pulse_are_invalid() {
    let mut p = PulseWindow::default();
    assert!(p.frequency(false).is_err());
    p.push(500_000_000, 0, 1_000_000_000);
    assert!(p.frequency(false).is_err());
}

#[test]
fn idle_old_head_to_first_current_jump_is_not_a_gap() {
    // The kernel may drop newer idle events while retaining its oldest FIFO entries.
    // Neither old sequence 2 nor the first current sequence 100 is part of a pair.
    let mut in_window_seq = None;
    assert!(!sequence_gap(&mut in_window_seq, 2, false));
    assert!(!sequence_gap(&mut in_window_seq, 100, true));
    assert!(!sequence_gap(&mut in_window_seq, 101, true));
    // The next call creates an independent measurement window.
    let mut next_window_seq = None;
    assert!(!sequence_gap(&mut next_window_seq, 500, true));
}

#[test]
fn missing_edge_between_in_window_events_invalidates_frequency() {
    let mut previous = None;
    assert!(!sequence_gap(&mut previous, 100, true));
    assert!(sequence_gap(&mut previous, 102, true));
    assert!(!sequence_gap(&mut previous, 103, true));
    let mut p = PulseWindow::default();
    p.push(100, 0, 1000);
    p.push(200, 0, 1000);
    assert!(p.frequency(true).is_err());
}

#[test]
fn every_missing_rate_says_why() {
    let mut p = PulseWindow::default();
    assert_eq!(p.frequency(false), Err(SensorError::NoPulses));
    p.push(5, 0, 10);
    assert_eq!(p.frequency(false), Err(SensorError::InsufficientPulses));
    p.push(5, 0, 10);
    assert_eq!(
        p.frequency(false),
        Err(SensorError::Other("duplicate pulse timestamps".into()))
    );
    p.push(8, 0, 10);
    assert_eq!(
        p.frequency(false),
        Ok(PulseRate {
            pulses: 2,
            span_ns: 3
        })
    );
    assert_eq!(
        p.frequency(true),
        Err(SensorError::Other(
            "GPIO edge sequence gap; possible overflow".into()
        ))
    );
}

#[test]
fn sequence_numbers_wrap_and_zero_is_missing() {
    let mut previous = Some(u32::MAX - 1);
    assert!(!sequence_gap(&mut previous, u32::MAX, true));
    assert!(sequence_gap(&mut previous, 0, true));
    assert!(!sequence_gap(&mut previous, 1, true));
}

fn edge(timestamp_ns: u64, seqno: u32, offset: u32) -> Edge {
    Edge {
        timestamp_ns,
        seqno,
        offset,
    }
}

#[test]
fn a_capture_counts_each_line_apart() {
    let mut capture = Capture::open(100, 200);
    for e in [
        edge(50, 7, 23),
        edge(100, 20, 23),
        edge(110, 21, 8),
        edge(150, 22, 23),
        edge(190, 23, 4),
        edge(200, 99, 8),
    ] {
        assert!(capture.can_record(&e));
        capture.record(&e);
    }
    assert_eq!(
        capture.rate(1),
        Ok(PulseRate {
            pulses: 1,
            span_ns: 50
        })
    );
    assert_eq!(capture.rate(2), Err(SensorError::InsufficientPulses));
    assert_eq!(capture.rate(3), Err(SensorError::NoPulses));
    capture.record(&edge(195, 25, 25));
    assert!(capture.overflow);
    assert!(capture.rate(1).is_err());
    assert!(capture.can_record(&edge(120, 26, 23)));
    capture.one.count = u64::MAX;
    assert!(!capture.can_record(&edge(120, 26, 23)));
    assert!(capture.can_record(&edge(20, 26, 23)));
}

fn hardware() -> Config {
    let sensor = |channel: u8| SensorConfig {
        channel,
        name: "Soil".into(),
        calibration: None,
        simulated_hz: Hertz {
            bits: 10.0f64.to_bits(),
        },
    };
    Config {
        device_id: "x".into(),
        name: "X".into(),
        backend: Backend::Hardware,
        sample_interval_ms: 1000,
        stale_after_ms: 2000,
        measurement_window_ms: 1000,
        gpio_chip: b"/dev/gpiochip0".to_vec(),
        hardware_confirmed: true,
        panel_enabled: false,
        pump: None,
        sensors: vec![sensor(3), sensor(1)],
        mqtt: None,
    }
}

#[test]
fn lines_follow_the_configured_channels() {
    let lines = sensor_lines(&hardware()).ok().unwrap();
    assert_eq!(lines.channels, vec![3, 1]);
    assert_eq!(lines.pins, vec![25, 23]);
    let mut config = hardware();
    config.backend = Backend::Simulated;
    let error = sensor_lines(&config).err().unwrap();
    assert_eq!(error, SourceError::Unconfirmed);
    assert_eq!(
        error.message(),
        "hardware backend and explicit hardware confirmation required"
    );
    config.sensors[0].channel = 1;
    let error = sensor_lines(&config).err().unwrap();
    assert_eq!(error, SourceError::Config(ConfigError::SensorChannel));
    assert_eq!(error.message(), ConfigError::SensorChannel.message());
}

#[test]
fn the_monotonic_clock_must_fit() {
    assert_eq!(monotonic_ns(3, 7), Some(3_000_000_007));
    assert_eq!(monotonic_ns(-1, 0), None);
    assert_eq!(monotonic_ns(0, -1), None);
    assert_eq!(monotonic_ns(18_446_744_073, 709_551_615), Some(u64::MAX));
    assert_eq!(monotonic_ns(18_446_744_073, 709_551_616), None);
    assert_eq!(monotonic_ns(i64::MAX, 0), None);
}

fn finish(measurement: Measurement) -> Vec<RateSample> {
    measurement.into_samples().unwrap()
}

fn failing(samples: &[RateSample], words: &str) {
    assert_eq!(samples.len(), 2);
    for (sample, channel) in samples.iter().zip([3, 1]) {
        assert_eq!(sample.0, channel);
        assert_eq!(sample.1, Err(SensorError::Other(words.into())));
    }
}

fn drained() -> Measurement {
    let mut measurement = Measurement::begin(vec![3, 1], 1);
    measurement.observe(Observation::Elapsed(0));
    measurement.observe(Observation::Ready(Ok(true)));
    measurement.observe(Observation::Edge(Ok(edge(1, 1, 23))));
    measurement.observe(Observation::Elapsed(5));
    measurement.observe(Observation::Ready(Ok(false)));
    assert!(matches!(measurement.stage(), Stage::Clock));
    measurement
}

#[test]
fn a_measurement_drains_then_counts_its_window() {
    let mut measurement = drained();
    measurement.observe(Observation::Clock(Ok((0, 1_000))));
    for (i, e) in [edge(900, 1, 23), edge(1_000, 50, 23), edge(501_000, 51, 23)]
        .into_iter()
        .enumerate()
    {
        measurement.observe(Observation::Elapsed(i as u128));
        match measurement.stage() {
            Stage::CollectReady { wait_ns, .. } => assert_eq!(*wait_ns, 1_000_000 - i as u128),
            _ => panic!("the window is open"),
        }
        measurement.observe(Observation::Ready(Ok(true)));
        assert!(measurement.can_observe(&Observation::Edge(Ok(e))));
        measurement.observe(Observation::Edge(Ok(e)));
    }
    measurement.observe(Observation::Elapsed(1_000_000));
    let samples = finish(measurement);
    assert_eq!(samples[0], (3, Err(SensorError::NoPulses)));
    assert_eq!(
        samples[1],
        (
            1,
            Ok(PulseRate {
                pulses: 1,
                span_ns: 500_000
            })
        )
    );
}

#[test]
fn a_quiet_window_ends_the_measurement() {
    let mut measurement = drained();
    measurement.observe(Observation::Clock(Ok((1, 0))));
    measurement.observe(Observation::Elapsed(0));
    measurement.observe(Observation::Ready(Ok(false)));
    assert_eq!(finish(measurement)[0].1, Err(SensorError::NoPulses));
}

#[test]
fn a_drain_is_bounded_in_time_and_number() {
    let mut measurement = Measurement::begin(vec![3, 1], 1);
    measurement.observe(Observation::Elapsed(100_000_000));
    failing(
        &finish(measurement),
        "GPIO old-event drain exceeded 100 ms",
    );
    let mut measurement = Measurement::begin(vec![3, 1], 1);
    for _ in 0..4096 {
        measurement.observe(Observation::Elapsed(0));
        measurement.observe(Observation::Ready(Ok(true)));
        measurement.observe(Observation::Edge(Ok(edge(1, 1, 23))));
    }
    measurement.observe(Observation::Elapsed(100_000_000));
    failing(
        &finish(measurement),
        "GPIO old-event drain exceeded 4096 events",
    );
}

#[test]
fn every_failure_reaches_every_channel() {
    let lost = || String::from("lost");
    let mut measurement = Measurement::begin(vec![3, 1], 1);
    measurement.observe(Observation::Elapsed(0));
    measurement.observe(Observation::Ready(Err(lost())));
    failing(&finish(measurement), "GPIO old-event drain failed: lost");
    let mut measurement = Measurement::begin(vec![3, 1], 1);
    measurement.observe(Observation::Elapsed(0));
    measurement.observe(Observation::Ready(Ok(true)));
    measurement.observe(Observation::Edge(Err(lost())));
    failing(&finish(measurement), "GPIO old-event drain failed: lost");
    let mut measurement = drained();
    measurement.observe(Observation::Clock(Err(lost())));
    failing(&finish(measurement), "CLOCK_MONOTONIC failed: lost");
    let mut measurement = drained();
    measurement.observe(Observation::Clock(Ok((-1, 0))));
    failing(&finish(measurement), "invalid CLOCK_MONOTONIC timestamp");
    let mut measurement = drained();
    measurement.observe(Observation::Clock(Ok((0, 0))));
    measurement.observe(Observation::Elapsed(0));
    measurement.observe(Observation::Ready(Err(lost())));
    failing(&finish(measurement), "GPIO edge read failed: lost");
    let mut measurement = drained();
    measurement.observe(Observation::Clock(Ok((0, 0))));
    measurement.observe(Observation::Elapsed(0));
    measurement.observe(Observation::Ready(Ok(true)));
    measurement.observe(Observation::Edge(Err(lost())));
    failing(&finish(measurement), "GPIO edge read failed: lost");
}

#[test]
fn an_observation_that_is_not_waited_for_changes_nothing() {
    let mut measurement = Measurement::begin(vec![1], 1);
    measurement.observe(Observation::Ready(Ok(true)));
    measurement.observe(Observation::Clock(Ok((0, 0))));
    assert!(matches!(measurement.stage(), Stage::DrainTime { events: 0 }));
    assert!(measurement.into_samples().is_none());
}

#[test]
fn edges_need_not_come_in_order() {
    let mut measurement = drained();
    measurement.observe(Observation::Clock(Ok((0, 0))));
    for (i, time) in [200, 100, 300].into_iter().enumerate() {
        measurement.observe(Observation::Elapsed(0));
        measurement.observe(Observation::Ready(Ok(true)));
        let read = Observation::Edge(Ok(edge(time, 7 + i as u32, 23)));
        assert!(measurement.can_observe(&read));
        measurement.observe(read);
    }
    let end = Observation::Elapsed(1_000_000);
    assert!(measurement.can_observe(&end));
    measurement.observe(end);
    assert_eq!(
        finish(measurement)[1],
        (
            1,
            Ok(PulseRate {
                pulses: 2,
                span_ns: 100
            })
        )
    );
}

#[test]
fn only_a_last_edge_before_the_first_has_no_rate() {
    let mut capture = Capture::open(0, 1_000);
    capture.record(&edge(300, 5, 23));
    capture.record(&edge(200, 6, 23));
    assert!(!capture.can_rate(1));
    assert!(capture.can_rate(2));
    capture.record(&edge(400, 8, 8));
    assert!(capture.can_rate(1));
    assert!(capture.rate(1).is_err());
    let mut window = PulseWindow::default();
    window.push(9, 0, 10);
    window.push(4, 0, 10);
    assert!(!window.is_measurable(false));
    assert!(window.is_measurable(true));
}
