//! Pump requests, their ledger and their pulses.
use growhat::config::{Backend, Config, Hertz, PumpConfig, SensorConfig};
use growhat::pulse::{
    execute, execute_local, LedgerRead, PumpDriver, PumpEvent, PumpPhase, PumpRun,
};
use growhat::pump::{
    now_ms, reserve, valid_id, validate, Ledger, LedgerEntry, PumpCommand, PumpError, PumpOutcome,
    Reservation, DAY_MS, MAX_DEBUG_PULSE_MS,
};
use growhat::pwm::{pump_pin, Pwm, PwmAction};
use std::cell::Cell;

struct CountingDriver(Cell<usize>);

impl PumpDriver for CountingDriver {
    fn pulse(&self, _channel: u8, _duty: u8, _duration_ms: u64) -> Result<(), PumpError> {
        self.0.set(self.0.get() + 1);
        Ok(())
    }
}

struct FailingDriver;

impl PumpDriver for FailingDriver {
    fn pulse(&self, channel: u8, duty: u8, duration_ms: u64) -> Result<(), PumpError> {
        Err(PumpError::Failed(format!("{channel} {duty} {duration_ms}")))
    }
}

/// What is kept between requests.
enum State {
    Empty,
    Stored(Ledger),
    Corrupt,
}

const NOW_MS: u128 = 1_700_000_000_000;

fn finish(
    begun: Result<PumpRun<'_>, PumpError>,
    state: &mut State,
    now_ms: u128,
    driver: &impl PumpDriver,
) -> Result<PumpOutcome, PumpError> {
    let mut run = begun?;
    loop {
        let event = match run.phase() {
            PumpPhase::Lock => PumpEvent::Lock(Ok(())),
            PumpPhase::Clock => PumpEvent::Clock(Some(now_ms)),
            PumpPhase::ReadLedger { .. } => PumpEvent::Ledger(match state {
                State::Empty => LedgerRead::Missing,
                State::Stored(ledger) => LedgerRead::Found(ledger.clone()),
                State::Corrupt => LedgerRead::Invalid,
            }),
            PumpPhase::WriteLedger { ledger } => {
                *state = State::Stored(ledger.clone());
                PumpEvent::Write(Ok(()))
            }
            PumpPhase::Pulse => {
                run.drive(driver);
                continue;
            }
            PumpPhase::Finished(result) => return result.clone(),
        };
        run.advance(event);
    }
}

fn config(pump: PumpConfig) -> Config {
    Config {
        device_id: "growhat_demo".into(),
        name: "Demo".into(),
        backend: Backend::Hardware,
        sample_interval_ms: 5_000,
        stale_after_ms: 15_000,
        measurement_window_ms: 1_000,
        gpio_chip: b"/dev/gpiochip0".to_vec(),
        hardware_confirmed: true,
        panel_enabled: false,
        sensors: vec![SensorConfig {
            channel: 1,
            name: "Soil".into(),
            calibration: None,
            simulated_hz: Hertz {
                bits: 10.0f64.to_bits(),
            },
        }],
        mqtt: None,
        pump: Some(pump),
    }
}

fn limits(max_total_ms_per_24h: u64, debug_mode: bool) -> PumpConfig {
    PumpConfig {
        enabled: true,
        channels: vec![1],
        max_duration_ms: 2_000,
        max_total_ms_per_24h,
        debug_mode,
        state_file: b"pump.json".to_vec(),
        mqtt_token_file: None,
    }
}

#[test]
fn duplicate_and_budget_do_not_reactivate() {
    let mut state = State::Empty;
    let mut config = config(limits(2_000, false));
    let driver = CountingDriver(Cell::new(0));
    let mut command = PumpCommand {
        request_id: "first".into(),
        channel: 1,
        duty_percent: 50,
        duration_ms: 1_000,
    };
    assert_eq!(
        finish(execute(&config, &command), &mut state, NOW_MS, &driver).unwrap(),
        PumpOutcome::Completed
    );
    assert_eq!(
        finish(execute(&config, &command), &mut state, NOW_MS, &driver).unwrap(),
        PumpOutcome::Duplicate
    );
    command.request_id = "second".into();
    assert_eq!(
        finish(execute(&config, &command), &mut state, NOW_MS, &driver).unwrap(),
        PumpOutcome::Completed
    );
    command.request_id = "third".into();
    assert!(finish(execute(&config, &command), &mut state, NOW_MS, &driver).is_err());
    config.pump.as_mut().unwrap().debug_mode = true;
    assert!(finish(execute(&config, &command), &mut state, NOW_MS, &driver).is_err());
    assert_eq!(
        finish(execute_local(&config, &command), &mut state, NOW_MS, &driver).unwrap(),
        PumpOutcome::Completed
    );
    command.request_id = "fourth".into();
    assert!(finish(execute(&config, &command), &mut state, NOW_MS, &driver).is_err());
    assert_eq!(driver.0.get(), 3);
}

#[test]
fn invalid_and_corrupt_state_fail_before_gpio() {
    let mut state = State::Empty;
    let config = config(limits(4_000, false));
    let driver = CountingDriver(Cell::new(0));
    let mut command = PumpCommand {
        request_id: "safe".into(),
        channel: 2,
        duty_percent: 50,
        duration_ms: 1_000,
    };
    assert!(finish(execute(&config, &command), &mut state, NOW_MS, &driver).is_err());
    command.channel = 1;
    command.duty_percent = 0;
    assert!(finish(execute(&config, &command), &mut state, NOW_MS, &driver).is_err());
    command.duty_percent = 50;
    command.duration_ms = 2_001;
    assert!(finish(execute(&config, &command), &mut state, NOW_MS, &driver).is_err());
    command.duration_ms = 1_000;
    state = State::Corrupt;
    assert_eq!(
        finish(execute(&config, &command), &mut state, NOW_MS, &driver),
        Err(PumpError::StateInvalid)
    );
    assert_eq!(driver.0.get(), 0);
}

#[test]
fn local_debug_ignores_configured_pulse_limit_but_has_finite_cutoff() {
    let mut state = State::Empty;
    let config = config(limits(2_000, true));
    let driver = CountingDriver(Cell::new(0));
    let mut command = PumpCommand {
        request_id: "debug-long".into(),
        channel: 1,
        duty_percent: 90,
        duration_ms: 10_000,
    };
    assert!(finish(execute(&config, &command), &mut state, NOW_MS, &driver).is_err());
    assert_eq!(
        finish(execute_local(&config, &command), &mut state, NOW_MS, &driver).unwrap(),
        PumpOutcome::Completed
    );
    command.request_id = "too-long".into();
    command.duration_ms = MAX_DEBUG_PULSE_MS + 1;
    assert!(finish(execute_local(&config, &command), &mut state, NOW_MS, &driver).is_err());
    assert_eq!(driver.0.get(), 1);
}

fn command(id: &str, duration_ms: u64) -> PumpCommand {
    PumpCommand {
        request_id: id.into(),
        channel: 1,
        duty_percent: 50,
        duration_ms,
    }
}

#[test]
fn every_refusal_has_its_error() {
    let good = command("a", 1_000);
    let mut c = config(limits(2_000, false));
    assert!(validate(&c, &good).is_ok());
    c.pump = None;
    assert_eq!(validate(&c, &good).err(), Some(PumpError::NotConfigured));
    c = config(limits(2_000, false));
    c.pump.as_mut().unwrap().enabled = false;
    assert_eq!(validate(&c, &good).err(), Some(PumpError::Disabled));
    c = config(limits(2_000, false));
    c.backend = Backend::Simulated;
    assert_eq!(
        validate(&c, &good).err(),
        Some(PumpError::UnconfirmedHardware)
    );
    c = config(limits(2_000, false));
    let mut bad = good.clone();
    bad.channel = 3;
    assert_eq!(validate(&c, &bad).err(), Some(PumpError::ChannelNotEnabled));
    assert_eq!(
        validate(&c, &command("two words", 1)).err(),
        Some(PumpError::RequestId)
    );
    let mut bad = good.clone();
    bad.duty_percent = 91;
    assert_eq!(validate(&c, &bad).err(), Some(PumpError::Duty));
    assert_eq!(
        validate(&c, &command("a", 0)).err(),
        Some(PumpError::Duration)
    );
    assert_eq!(
        PumpError::Duration.message(),
        "duration_ms exceeds configured maximum"
    );
    assert_eq!(PumpError::Failed("no line".into()).message(), "no line");
}

#[test]
fn identifiers_are_short_and_plain() {
    assert!(valid_id("A-z_09"));
    assert!(valid_id(&"x".repeat(64)));
    for bad in ["", "a b", "\u{e9}", "a/b"] {
        assert!(!valid_id(bad));
    }
    assert!(!valid_id(&"x".repeat(65)));
}

#[test]
fn the_wall_clock_must_be_in_range() {
    assert_eq!(now_ms(Some(5)), Ok(5));
    assert_eq!(now_ms(None), Err(PumpError::ClockBeforeEpoch));
    assert_eq!(
        now_ms(Some(u64::MAX as u128 + 1)),
        Err(PumpError::ClockOutOfRange)
    );
}

fn entry(id: &str, at_ms: u64, duration_ms: u64) -> LedgerEntry {
    LedgerEntry {
        request_id: id.into(),
        at_ms,
        duration_ms,
    }
}

#[test]
fn the_budget_rolls_over_a_day() {
    let pump = limits(2_000, false);
    let ledger = Ledger {
        entries: vec![entry("old", 0, 1_500), entry("new", 1_000, 500)],
        past_ids: vec!["older".into()],
    };
    assert_eq!(
        reserve(&pump, &command("c", 1), &ledger, DAY_MS - 1, false).err(),
        Some(PumpError::BudgetReached)
    );
    let granted = match reserve(&pump, &command("c", 1_500), &ledger, DAY_MS, false) {
        Ok(Reservation::Granted(ledger)) => ledger,
        _ => panic!("the old entry no longer counts"),
    };
    assert_eq!(granted.entries.len(), 2);
    assert_eq!(granted.entries[0].request_id, "new");
    assert_eq!(granted.entries[1].request_id, "c");
    assert_eq!(granted.entries[1].at_ms, DAY_MS);
    assert_eq!(granted.entries[1].duration_ms, 1_500);
    assert_eq!(granted.past_ids, vec!["older", "old"]);
}

#[test]
fn an_identifier_is_remembered_for_good() {
    let pump = limits(2_000, false);
    let ledger = Ledger {
        entries: vec![entry("old", 0, 1_500), entry("new", 1_000, 500)],
        past_ids: vec!["older".into()],
    };
    for id in ["older", "old", "new"] {
        for at_ms in [0, DAY_MS - 1, DAY_MS, 365 * DAY_MS, u64::MAX] {
            assert!(matches!(
                reserve(&pump, &command(id, 1), &ledger, at_ms, true),
                Ok(Reservation::Duplicate)
            ));
        }
    }
    let config = config(limits(2_000, true));
    let request = command("a", 1_000);
    let driver = CountingDriver(Cell::new(0));
    let mut state = State::Empty;
    let mut now = NOW_MS;
    for (id, outcome) in [
        ("a", PumpOutcome::Completed),
        ("b", PumpOutcome::Completed),
        ("c", PumpOutcome::Completed),
        ("a", PumpOutcome::Duplicate),
        ("b", PumpOutcome::Duplicate),
    ] {
        let asked = PumpCommand {
            request_id: id.into(),
            ..request.clone()
        };
        assert_eq!(
            finish(execute_local(&config, &asked), &mut state, now, &driver),
            Ok(outcome)
        );
        now += 2 * DAY_MS as u128;
    }
    assert_eq!(driver.0.get(), 3);
}

#[test]
fn durations_never_overflow() {
    let pump = limits(u64::MAX, false);
    let ledger = Ledger {
        entries: vec![entry("a", 5, u64::MAX), entry("b", u64::MAX, u64::MAX)],
        past_ids: vec![],
    };
    assert!(matches!(
        reserve(&pump, &command("c", 7), &ledger, 6, false),
        Ok(Reservation::Granted(_))
    ));
}

#[test]
fn a_failure_on_the_way_prevents_the_pulse() {
    let config = config(limits(2_000, false));
    let request = command("a", 1_000);
    let driver = CountingDriver(Cell::new(0));
    let failures = [
        vec![PumpEvent::Lock(Err(PumpError::Busy))],
        vec![PumpEvent::Lock(Ok(())), PumpEvent::Clock(None)],
        vec![
            PumpEvent::Lock(Ok(())),
            PumpEvent::Clock(Some(1)),
            PumpEvent::Ledger(LedgerRead::Unreadable),
        ],
        vec![
            PumpEvent::Lock(Ok(())),
            PumpEvent::Clock(Some(1)),
            PumpEvent::Ledger(LedgerRead::Missing),
            PumpEvent::Write(Err(PumpError::Failed("disk full".into()))),
        ],
    ];
    let expected = [
        "another pump pulse is running",
        "system clock precedes Unix epoch",
        "read pump state",
        "disk full",
    ];
    for (events, words) in failures.into_iter().zip(expected) {
        let mut run = execute(&config, &request).ok().unwrap();
        for event in events {
            run.drive(&driver);
            run.advance(event);
        }
        run.drive(&driver);
        run.advance(PumpEvent::Write(Ok(())));
        run.drive(&driver);
        match run.phase() {
            PumpPhase::Finished(Err(error)) => assert_eq!(error.message(), words),
            _ => panic!("the run is over"),
        }
    }
    assert_eq!(driver.0.get(), 0);
}

#[test]
fn a_failed_pulse_still_consumes_its_budget() {
    let config = config(limits(1_000, false));
    let request = command("a", 1_000);
    let mut state = State::Empty;
    assert_eq!(
        finish(execute(&config, &request), &mut state, NOW_MS, &FailingDriver),
        Err(PumpError::Failed("1 50 1000".into()))
    );
    let other = command("b", 1);
    assert_eq!(
        finish(execute(&config, &other), &mut state, NOW_MS, &FailingDriver),
        Err(PumpError::BudgetReached)
    );
    assert_eq!(
        finish(execute(&config, &request), &mut state, NOW_MS, &FailingDriver),
        Ok(PumpOutcome::Duplicate)
    );
}

#[test]
fn outputs_have_their_lines() {
    assert_eq!([pump_pin(1), pump_pin(2), pump_pin(3)], [17, 27, 22]);
}

#[test]
fn a_pulse_is_modulated_until_its_deadline() {
    let mut pwm = Pwm::new(30, 14);
    assert_eq!((pwm.high_ns, pwm.low_ns), (3_000_000, 7_000_000));
    assert_eq!(pwm.step(0), PwmAction::Raise);
    assert_eq!(pwm.step(10), PwmAction::Wait(3_000_000));
    assert_eq!(pwm.step(3_000_010), PwmAction::Lower);
    assert_eq!(pwm.step(3_000_020), PwmAction::Wait(7_000_000));
    assert_eq!(pwm.step(10_000_030), PwmAction::Raise);
    assert_eq!(pwm.step(12_000_000), PwmAction::Wait(2_000_000));
    assert_eq!(pwm.step(14_000_000), PwmAction::Lower);
    assert_eq!(pwm.step(14_000_001), PwmAction::Stop);
    assert_eq!(pwm.step(0), PwmAction::Stop);
    let mut late = Pwm::new(90, 1);
    assert_eq!(late.step(1_000_000), PwmAction::Stop);
}

#[test]
fn a_pulse_that_is_given_up_ends_low() {
    let mut raised = Pwm::new(30, 14);
    assert_eq!(raised.step(0), PwmAction::Raise);
    assert_eq!(raised.give_up(), PwmAction::Lower);
    assert_eq!(raised.step(1), PwmAction::Stop);
    assert_eq!((raised.high_ns, raised.low_ns), (3_000_000, 7_000_000));
    assert_eq!(raised.deadline_ns, 14_000_000);
    let mut unstarted = Pwm::new(30, 14);
    assert_eq!(unstarted.give_up(), PwmAction::Lower);
    assert_eq!(unstarted.step(0), PwmAction::Stop);
}

#[test]
fn a_pulse_of_no_length_is_never_raised() {
    let mut pwm = Pwm::new(90, 0);
    assert_eq!(pwm.step(0), PwmAction::Stop);
    assert_eq!(pwm.give_up(), PwmAction::Lower);
}

#[test]
fn raises_and_lowerings_take_turns() {
    let mut pwm = Pwm::new(50, 100);
    let mut high = false;
    let mut now = 0;
    loop {
        match pwm.step(now) {
            PwmAction::Raise => {
                assert!(!high);
                high = true;
            }
            PwmAction::Lower => {
                assert!(high);
                high = false;
            }
            PwmAction::Wait(ns) => {
                assert!(ns <= 5_000_000);
                now += ns;
            }
            PwmAction::Stop => break,
        }
    }
    assert!(!high);
    assert_eq!(now, 100_000_000);
}
