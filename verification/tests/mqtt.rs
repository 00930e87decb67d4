//! Requests, answers, announcements and the conversation with the broker.
use growhat::batch::{
    age_readings, all_healthy, current_readings, health, rest_of_interval, same_health, Batch,
};
use growhat::board::{text_before, ButtonBoard};
use growhat::button::ButtonEvent;
use growhat::config::{Backend, Calibration, Config, Hertz, MqttConfig, PumpConfig, SensorConfig};
use growhat::discovery::{announce, availability_message, discovery};
use growhat::panel::PanelCommand;
use growhat::pump::{PumpError, PumpOutcome};
use growhat::request::{
    after_queue, display_ack, display_command, handle_display, handle_pump, handle_virtual_press,
    message_from, press_ack, pump_ack, pump_readable, pump_reply, pump_token_valid, queued_reply,
    DisplayFields, DisplayReply, DisplayStep, PumpMqttRequest, PumpReply, PumpStatus, RequestError,
    TtlField,
};
use growhat::sensor::{Moisture, ReadingStatus, SensorReading};
use growhat::session::{options, route, ConnectionError, Route, Session};
use growhat::topic::{base, text_between, Delivery};
use serde_json::Value;
use std::sync::mpsc::{sync_channel, SyncSender};

const MS: u128 = 1_000_000;

fn hz(value: f64) -> Hertz {
    Hertz {
        bits: value.to_bits(),
    }
}

fn broker() -> MqttConfig {
    MqttConfig {
        host: "localhost".into(),
        port: 1883,
        topic_prefix: "growhat".into(),
        discovery_prefix: "homeassistant".into(),
        username: None,
        password_file: None,
    }
}

fn config() -> Config {
    Config {
        device_id: "growhat_demo".into(),
        name: "Demo".into(),
        backend: Backend::Simulated,
        sample_interval_ms: 5_000,
        stale_after_ms: 15_000,
        measurement_window_ms: 1_000,
        gpio_chip: b"/dev/gpiochip0".to_vec(),
        hardware_confirmed: false,
        panel_enabled: false,
        sensors: vec![SensorConfig {
            channel: 1,
            name: "Soil".into(),
            calibration: None,
            simulated_hz: hz(10.0),
        }],
        mqtt: Some(broker()),
        pump: None,
    }
}

fn reading(status: ReadingStatus) -> SensorReading {
    SensorReading {
        channel: 1,
        raw_hz: Some(hz(10.0)),
        moisture_percent: None,
        status,
        age_ms: Some(500),
        error: None,
    }
}

fn batch(status: ReadingStatus) -> Batch {
    Batch {
        captured_at_ns: 0,
        readings: vec![reading(status)],
    }
}

fn json(bytes: &[u8]) -> Value {
    serde_json::from_slice(bytes).unwrap()
}

fn message_text(payload: &[u8]) -> Result<(String, u64), RequestError> {
    match display_command(payload)? {
        PanelCommand::Message { text, ttl_seconds } => Ok((text, ttl_seconds)),
        _ => panic!("only messages come from here"),
    }
}

#[test]
fn display_commands_enforce_json_and_bounds() {
    assert!(matches!(
        display_command(br#"{"text":"Water me"}"#).unwrap(),
        PanelCommand::Message {
            ttl_seconds: 30,
            ..
        }
    ));
    for payload in [
        br#"{"text":""}"#.as_slice(),
        br#"{"text":"ok","ttl_seconds":0}"#,
        br#"{"text":"ok","ttl_seconds":301}"#,
        br#"{"text":"ok","extra":1}"#,
        br#"{"text":"bad\ttext"}"#,
        br#"{"text":"\u00e9"}"#,
        b"not JSON",
    ] {
        assert!(display_command(payload).is_err());
    }
    let too_long = format!("{{\"text\":\"{}\"}}", "x".repeat(121));
    assert!(display_command(too_long.as_bytes()).is_err());
    let escaped = "\\\"".repeat(60);
    let mut members = serde_json::Map::new();
    members.insert("text".into(), Value::from(escaped));
    members.insert("ttl_seconds".into(), Value::from(30));
    let payload = serde_json::to_vec(&Value::Object(members)).unwrap();
    assert!(payload.len() > 256);
    assert!(
        matches!(display_command(&payload).unwrap(), PanelCommand::Message { text, .. } if text.len() == 120)
    );
    assert!(display_command(&vec![b' '; 513]).is_err());
}

#[test]
fn every_display_error_is_told_apart() {
    for (payload, error) in [
        (vec![b' '; 513], RequestError::TooLarge),
        (b"{".to_vec(), RequestError::InvalidJson),
        (b"[1]".to_vec(), RequestError::NotAnObject),
        (br#"{"text":"a","x":1}"#.to_vec(), RequestError::UnknownField),
        (br#"{"text":5}"#.to_vec(), RequestError::TextType),
        (b"{}".to_vec(), RequestError::TextType),
        (br#"{"text":"\u0007"}"#.to_vec(), RequestError::TextBounds),
        (
            br#"{"text":"a","ttl_seconds":1.5}"#.to_vec(),
            RequestError::TtlType,
        ),
        (
            br#"{"text":"a","ttl_seconds":-1}"#.to_vec(),
            RequestError::TtlType,
        ),
        (
            br#"{"text":"a","ttl_seconds":null}"#.to_vec(),
            RequestError::TtlType,
        ),
        (
            br#"{"text":"a","ttl_seconds":301}"#.to_vec(),
            RequestError::TtlRange,
        ),
    ] {
        assert_eq!(message_text(&payload), Err(error));
    }
    assert_eq!(
        message_text(br#"{"ttl_seconds":300,"text":"a\nb~"}"#),
        Ok(("a\nb~".into(), 300))
    );
    assert_eq!(
        RequestError::TextBounds.message(),
        "text must be 1..120 printable ASCII bytes or newlines"
    );
}

#[test]
fn fields_become_a_message() {
    let fields = DisplayFields {
        names: vec!["text".into()],
        text: Some("hi".into()),
        ttl_seconds: TtlField::Absent,
    };
    assert!(matches!(
        message_from(fields),
        Ok(PanelCommand::Message { text, ttl_seconds: 30 }) if text == "hi"
    ));
    let fields = DisplayFields {
        names: vec!["text".into(), "colour".into()],
        text: Some("hi".into()),
        ttl_seconds: TtlField::Seconds(5),
    };
    assert_eq!(message_from(fields).err(), Some(RequestError::UnknownField));
}

fn show(
    config: &Config,
    payload: &[u8],
    retain: bool,
    sender: &SyncSender<PanelCommand>,
) -> DisplayReply {
    match handle_display(config, payload, retain) {
        DisplayStep::Reply(reply) => reply,
        DisplayStep::Queue { command, text } => {
            queued_reply(text, sender.try_send(command).is_ok())
        }
    }
}

#[test]
fn a_queue_attempt_is_answered_with_the_text() {
    let reply = queued_reply("Water me".into(), true);
    assert_eq!(reply.text.as_deref(), Some("Water me"));
    assert_eq!(reply.reason, None);
    let reply = queued_reply("Water me".into(), false);
    assert_eq!(reply.text.as_deref(), Some("Water me"));
    assert_eq!(reply.reason.as_deref(), Some("panel queue unavailable"));
}

#[test]
fn display_ack_only_accepts_queued_nonretained_command() {
    let mut config = config();
    config.panel_enabled = true;
    let (sender, receiver) = sync_channel(1);
    show(&config, br#"{"text":"Water me"}"#, false, &sender);
    assert!(matches!(
        receiver.try_recv().unwrap(),
        PanelCommand::Message {
            ttl_seconds: 30,
            ..
        }
    ));
    show(&config, br#"{"text":"ignored"}"#, true, &sender);
    assert!(receiver.try_recv().is_err());
    let mut members = serde_json::Map::new();
    members.insert(
        "text".into(),
        Value::from(format!("\n{}", "x".repeat(119))),
    );
    let overflow = serde_json::to_vec(&Value::Object(members)).unwrap();
    show(&config, &overflow, false, &sender);
    assert!(receiver.try_recv().is_err());
    show(&config, br#"{"text":"first"}"#, false, &sender);
    show(&config, br#"{"text":"second"}"#, false, &sender);
    assert!(
        matches!(receiver.try_recv().unwrap(), PanelCommand::Message { text, .. } if text == "first")
    );
    assert!(receiver.try_recv().is_err());
}

#[test]
fn display_answers_give_the_reason() {
    let mut config = config();
    let (sender, _receiver) = sync_channel(0);
    let told = |config: &Config, payload: &[u8], retain: bool| {
        let message = display_ack(config, &show(config, payload, retain, &sender));
        assert_eq!(message.topic, "growhat/growhat_demo/display/ack");
        assert_eq!(message.delivery, Delivery::AtMostOnce);
        assert!(!message.retain);
        json(&message.body)
    };
    let answer = told(&config, b"nope", false);
    assert_eq!(answer["accepted"], false);
    assert_eq!(answer["status"], "rejected");
    assert!(answer["text"].is_null());
    assert_eq!(answer["reason"], "invalid command JSON");
    let answer = told(&config, br#"{"text":"hi"}"#, false);
    assert_eq!(answer["reason"], "panel disabled");
    assert_eq!(answer["text"], "hi");
    config.panel_enabled = true;
    let answer = told(&config, br#"{"text":"hi"}"#, true);
    assert_eq!(answer["reason"], "retained commands are not accepted");
    let answer = told(&config, br#"{"text":"hi"}"#, false);
    assert_eq!(answer["reason"], "panel queue unavailable");
    let answer = told(&config, br#"{"text":"\n\n\n\n\n"}"#, false);
    assert_eq!(answer["reason"], "text exceeds display capacity");
    let accepted = DisplayReply {
        text: Some("hi".into()),
        reason: None,
    };
    assert_eq!(
        display_ack(&config, &accepted).body,
        br#"{"accepted":true,"reason":null,"status":"queued","text":"hi"}"#
    );
}

#[test]
fn remote_button_only_queues_nonretained_press() {
    let mut config = config();
    config.panel_enabled = true;
    let (sender, receiver) = sync_channel(1);
    let press = |payload: &[u8], retain: bool| {
        if let Ok(command) = handle_virtual_press(&config, "A", payload, retain) {
            sender.try_send(command).unwrap();
        }
    };
    press(b"PRESS", false);
    assert!(
        matches!(receiver.try_recv().unwrap(), PanelCommand::VirtualPress { button } if button == "A")
    );
    press(b"PRESS", true);
    press(b"press", false);
    assert!(receiver.try_recv().is_err());
}

#[test]
fn press_answers_give_the_reason() {
    let mut config = config();
    assert_eq!(
        handle_virtual_press(&config, "Q", b"PRESS", false).err().unwrap(),
        "unknown button"
    );
    assert_eq!(
        handle_virtual_press(&config, "A", b"PRESS", false).err().unwrap(),
        "panel disabled"
    );
    config.panel_enabled = true;
    assert_eq!(
        handle_virtual_press(&config, "A", b"", false).err().unwrap(),
        "retained or invalid button command"
    );
    let message = press_ack(&config, "A", &after_queue(false));
    assert_eq!(message.topic, "growhat/growhat_demo/buttons/A/press/ack");
    assert_eq!(
        message.body,
        br#"{"accepted":false,"reason":"panel queue unavailable"}"#
    );
    assert_eq!(
        press_ack(&config, "A", &after_queue(true)).body,
        br#"{"accepted":true,"reason":null}"#
    );
}

const TOKEN: &str = "0123456789abcdef0123456789abcdef";

fn with_pump() -> Config {
    let mut config = config();
    config.backend = Backend::Hardware;
    config.hardware_confirmed = true;
    config.pump = Some(PumpConfig {
        enabled: true,
        channels: vec![1],
        max_duration_ms: 2_000,
        max_total_ms_per_24h: 4_000,
        debug_mode: true,
        state_file: b"pump.json".to_vec(),
        mqtt_token_file: Some(b"token".to_vec()),
    });
    config
}

fn request(duration_ms: u64, token: &str) -> Option<PumpMqttRequest> {
    Some(PumpMqttRequest {
        request_id: "unique-id".into(),
        channel: 1,
        duty_percent: 50,
        duration_ms,
        token: token.into(),
    })
}

fn refused(
    config: &Config,
    retain: bool,
    request: Option<PumpMqttRequest>,
    stored: &Option<String>,
) -> (Option<String>, String) {
    let reply = handle_pump(config, b"{}", retain, request, stored)
        .err()
        .unwrap();
    assert_eq!(reply.status, PumpStatus::Rejected);
    (reply.request_id, reply.reason.unwrap())
}

#[test]
fn pump_requests_need_the_token_and_keep_the_limits() {
    let config = with_pump();
    let stored = Some(format!("{TOKEN}\r\n\n"));
    let command = handle_pump(&config, b"{}", false, request(1_000, TOKEN), &stored)
        .ok()
        .unwrap();
    assert_eq!(command.request_id, "unique-id");
    assert_eq!(command.duration_ms, 1_000);
    let id = Some(String::from("unique-id"));
    assert_eq!(
        refused(&config, true, request(1_000, TOKEN), &stored),
        (None, "retained or oversized command".into())
    );
    assert_eq!(
        refused(&config, false, None, &stored),
        (None, "invalid command JSON".into())
    );
    assert_eq!(
        refused(&config, false, request(1_000, "guess"), &stored),
        (id.clone(), "unauthorised".into())
    );
    assert_eq!(
        refused(&config, false, request(1_000, TOKEN), &None),
        (id.clone(), "unauthorised".into())
    );
    assert_eq!(
        refused(&config, false, request(2_001, TOKEN), &stored),
        (id, "duration_ms exceeds configured maximum".into())
    );
    assert!(handle_pump(
        &config,
        &[b' '; 513],
        false,
        request(1_000, TOKEN),
        &stored
    )
    .is_err());
    assert!(pump_readable(&[b' '; 512], false));
    assert!(!pump_readable(&[b' '; 513], false));
    assert!(!pump_readable(b"", true));
}

#[test]
fn tokens_are_long_and_exact() {
    let config = with_pump();
    let valid = |stored: &str, token: &str| {
        pump_token_valid(&config, &Some(stored.to_owned()), token)
    };
    assert!(valid(TOKEN, TOKEN));
    assert!(valid(&format!("{TOKEN}\n"), TOKEN));
    assert!(!valid(TOKEN, &TOKEN[1..]));
    assert!(!valid(TOKEN, &TOKEN.replace("f", "g")));
    assert!(!valid(&TOKEN[1..], &TOKEN[1..]));
    assert!(!valid(&format!(" {TOKEN}"), TOKEN));
    let wide = "\u{e9}".repeat(32);
    assert!(valid(&wide, &wide));
    assert!(!valid(&wide[2..], &wide[2..]));
    let mut bare = with_pump();
    bare.pump.as_mut().unwrap().mqtt_token_file = None;
    assert!(!pump_token_valid(&bare, &Some(TOKEN.into()), TOKEN));
}

#[test]
fn pump_answers_tell_how_it_ended() {
    let config = with_pump();
    let told = |reply: &PumpReply| {
        let message = pump_ack(&config, reply);
        assert_eq!(message.topic, "growhat/growhat_demo/pump/ack");
        assert!(!message.retain);
        String::from_utf8(message.body).unwrap()
    };
    assert_eq!(
        told(&pump_reply("a", &Ok(PumpOutcome::Completed))),
        r#"{"reason":null,"request_id":"a","status":"completed"}"#
    );
    assert_eq!(
        told(&pump_reply("a", &Ok(PumpOutcome::Duplicate))),
        r#"{"reason":null,"request_id":"a","status":"duplicate"}"#
    );
    assert_eq!(
        told(&pump_reply("a", &Err(PumpError::BudgetReached))),
        r#"{"reason":"pump 24-hour duration limit reached","request_id":"a","status":"rejected"}"#
    );
}

fn event(button: &str, pressed: bool, count: u64) -> ButtonEvent {
    ButtonEvent {
        button: button.into(),
        pressed,
        count,
    }
}

#[test]
fn reconnect_coalesces_button_backlog_to_latest_state() {
    let mut backlog: Vec<ButtonEvent> = [(true, 1), (false, 1), (true, 2)]
        .into_iter()
        .map(|(pressed, count)| event("A", pressed, count))
        .collect();
    backlog.push(event("B", false, 0));
    let mut config = config();
    config.panel_enabled = true;
    let mut session = Session::new();
    session.connect(&config, backlog, true, &batch(ReadingStatus::Valid), 0);
    let states = &session.board;
    assert_eq!(states.len(), 2);
    assert_eq!(states.get("A").unwrap().count, 2);
    assert!(states.get("A").unwrap().pressed);
    assert!(!states.get("B").unwrap().pressed);
    assert!(session.events_open);
}

#[test]
fn a_board_keeps_names_in_order() {
    let mut board = ButtonBoard::new();
    for (i, name) in ["X", "A", "Y", "B", "A", "\u{e9}", "AA", ""].into_iter().enumerate() {
        board.insert(event(name, true, i as u64));
    }
    let names: Vec<&str> = (0..board.len()).map(|i| board.at(i).button.as_str()).collect();
    let mut sorted = names.clone();
    sorted.sort();
    assert_eq!(names, sorted);
    assert_eq!(names, vec!["", "A", "AA", "B", "X", "Y", "\u{e9}"]);
    assert_eq!(board.get("A").unwrap().count, 4);
    assert!(board.get("Q").is_none());
    for (a, b) in [("a", "b"), ("a", "ab"), ("", "a"), ("z", "\u{e9}"), ("b", "ab")] {
        assert_eq!(text_before(a, b), a < b);
        assert_eq!(text_before(b, a), b < a);
    }
    assert!(!text_before("same", "same"));
}

#[test]
fn delayed_snapshot_becomes_stale_before_republish() {
    let moisture = Moisture {
        hz: hz(10.0),
        calibration: Calibration {
            dry_hz: hz(15.0),
            wet_hz: hz(5.0),
        },
    };
    let batch = Batch {
        captured_at_ns: 0,
        readings: vec![SensorReading {
            channel: 1,
            raw_hz: Some(hz(10.0)),
            moisture_percent: Some(moisture),
            status: ReadingStatus::Valid,
            age_ms: Some(500),
            error: None,
        }],
    };
    let readings = age_readings(&batch, 2000 * MS, 2000);
    assert_eq!(readings[0].status, ReadingStatus::Stale);
    assert_eq!(readings[0].moisture_percent, None);
    assert_eq!(readings[0].age_ms, Some(2500));
    assert_eq!(
        readings[0].error.as_deref(),
        Some("last sensor snapshot is stale")
    );
    let readings = age_readings(&batch, 1999 * MS, 2000);
    assert_eq!(readings[0].status, ReadingStatus::Valid);
    assert_eq!(readings[0].moisture_percent, Some(moisture));
}

#[test]
fn fresh_no_signal_snapshot_does_not_turn_stale_with_old_raw_value() {
    let batch = Batch {
        captured_at_ns: 0,
        readings: vec![SensorReading {
            channel: 3,
            raw_hz: Some(hz(4.0)),
            moisture_percent: None,
            status: ReadingStatus::NoSignal,
            age_ms: Some(20_000),
            error: Some("no moisture pulses in measurement window".into()),
        }],
    };
    let readings = age_readings(&batch, 100 * MS, 15_000);
    assert_eq!(readings[0].status, ReadingStatus::NoSignal);
    assert_eq!(readings[0].age_ms, Some(20_100));
    assert!(!all_healthy(&readings));
}

#[test]
fn readings_age_from_their_capture() {
    let mut sample = batch(ReadingStatus::Uncalibrated);
    sample.captured_at_ns = 70 * MS;
    let readings = current_readings(&sample, 80 * MS + 999_999, 1_000);
    assert_eq!(readings[0].age_ms, Some(510));
    assert!(all_healthy(&readings));
    assert_eq!(current_readings(&sample, 0, 1_000)[0].age_ms, Some(500));
    sample.readings[0].age_ms = Some(u64::MAX);
    assert_eq!(
        current_readings(&sample, u128::MAX, 1_000)[0].age_ms,
        Some(u64::MAX)
    );
    let statuses = health(&readings);
    assert_eq!(statuses, vec![ReadingStatus::Uncalibrated]);
    assert!(same_health(&statuses, &statuses));
    assert!(!same_health(&statuses, &vec![]));
    assert!(!same_health(&statuses, &vec![ReadingStatus::Stale]));
    assert_eq!(rest_of_interval(5, 2 * MS), 3 * MS);
    assert_eq!(rest_of_interval(5, 9 * MS), 0);
}

fn ending<'a>(messages: &'a [(String, Value)], tail: &str) -> &'a Value {
    &messages
        .iter()
        .find(|(topic, _)| topic.ends_with(tail))
        .unwrap()
        .1
}

#[test]
fn discovery_has_stable_identity_and_no_uncalibrated_percentage() {
    let messages = discovery(&config());
    assert_eq!(messages.len(), 4);
    assert!(ending(&messages, "/moisture/config").is_null());
    assert!(ending(&messages, "/raw/config").is_null());
    let frequency = ending(&messages, "/frequency/config");
    assert_eq!(frequency["unique_id"], "growhat_demo_1_frequency");
    assert_eq!(frequency["availability"].as_array().unwrap().len(), 2);
    assert_eq!(frequency["availability_mode"], "all");
    assert!(frequency["expire_after"].as_u64().unwrap() > 0);
}

#[test]
fn discovery_describes_every_entity() {
    let mut config = config();
    config.stale_after_ms = 15_001;
    config.sensors[0].calibration = Some(Calibration {
        dry_hz: hz(15.0),
        wet_hz: hz(5.0),
    });
    let messages = discovery(&config);
    assert_eq!(
        messages[1].0,
        "homeassistant/sensor/growhat_demo_1/frequency/config"
    );
    let frequency = ending(&messages, "/frequency/config");
    assert_eq!(frequency["name"], "Soil frequency");
    assert_eq!(frequency["state_topic"], "growhat/growhat_demo/1/state");
    assert_eq!(
        frequency["json_attributes_topic"],
        "growhat/growhat_demo/1/state"
    );
    assert_eq!(frequency["expire_after"], 16);
    assert_eq!(frequency["unit_of_measurement"], "Hz");
    assert_eq!(frequency["device_class"], "frequency");
    assert_eq!(frequency["state_class"], "measurement");
    assert_eq!(frequency["suggested_display_precision"], 2);
    assert_eq!(frequency["value_template"], "{{ value_json.raw_hz }}");
    assert_eq!(frequency["device"]["identifiers"][0], "growhat_demo");
    assert_eq!(frequency["device"]["name"], "Demo");
    assert_eq!(frequency["device"]["manufacturer"], "Pimoroni");
    assert_eq!(frequency["device"]["model"], "Grow HAT Mini");
    assert_eq!(frequency["device"]["sw_version"], "0.1.0");
    assert_eq!(
        frequency["availability"][0]["topic"],
        "growhat/growhat_demo/availability"
    );
    assert_eq!(
        frequency["availability"][1]["topic"],
        "growhat/growhat_demo/1/state"
    );
    let moisture = ending(&messages, "/moisture/config");
    assert_eq!(moisture["unit_of_measurement"], "%");
    assert_eq!(moisture["unique_id"], "growhat_demo_1_moisture");
    assert_eq!(
        moisture["value_template"],
        "{{ value_json.moisture_percent }}"
    );
    assert!(moisture["suggested_display_precision"].is_null());
    let status = ending(&messages, "/status/config");
    assert_eq!(status["entity_category"], "diagnostic");
    assert_eq!(status["availability"].as_array().unwrap().len(), 1);
    assert!(status["state_class"].is_null());
}

#[test]
fn panel_discovery_reuses_existing_button_topics() {
    let mut config = config();
    config.panel_enabled = true;
    let messages = discovery(&config);
    assert_eq!(messages.len(), 16);
    for button in ["a", "b", "x", "y"] {
        let held = format!(
            "homeassistant/binary_sensor/{}/button_{button}_held/config",
            config.device_id
        );
        let presses = format!(
            "homeassistant/sensor/{}/button_{button}_presses/config",
            config.device_id
        );
        let remote = format!(
            "homeassistant/button/{}/button_{button}_remote/config",
            config.device_id
        );
        assert!(messages.iter().any(|(topic, payload)| topic == &held
            && payload["unique_id"] == format!("{}_button_{button}_held", config.device_id)));
        assert!(messages.iter().any(|(topic, payload)| topic == &presses
            && payload["unique_id"] == format!("{}_button_{button}_presses", config.device_id)));
        assert!(messages.iter().any(|(topic, payload)| topic == &remote
            && payload["command_topic"]
                == format!(
                    "growhat/{}/buttons/{}/press/set",
                    config.device_id,
                    button.to_ascii_uppercase()
                )
            && payload["retain"] == false));
    }
    let held = ending(&messages, "button_x_held/config");
    assert_eq!(held["name"], "Button X held");
    assert_eq!(held["state_topic"], "growhat/growhat_demo/buttons/X/state");
    assert_eq!(
        held["value_template"],
        "{{ 'ON' if value_json.pressed else 'OFF' }}"
    );
    let presses = ending(&messages, "button_y_presses/config");
    assert_eq!(presses["state_class"], "total_increasing");
    assert_eq!(presses["value_template"], "{{ value_json.count }}");
    let remote = ending(&messages, "button_a_remote/config");
    assert_eq!(remote["name"], "Press A on HAT");
    assert_eq!(remote["payload_press"], "PRESS");
    assert_eq!(
        remote["availability_topic"],
        "growhat/growhat_demo/availability"
    );
}

#[test]
fn announcements_are_kept_and_end_with_being_online() {
    let messages = announce(&config());
    assert_eq!(messages.len(), 5);
    assert!(messages
        .iter()
        .all(|m| m.retain && m.delivery == Delivery::AtLeastOnce));
    assert_eq!(
        messages[0].topic,
        "homeassistant/sensor/growhat_demo_1/raw/config"
    );
    assert!(messages[0].body.is_empty());
    assert_eq!(json(&messages[1].body), discovery(&config())[1].1);
    assert_eq!(messages[4].topic, "growhat/growhat_demo/availability");
    assert_eq!(messages[4].body, b"online");
    assert_eq!(availability_message(&config(), false).body, b"offline");
}

#[test]
fn messages_are_routed_by_their_topic() {
    let config = config();
    assert_eq!(base(&config), "growhat/growhat_demo");
    let to = |topic: &str, payload: &[u8]| route(&config, topic, payload);
    assert!(matches!(
        to("homeassistant/status", b"online"),
        Route::Birth
    ));
    assert!(matches!(
        to("homeassistant/status", b"offline"),
        Route::Nowhere
    ));
    assert!(matches!(
        to("growhat/growhat_demo/display/set", b""),
        Route::Display
    ));
    assert!(matches!(
        to("growhat/growhat_demo/pump/set", b""),
        Route::Pump
    ));
    assert!(
        matches!(to("growhat/growhat_demo/buttons/Y/press/set", b""), Route::Press(b) if b == "Y")
    );
    assert!(
        matches!(to("growhat/growhat_demo/buttons/press/set", b""), Route::Press(b) if b.is_empty())
    );
    assert!(matches!(
        to("growhat/growhat_demo/buttons/Y/press/ack", b""),
        Route::Nowhere
    ));
    assert_eq!(text_between("abc", "a", "c").as_deref(), Some("b"));
    assert_eq!(text_between("aba", "aba", "ba").as_deref(), Some(""));
    assert_eq!(text_between("abc", "b", "c"), None);
}

#[test]
fn connecting_tells_all_that_is_known() {
    let mut config = config();
    config.panel_enabled = true;
    let mut session = Session::new();
    let sample = batch(ReadingStatus::Uncalibrated);
    assert!(session.tick(&config, &sample, 0).is_none());
    assert!(session.farewell(&config).is_none());
    session.button(&config, Some(event("Y", true, 3)));
    let plan = session.connect(&config, vec![event("A", true, 1)], false, &sample, 0);
    assert!(session.connected);
    assert!(!session.events_open);
    assert_eq!(
        plan.subscriptions,
        vec![
            "homeassistant/status",
            "growhat/growhat_demo/display/set",
            "growhat/growhat_demo/pump/set",
            "growhat/growhat_demo/buttons/+/press/set"
        ]
    );
    assert_eq!(plan.messages.len(), 17);
    assert_eq!(plan.readings.len(), 1);
    assert_eq!(plan.readings[0].topic, "growhat/growhat_demo/1/state");
    assert!(plan.buttons.iter().all(Option::is_some));
    let topics: Vec<&str> = plan
        .buttons
        .iter()
        .map(|step| step.as_ref().unwrap().topic.as_str())
        .collect();
    assert_eq!(
        topics,
        vec![
            "growhat/growhat_demo/buttons/A/state",
            "growhat/growhat_demo/buttons/Y/state"
        ]
    );
    session.sent(plan.health);
    assert!(session.tick(&config, &sample, 0).is_none());
    let plan = session.tick(&config, &sample, 15_000 * MS).unwrap();
    assert_eq!(plan.health, vec![ReadingStatus::Stale]);
    assert!(plan.messages.is_empty() && plan.buttons.is_empty());
    assert_eq!(session.farewell(&config).unwrap().body, b"offline");
    session.disconnect();
    assert!(session.last_health.is_empty());
    assert_eq!(session.board.len(), 2);
    let plan = session.refresh(&config, &sample, 0);
    assert!(plan.subscriptions.is_empty());
    assert_eq!(plan.messages.len(), 17);
}

#[test]
fn button_states_are_told_where_the_panel_is_enabled() {
    let mut config = config();
    let mut session = Session::new();
    session.connected = true;
    let plan = session.button(&config, Some(event("B", true, 3)));
    assert!(plan.buttons.is_empty());
    assert_eq!(session.board.len(), 0);
    config.panel_enabled = true;
    let plan = session.button(&config, Some(event("B", true, 3)));
    assert_eq!(plan.buttons[0].as_ref().unwrap().event, event("B", true, 3));
    let plan = session.button(&config, Some(event("Q", true, 3)));
    assert!(plan.buttons[0].is_none());
    session.button(&config, None);
    assert!(!session.events_open);
}

#[test]
fn the_connection_follows_the_configuration() {
    let mut config = config();
    let connection = options(&config, &None).ok().unwrap();
    assert_eq!(connection.client_id, "growhat_growhat_demo");
    assert_eq!(connection.host, "localhost");
    assert_eq!(connection.port, 1883);
    assert_eq!(connection.keep_alive_seconds, 5);
    assert!(connection.clean_session);
    assert_eq!(
        connection.last_will.topic,
        "growhat/growhat_demo/availability"
    );
    assert_eq!(connection.last_will.body, b"offline");
    assert!(connection.last_will.retain);
    assert!(connection.credentials.is_none());
    config.mqtt.as_mut().unwrap().password_file = Some(b"secret".to_vec());
    assert_eq!(
        options(&config, &None).err(),
        Some(ConnectionError::PasswordWithoutUsername)
    );
    config.mqtt.as_mut().unwrap().username = Some("growhat".into());
    assert_eq!(
        options(&config, &None).err(),
        Some(ConnectionError::PasswordUnreadable)
    );
    let connection = options(&config, &Some("pass word\r\n".into())).ok().unwrap();
    assert_eq!(
        connection.credentials,
        Some(("growhat".into(), "pass word".into()))
    );
    config.mqtt.as_mut().unwrap().password_file = None;
    let connection = options(&config, &Some("unused".into())).ok().unwrap();
    assert_eq!(connection.credentials, Some(("growhat".into(), "".into())));
    config.mqtt = None;
    let error = options(&config, &None).err().unwrap();
    assert_eq!(error, ConnectionError::NotConfigured);
    assert_eq!(
        error.message(),
        "run requires an [mqtt] section; use diagnose for readings without MQTT"
    );
}

#[test]
fn states_are_not_kept() {
    let mut config = config();
    config.panel_enabled = true;
    let mut session = Session::new();
    let sample = batch(ReadingStatus::Uncalibrated);
    let mut plan = session.connect(&config, vec![event("A", true, 1)], true, &sample, 0);
    let reading = plan.readings.remove(0).message(b"{}".to_vec());
    assert_eq!(reading.topic, "growhat/growhat_demo/1/state");
    let button = plan.buttons.remove(0).unwrap().message(b"{}".to_vec());
    assert_eq!(button.topic, "growhat/growhat_demo/buttons/A/state");
    for message in [reading, button] {
        assert_eq!(message.body, b"{}");
        assert_eq!(message.delivery, Delivery::AtMostOnce);
        assert!(!message.retain);
    }
}

#[test]
fn topics_and_identities_do_not_depend_on_names() {
    let mut one = config();
    one.panel_enabled = true;
    one.sensors.push(SensorConfig {
        channel: 3,
        name: "Bench".into(),
        calibration: None,
        simulated_hz: hz(2.0),
    });
    let mut other = one.clone();
    other.name = "Another".into();
    other.stale_after_ms = 60_000;
    other.mqtt.as_mut().unwrap().host = "elsewhere".into();
    other.sensors[0].name = "Fern".into();
    other.sensors[0].calibration = Some(Calibration {
        dry_hz: hz(15.0),
        wet_hz: hz(5.0),
    });
    let (one, other) = (discovery(&one), discovery(&other));
    assert_eq!(one.len(), 20);
    let topics: Vec<&String> = one.iter().map(|(topic, _)| topic).collect();
    assert_eq!(topics, other.iter().map(|(topic, _)| topic).collect::<Vec<_>>());
    for (i, topic) in topics.iter().enumerate() {
        assert!(!topics[..i].contains(topic));
        if !one[i].1.is_null() && !other[i].1.is_null() {
            assert!(one[i].1["unique_id"].is_string());
            assert_eq!(one[i].1["unique_id"], other[i].1["unique_id"]);
        }
    }
    assert!(one[2].1.is_null());
    assert!(!other[2].1.is_null());
}
