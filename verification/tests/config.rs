//! The rules of a configuration.
use growhat::config::{
    Backend, Calibration, Config, ConfigError, Hertz, MqttConfig, PumpConfig, SensorConfig,
};

fn hz(value: f64) -> Hertz {
    Hertz {
        bits: value.to_bits(),
    }
}

fn soil() -> SensorConfig {
    SensorConfig {
        channel: 1,
        name: "Soil".into(),
        calibration: None,
        simulated_hz: hz(10.0),
    }
}

fn simulated() -> Config {
    Config {
        device_id: "plant_1".into(),
        name: "Plant".into(),
        backend: Backend::Simulated,
        sample_interval_ms: growhat::config::sample_interval(),
        stale_after_ms: growhat::config::stale_after(),
        measurement_window_ms: growhat::config::measurement_window(),
        gpio_chip: growhat::config::gpio_chip(),
        hardware_confirmed: false,
        panel_enabled: false,
        sensors: vec![soil()],
        mqtt: None,
        pump: None,
    }
}

fn broker() -> MqttConfig {
    MqttConfig {
        host: "localhost".into(),
        port: 1883,
        topic_prefix: "growhat".into(),
        discovery_prefix: "homeassistant".into(),
        username: None,
        password_file: None,
    }
}

fn pump() -> PumpConfig {
    PumpConfig {
        enabled: true,
        channels: vec![1, 3],
        max_duration_ms: growhat::config::pump_max_duration(),
        max_total_ms_per_24h: growhat::config::pump_daily_limit(),
        debug_mode: false,
        state_file: b"/var/lib/growhat/pump.json".to_vec(),
        mqtt_token_file: None,
    }
}

fn hardware() -> Config {
    let mut config = simulated();
    config.backend = Backend::Hardware;
    config.hardware_confirmed = true;
    config
}

fn fault(config: &Config) -> ConfigError {
    config.validate().unwrap_err()
}

#[test]
fn rejects_duplicate_channels_bad_timings_and_nonfinite_calibration() {
    let mut cfg = simulated();
    cfg.sensors.push(cfg.sensors[0].clone());
    assert!(cfg.validate().is_err());
    cfg.sensors.pop();
    cfg.sample_interval_ms = 0;
    assert!(cfg.validate().is_err());
    cfg.sample_interval_ms = 5_000;
    cfg.measurement_window_ms = 5_001;
    assert!(cfg.validate().is_err());
    cfg.measurement_window_ms = 1_000;
    cfg.sensors[0].calibration = Some(Calibration {
        dry_hz: hz(f64::NAN),
        wet_hz: hz(1.0),
    });
    assert!(cfg.validate().is_err());
    cfg.sensors[0].calibration = Some(Calibration {
        dry_hz: hz(1.0),
        wet_hz: hz(1.0),
    });
    assert!(cfg.validate().is_err());
}

#[test]
fn rejects_password_file_without_username() {
    let mut config = simulated();
    let mut mqtt = broker();
    mqtt.password_file = Some(b"secret".to_vec());
    config.mqtt = Some(mqtt);
    assert!(fault(&config).message().contains("requires username"));
}

#[test]
fn panel_requires_confirmed_hardware() {
    let mut config = simulated();
    config.panel_enabled = true;
    assert!(config.validate().is_err());
    config.backend = Backend::Hardware;
    assert!(config.validate().is_err());
    config.hardware_confirmed = true;
    assert!(config.validate().is_ok());
}

#[test]
fn hardware_needs_confirmation() {
    let mut config = simulated();
    assert!(config.validate().is_ok());
    config.backend = Backend::Hardware;
    assert_eq!(fault(&config), ConfigError::HardwareUnconfirmed);
    assert!(fault(&config).message().contains("hardware_confirmed"));
    config.hardware_confirmed = true;
    assert!(config.validate().is_ok());
}

#[test]
fn defaults_are_the_documented_ones() {
    assert_eq!(growhat::config::sample_interval(), 5_000);
    assert_eq!(growhat::config::stale_after(), 15_000);
    assert_eq!(growhat::config::measurement_window(), 1_000);
    assert_eq!(growhat::config::gpio_chip(), b"/dev/gpiochip0".to_vec());
    assert_eq!(growhat::config::mqtt_port(), 1883);
    assert_eq!(growhat::config::topic_prefix(), "growhat");
    assert_eq!(growhat::config::discovery_prefix(), "homeassistant");
    assert_eq!(growhat::config::pump_max_duration(), 5_000);
    assert_eq!(growhat::config::pump_daily_limit(), 30_000);
}

#[test]
fn each_basic_rule_has_its_error() {
    let mut config = simulated();
    config.device_id = "plant 1".into();
    assert_eq!(fault(&config), ConfigError::DeviceId);
    config.device_id = String::new();
    assert_eq!(fault(&config), ConfigError::DeviceId);
    let mut config = simulated();
    config.name = " \u{2003}\t".into();
    assert_eq!(fault(&config), ConfigError::Name);
    let mut config = simulated();
    config.sample_interval_ms = 3_600_001;
    assert_eq!(fault(&config), ConfigError::SampleInterval);
    let mut config = simulated();
    config.stale_after_ms = 0;
    assert_eq!(fault(&config), ConfigError::StaleAfter);
    let mut config = simulated();
    config.measurement_window_ms = 0;
    assert_eq!(fault(&config), ConfigError::MeasurementWindow);
    let mut config = simulated();
    config.stale_after_ms = 4_999;
    assert_eq!(fault(&config), ConfigError::StaleBeforeSample);
    let mut config = simulated();
    config.measurement_window_ms = 5_001;
    assert_eq!(fault(&config), ConfigError::WindowBeyondInterval);
    let mut config = simulated();
    config.sensors.clear();
    assert_eq!(fault(&config), ConfigError::SensorCount);
    let mut config = simulated();
    config.panel_enabled = true;
    assert_eq!(fault(&config), ConfigError::PanelWithoutHardware);
    let mut config = simulated();
    config.gpio_chip.clear();
    assert_eq!(fault(&config), ConfigError::GpioChip);
}

#[test]
fn each_sensor_rule_has_its_error() {
    let mut config = simulated();
    config.sensors[0].channel = 4;
    assert_eq!(fault(&config), ConfigError::SensorChannel);
    let mut config = simulated();
    config.sensors.push(soil());
    assert_eq!(fault(&config), ConfigError::SensorChannel);
    let mut config = simulated();
    config.sensors[0].name = "  ".into();
    assert_eq!(fault(&config), ConfigError::SensorName);
    let mut config = simulated();
    for bad in [0.0, -1.0, f64::INFINITY, f64::NAN] {
        config.sensors[0].simulated_hz = hz(bad);
        assert_eq!(fault(&config), ConfigError::SimulatedFrequency);
    }
    let mut config = simulated();
    for (dry, wet) in [
        (f64::INFINITY, 1.0),
        (1.0, f64::NAN),
        (0.0, 1.0),
        (1.0, -2.0),
        (3.5, 3.5),
    ] {
        config.sensors[0].calibration = Some(Calibration {
            dry_hz: hz(dry),
            wet_hz: hz(wet),
        });
        assert_eq!(fault(&config), ConfigError::CalibrationEnds);
    }
    config.sensors[0].calibration = Some(Calibration {
        dry_hz: hz(30.0),
        wet_hz: hz(f64::MIN_POSITIVE),
    });
    assert!(config.validate().is_ok());
}

#[test]
fn each_broker_rule_has_its_error() {
    let mut config = simulated();
    config.mqtt = Some(broker());
    assert!(config.validate().is_ok());
    for host in ["", "local host", "local\u{a0}host", "\n"] {
        config.mqtt.as_mut().unwrap().host = host.into();
        assert_eq!(fault(&config), ConfigError::MqttAddress);
    }
    config.mqtt = Some(broker());
    config.mqtt.as_mut().unwrap().port = 0;
    assert_eq!(fault(&config), ConfigError::MqttAddress);
    for prefix in ["", "/home", "home/", "home//assistant", "home/+", "h\u{f6}me"] {
        config.mqtt = Some(broker());
        config.mqtt.as_mut().unwrap().discovery_prefix = prefix.into();
        assert_eq!(fault(&config), ConfigError::MqttPrefix);
    }
    config.mqtt = Some(broker());
    config.mqtt.as_mut().unwrap().topic_prefix = "farm/plot-1/growhat".into();
    assert!(config.validate().is_ok());
}

#[test]
fn each_pump_rule_has_its_error() {
    let mut config = hardware();
    config.pump = Some(pump());
    assert!(config.validate().is_ok());
    config.hardware_confirmed = false;
    config.backend = Backend::Simulated;
    assert_eq!(fault(&config), ConfigError::PumpWithoutHardware);
    config.pump.as_mut().unwrap().enabled = false;
    assert!(config.validate().is_ok());
    let mut config = hardware();
    config.pump = Some(pump());
    for channels in [vec![], vec![1, 2, 3, 1]] {
        config.pump.as_mut().unwrap().channels = channels;
        assert_eq!(fault(&config), ConfigError::PumpChannelCount);
    }
    for channels in [vec![0], vec![2, 2], vec![4, 1]] {
        config.pump.as_mut().unwrap().channels = channels;
        assert_eq!(fault(&config), ConfigError::PumpChannel);
    }
    config.pump = Some(pump());
    for (one, all) in [(0, 30_000), (20_001, 30_000), (5_000, 4_999), (5_000, 300_001)] {
        config.pump.as_mut().unwrap().max_duration_ms = one;
        config.pump.as_mut().unwrap().max_total_ms_per_24h = all;
        assert_eq!(fault(&config), ConfigError::PumpLimits);
    }
    for path in ["", "/", "..", "/var/lib/.."] {
        config.pump = Some(pump());
        config.pump.as_mut().unwrap().state_file = path.as_bytes().to_vec();
        assert_eq!(fault(&config), ConfigError::PumpStateFile);
    }
    config.pump = Some(pump());
    config.pump.as_mut().unwrap().mqtt_token_file = Some(b"token".to_vec());
    assert_eq!(fault(&config), ConfigError::PumpTokenWithoutMqtt);
    config.mqtt = Some(broker());
    assert!(config.validate().is_ok());
}

#[test]
fn every_error_has_words_of_its_own() {
    let errors = [
        ConfigError::DeviceId,
        ConfigError::Name,
        ConfigError::SampleInterval,
        ConfigError::StaleAfter,
        ConfigError::MeasurementWindow,
        ConfigError::StaleBeforeSample,
        ConfigError::WindowBeyondInterval,
        ConfigError::SensorCount,
        ConfigError::HardwareUnconfirmed,
        ConfigError::PanelWithoutHardware,
        ConfigError::GpioChip,
        ConfigError::SensorChannel,
        ConfigError::SensorName,
        ConfigError::SimulatedFrequency,
        ConfigError::CalibrationEnds,
        ConfigError::PasswordWithoutUsername,
        ConfigError::MqttAddress,
        ConfigError::MqttPrefix,
        ConfigError::PumpWithoutHardware,
        ConfigError::PumpChannelCount,
        ConfigError::PumpChannel,
        ConfigError::PumpLimits,
        ConfigError::PumpStateFile,
        ConfigError::PumpTokenWithoutMqtt,
    ];
    for (i, one) in errors.iter().enumerate() {
        for other in &errors[..i] {
            assert_ne!(one.message(), other.message());
        }
    }
    assert_eq!(
        ConfigError::StaleAfter.message(),
        "stale_after_ms must be between 1 and 3600000"
    );
}

#[test]
fn relative_paths_lie_beside_the_configuration() {
    let mut config = hardware();
    let mut mqtt = broker();
    mqtt.username = Some("growhat".into());
    mqtt.password_file = Some(b"mqtt.credentials".to_vec());
    config.mqtt = Some(mqtt);
    let mut pump = pump();
    pump.state_file = b"state/pump.json".to_vec();
    pump.mqtt_token_file = Some(b"/run/token".to_vec());
    config.pump = Some(pump);
    let accepted = config.accept(b"/etc/growhat").unwrap();
    let mqtt = accepted.mqtt.unwrap();
    assert_eq!(
        mqtt.password_file.unwrap(),
        b"/etc/growhat/mqtt.credentials".to_vec()
    );
    let pump = accepted.pump.unwrap();
    assert_eq!(pump.state_file, b"/etc/growhat/state/pump.json".to_vec());
    assert_eq!(pump.mqtt_token_file.unwrap(), b"/run/token".to_vec());
}

#[test]
fn an_unacceptable_configuration_is_refused_on_loading() {
    let mut config = simulated();
    config.sensors[0].channel = 9;
    assert_eq!(
        config.accept(b".").err(),
        Some(ConfigError::SensorChannel)
    );
}

#[test]
fn paths_are_joined_as_the_system_joins_them() {
    for (directory, path) in [
        ("/etc", "a"),
        ("/etc/", "a/b"),
        ("", "a"),
        (".", "a.toml"),
        ("x", "/abs"),
    ] {
        let joined = growhat::path::join(directory.as_bytes(), path.as_bytes());
        let expected = std::path::Path::new(directory).join(path);
        assert_eq!(joined, expected.as_os_str().as_encoded_bytes());
    }
}

#[test]
fn file_names_are_found_as_the_system_finds_them() {
    for path in [
        "", "/", "a", "a/", "a/.", "a/..", "..", ".", "/a/b.json", "a//", "./", "../a", "a/./", "//",
    ] {
        assert_eq!(
            growhat::path::names_file(path.as_bytes()),
            std::path::Path::new(path).file_name().is_some(),
            "{path}"
        );
    }
}

#[test]
fn a_secret_shows_as_present_only() {
    assert_eq!(
        growhat::config::redacted(&Some("hunter2")),
        Some("[redacted]")
    );
    assert_eq!(growhat::config::redacted::<String>(&None), None);
}
