//! Configuration and the rules it has to meet.
use vstd::prelude::*;
use vstd::string::*;
use vstd::utf8::*;

use crate::path::{file_name, is_relative, join, joined, names_file, relative};
use crate::text::{blank, contains_white_space, has_white_space, identifier, identifier_path};
use crate::text::{is_blank, is_identifier, is_identifier_path};

verus! {

/// The bit pattern of the binary64 positive infinity: the patterns below it, zero
/// excepted, are exactly the positive finite numbers, in their order.
pub const INFINITY_BITS: u64 = 0x7ff0_0000_0000_0000;

/// The longest interval a timing may have, in milliseconds.
pub const MAX_TIMING_MS: u64 = 3_600_000;

/// The default time between two samples.
pub fn sample_interval() -> (ms: u64)
    ensures
        ms == 5_000,
{
    5_000
}

/// The default age at which a sample goes stale.
pub fn stale_after() -> (ms: u64)
    ensures
        ms == 15_000,
{
    15_000
}

/// The default length of a measurement.
pub fn measurement_window() -> (ms: u64)
    ensures
        ms == 1_000,
{
    1_000
}

/// The default GPIO character device.
pub fn gpio_chip() -> (path: Vec<u8>)
    ensures
        path@ == encode_utf8("/dev/gpiochip0"@),
{
    "/dev/gpiochip0".as_bytes_vec()
}

/// The default broker port.
pub fn mqtt_port() -> (port: u16)
    ensures
        port == 1883,
{
    1883
}

/// The default prefix of the controller's own topics.
pub fn topic_prefix() -> (prefix: String)
    ensures
        prefix@ == "growhat"@,
{
    "growhat".to_owned()
}

/// The default prefix of the discovery topics.
pub fn discovery_prefix() -> (prefix: String)
    ensures
        prefix@ == "homeassistant"@,
{
    "homeassistant".to_owned()
}

/// The default limit on one pump pulse.
pub fn pump_max_duration() -> (ms: u64)
    ensures
        ms == 5_000,
{
    5_000
}

/// The default limit on all pump pulses of a day.
pub fn pump_daily_limit() -> (ms: u64)
    ensures
        ms == 30_000,
{
    30_000
}

/// A frequency: a binary64 number of hertz, held by its bit pattern, so that it is
/// carried and compared without any rounding.
#[derive(Clone, Copy, Debug, PartialEq, Eq, Structural)]
pub struct Hertz {
    pub bits: u64,
}

impl Hertz {
    /// Whether the number is positive and finite.
    pub open spec fn usable(self) -> bool {
        0 < self.bits < INFINITY_BITS
    }

    /// Whether the number is positive and finite.
    pub fn is_usable(&self) -> (yes: bool)
        ensures
            yes == self.usable(),
    {
        0 < self.bits && self.bits < INFINITY_BITS
    }
}

/// Where the readings come from.
#[derive(Clone, Copy, Debug, PartialEq, Eq, Structural)]
pub enum Backend {
    Simulated,
    Hardware,
}

/// The frequencies that a probe gives in dry and in wet soil.
#[derive(Clone, Copy, Debug, PartialEq, Eq, Structural)]
pub struct Calibration {
    pub dry_hz: Hertz,
    pub wet_hz: Hertz,
}

impl Calibration {
    /// Whether the two ends are distinct positive finite frequencies.
    pub open spec fn sound(self) -> bool {
        self.dry_hz.usable() && self.wet_hz.usable() && self.dry_hz != self.wet_hz
    }

    /// Whether the two ends are distinct positive finite frequencies.
    pub fn is_sound(&self) -> (yes: bool)
        ensures
            yes == self.sound(),
    {
        self.dry_hz.is_usable() && self.wet_hz.is_usable() && self.dry_hz.bits != self.wet_hz.bits
    }
}

/// One moisture probe.
#[derive(Clone, Debug)]
pub struct SensorConfig {
    pub channel: u8,
    pub name: String,
    pub calibration: Option<Calibration>,
    pub simulated_hz: Hertz,
}

/// The broker to publish to.
#[derive(Clone)]
pub struct MqttConfig {
    pub host: String,
    pub port: u16,
    pub topic_prefix: String,
    pub discovery_prefix: String,
    pub username: Option<String>,
    pub password_file: Option<Vec<u8>>,
}

/// The pump outputs and their limits.
#[derive(Clone)]
pub struct PumpConfig {
    pub enabled: bool,
    pub channels: Vec<u8>,
    pub max_duration_ms: u64,
    pub max_total_ms_per_24h: u64,
    /// Free requests made on this machine from the limits on one pulse and on a day, up to
    /// a fixed cutoff. Requests that come over MQTT stay bound by both.
    pub debug_mode: bool,
    pub state_file: Vec<u8>,
    pub mqtt_token_file: Option<Vec<u8>>,
}

/// A controller's configuration.
#[derive(Clone)]
pub struct Config {
    pub device_id: String,
    pub name: String,
    pub backend: Backend,
    pub sample_interval_ms: u64,
    pub stale_after_ms: u64,
    pub measurement_window_ms: u64,
    pub gpio_chip: Vec<u8>,
    pub hardware_confirmed: bool,
    /// Enable the display and the four input buttons.
    pub panel_enabled: bool,
    pub sensors: Vec<SensorConfig>,
    pub mqtt: Option<MqttConfig>,
    pub pump: Option<PumpConfig>,
}

/// A rule that a configuration breaks.
#[derive(Clone, Copy, Debug, PartialEq, Eq, Structural)]
pub enum ConfigError {
    DeviceId,
    Name,
    SampleInterval,
    StaleAfter,
    MeasurementWindow,
    StaleBeforeSample,
    WindowBeyondInterval,
    SensorCount,
    HardwareUnconfirmed,
    PanelWithoutHardware,
    GpioChip,
    SensorChannel,
    SensorName,
    SimulatedFrequency,
    CalibrationEnds,
    PasswordWithoutUsername,
    MqttAddress,
    MqttPrefix,
    PumpWithoutHardware,
    PumpChannelCount,
    PumpChannel,
    PumpLimits,
    PumpStateFile,
    PumpTokenWithoutMqtt,
}

/// The words for a broken rule.
pub open spec fn config_message(error: ConfigError) -> Seq<char> {
    match error {
        ConfigError::DeviceId =>
            "device_id must contain only ASCII letters, digits, underscores or hyphens"@,
        ConfigError::Name => "name must not be empty"@,
        ConfigError::SampleInterval => "sample_interval_ms must be between 1 and 3600000"@,
        ConfigError::StaleAfter => "stale_after_ms must be between 1 and 3600000"@,
        ConfigError::MeasurementWindow => "measurement_window_ms must be between 1 and 3600000"@,
        ConfigError::StaleBeforeSample => "stale_after_ms must be at least sample_interval_ms"@,
        ConfigError::WindowBeyondInterval =>
            "measurement_window_ms must not exceed sample_interval_ms"@,
        ConfigError::SensorCount => "configure one to three sensors"@,
        ConfigError::HardwareUnconfirmed =>
            "hardware backend requires hardware_confirmed = true"@,
        ConfigError::PanelWithoutHardware => "panel_enabled requires confirmed hardware backend"@,
        ConfigError::GpioChip => "gpio_chip must not be empty"@,
        ConfigError::SensorChannel => "sensor channels must be unique and within 1..3"@,
        ConfigError::SensorName => "sensor name must not be empty"@,
        ConfigError::SimulatedFrequency => "simulated_hz must be positive and finite"@,
        ConfigError::CalibrationEnds =>
            "calibration endpoints must be distinct positive finite frequencies"@,
        ConfigError::PasswordWithoutUsername => "MQTT password_file requires username"@,
        ConfigError::MqttAddress => "invalid MQTT host or port"@,
        ConfigError::MqttPrefix => "MQTT prefixes must contain safe nonempty topic segments"@,
        ConfigError::PumpWithoutHardware => "pump requires confirmed hardware backend"@,
        ConfigError::PumpChannelCount => "pump requires one to three enabled channels"@,
        ConfigError::PumpChannel => "pump channels must be unique and within 1..3"@,
        ConfigError::PumpLimits => "pump duration and 24-hour budget are out of range"@,
        ConfigError::PumpStateFile => "pump state_file must name a file"@,
        ConfigError::PumpTokenWithoutMqtt => "pump mqtt_token_file requires MQTT configuration"@,
    }
}

impl ConfigError {
    /// The words for a broken rule.
    pub fn message(&self) -> (text: String)
        ensures
            text@ == config_message(*self),
    {
        let words = match self {
            ConfigError::DeviceId =>
                "device_id must contain only ASCII letters, digits, underscores or hyphens",
            ConfigError::Name => "name must not be empty",
            ConfigError::SampleInterval => "sample_interval_ms must be between 1 and 3600000",
            ConfigError::StaleAfter => "stale_after_ms must be between 1 and 3600000",
            ConfigError::MeasurementWindow =>
                "measurement_window_ms must be between 1 and 3600000",
            ConfigError::StaleBeforeSample =>
                "stale_after_ms must be at least sample_interval_ms",
            ConfigError::WindowBeyondInterval =>
                "measurement_window_ms must not exceed sample_interval_ms",
            ConfigError::SensorCount => "configure one to three sensors",
            ConfigError::HardwareUnconfirmed =>
                "hardware backend requires hardware_confirmed = true",
            ConfigError::PanelWithoutHardware =>
                "panel_enabled requires confirmed hardware backend",
            ConfigError::GpioChip => "gpio_chip must not be empty",
            ConfigError::SensorChannel => "sensor channels must be unique and within 1..3",
            ConfigError::SensorName => "sensor name must not be empty",
            ConfigError::SimulatedFrequency => "simulated_hz must be positive and finite",
            ConfigError::CalibrationEnds =>
                "calibration endpoints must be distinct positive finite frequencies",
            ConfigError::PasswordWithoutUsername => "MQTT password_file requires username",
            ConfigError::MqttAddress => "invalid MQTT host or port",
            ConfigError::MqttPrefix => "MQTT prefixes must contain safe nonempty topic segments",
            ConfigError::PumpWithoutHardware => "pump requires confirmed hardware backend",
            ConfigError::PumpChannelCount => "pump requires one to three enabled channels",
            ConfigError::PumpChannel => "pump channels must be unique and within 1..3",
            ConfigError::PumpLimits => "pump duration and 24-hour budget are out of range",
            ConfigError::PumpStateFile => "pump state_file must name a file",
            ConfigError::PumpTokenWithoutMqtt =>
                "pump mqtt_token_file requires MQTT configuration",
        };
        words.to_owned()
    }
}

/// A timing between one millisecond and an hour.
pub open spec fn timing(ms: u64) -> bool {
    1 <= ms <= MAX_TIMING_MS
}

/// One of the three channels of the board.
pub open spec fn board_channel(channel: u8) -> bool {
    1 <= channel <= 3
}

/// Whether a sensor before the `i`th has the `i`th one's channel.
pub open spec fn sensor_repeated(sensors: Seq<SensorConfig>, i: int) -> bool {
    exists|j: int| 0 <= j < i && (#[trigger] sensors[j]).channel == sensors[i].channel
}

/// The rule that the `i`th sensor breaks, if any.
pub open spec fn sensor_fault(sensors: Seq<SensorConfig>, i: int) -> Option<ConfigError> {
    let sensor = sensors[i];
    if !board_channel(sensor.channel) || sensor_repeated(sensors, i) {
        Some(ConfigError::SensorChannel)
    } else if blank(sensor.name@) {
        Some(ConfigError::SensorName)
    } else if !sensor.simulated_hz.usable() {
        Some(ConfigError::SimulatedFrequency)
    } else if sensor.calibration matches Some(c) && !c.sound() {
        Some(ConfigError::CalibrationEnds)
    } else {
        None
    }
}

/// The rule that the first faulty sensor from the `i`th on breaks, if any.
pub open spec fn sensors_fault(sensors: Seq<SensorConfig>, i: int) -> Option<ConfigError>
    decreases sensors.len() - i,
{
    if i >= sensors.len() {
        None
    } else if sensor_fault(sensors, i) is Some {
        sensor_fault(sensors, i)
    } else {
        sensors_fault(sensors, i + 1)
    }
}

/// The rule that a broker section breaks, if any.
pub open spec fn mqtt_fault(mqtt: MqttConfig) -> Option<ConfigError> {
    if mqtt.password_file is Some && mqtt.username is None {
        Some(ConfigError::PasswordWithoutUsername)
    } else if mqtt.host@.len() == 0 || has_white_space(mqtt.host@) || mqtt.port == 0 {
        Some(ConfigError::MqttAddress)
    } else if !identifier_path(mqtt.topic_prefix@) || !identifier_path(mqtt.discovery_prefix@) {
        Some(ConfigError::MqttPrefix)
    } else {
        None
    }
}

/// Whether the channels are distinct channels of the board.
pub open spec fn distinct_board_channels(channels: Seq<u8>) -> bool {
    &&& forall|i: int| 0 <= i < channels.len() ==> board_channel(#[trigger] channels[i])
    &&& forall|i: int, j: int|
        0 <= i < j < channels.len() ==> #[trigger] channels[i] != #[trigger] channels[j]
}

/// Whether the board is real and its wiring confirmed.
pub open spec fn confirmed_hardware(config: Config) -> bool {
    config.hardware_confirmed && config.backend == Backend::Hardware
}

/// The rule that a pump section breaks, if any. A disabled one breaks none.
pub open spec fn pump_fault(config: Config, pump: PumpConfig) -> Option<ConfigError> {
    if !pump.enabled {
        None
    } else if !confirmed_hardware(config) {
        Some(ConfigError::PumpWithoutHardware)
    } else if !(1 <= pump.channels@.len() <= 3) {
        Some(ConfigError::PumpChannelCount)
    } else if !distinct_board_channels(pump.channels@) {
        Some(ConfigError::PumpChannel)
    } else if !(1 <= pump.max_duration_ms <= 20_000) || !(pump.max_duration_ms
        <= pump.max_total_ms_per_24h <= 300_000) {
        Some(ConfigError::PumpLimits)
    } else if file_name(pump.state_file@) is None {
        Some(ConfigError::PumpStateFile)
    } else if pump.mqtt_token_file is Some && config.mqtt is None {
        Some(ConfigError::PumpTokenWithoutMqtt)
    } else {
        None
    }
}

/// The first rule that a configuration breaks, if it breaks any.
pub open spec fn config_fault(config: Config) -> Option<ConfigError> {
    if !identifier(config.device_id@) {
        Some(ConfigError::DeviceId)
    } else if blank(config.name@) {
        Some(ConfigError::Name)
    } else if !timing(config.sample_interval_ms) {
        Some(ConfigError::SampleInterval)
    } else if !timing(config.stale_after_ms) {
        Some(ConfigError::StaleAfter)
    } else if !timing(config.measurement_window_ms) {
        Some(ConfigError::MeasurementWindow)
    } else if config.stale_after_ms < config.sample_interval_ms {
        Some(ConfigError::StaleBeforeSample)
    } else if config.measurement_window_ms > config.sample_interval_ms {
        Some(ConfigError::WindowBeyondInterval)
    } else if !(1 <= config.sensors@.len() <= 3) {
        Some(ConfigError::SensorCount)
    } else if config.backend == Backend::Hardware && !config.hardware_confirmed {
        Some(ConfigError::HardwareUnconfirmed)
    } else if config.panel_enabled && !confirmed_hardware(config) {
        Some(ConfigError::PanelWithoutHardware)
    } else if config.gpio_chip@.len() == 0 {
        Some(ConfigError::GpioChip)
    } else if sensors_fault(config.sensors@, 0) is Some {
        sensors_fault(config.sensors@, 0)
    } else if config.mqtt matches Some(mqtt) && mqtt_fault(mqtt) is Some {
        mqtt_fault(config.mqtt->0)
    } else if config.pump matches Some(pump) && pump_fault(config, pump) is Some {
        pump_fault(config, config.pump->0)
    } else {
        None
    }
}

/// Whether a text may stand as one segment of a topic.
pub fn valid_segment(value: &str) -> (yes: bool)
    ensures
        yes == identifier(value@),
{
    is_identifier(value)
}

fn within_timing(ms: u64) -> (yes: bool)
    ensures
        yes == timing(ms),
{
    1 <= ms && ms <= MAX_TIMING_MS
}

fn sensor_seen(sensors: &Vec<SensorConfig>, i: usize) -> (yes: bool)
    requires
        i < sensors@.len(),
    ensures
        yes == sensor_repeated(sensors@, i as int),
{
    let mut j: usize = 0;
    while j < i
        invariant
            j <= i < sensors@.len(),
            forall|k: int|
                0 <= k < j ==> (#[trigger] sensors@[k]).channel != sensors@[i as int].channel,
        decreases i - j,
    {
        if sensors[j].channel == sensors[i].channel {
            return true;
        }
        j += 1;
    }
    false
}

fn check_sensor(sensors: &Vec<SensorConfig>, i: usize) -> (result: Result<(), ConfigError>)
    requires
        i < sensors@.len(),
    ensures
        result == match sensor_fault(sensors@, i as int) {
            Some(error) => Err::<(), ConfigError>(error),
            None => Ok::<(), ConfigError>(()),
        },
{
    let sensor = &sensors[i];
    if !(1 <= sensor.channel && sensor.channel <= 3) || sensor_seen(sensors, i) {
        return Err(ConfigError::SensorChannel);
    }
    if is_blank(sensor.name.as_str()) {
        return Err(ConfigError::SensorName);
    }
    if !sensor.simulated_hz.is_usable() {
        return Err(ConfigError::SimulatedFrequency);
    }
    if let Some(calibration) = &sensor.calibration {
        if !calibration.is_sound() {
            return Err(ConfigError::CalibrationEnds);
        }
    }
    Ok(())
}

fn distinct_channels(channels: &Vec<u8>) -> (yes: bool)
    ensures
        yes == distinct_board_channels(channels@),
{
    let mut i: usize = 0;
    while i < channels.len()
        invariant
            i <= channels@.len(),
            distinct_board_channels(channels@.take(i as int)),
        decreases channels.len() - i,
    {
        let channel: u8 = channels[i];
        if !(1 <= channel && channel <= 3) {
            assert(!board_channel(channels@[i as int]));
            return false;
        }
        let mut j: usize = 0;
        while j < i
            invariant
                j <= i < channels@.len(),
                channel == channels@[i as int],
                forall|k: int| 0 <= k < j ==> #[trigger] channels@[k] != channel,
            decreases i - j,
        {
            if channels[j] == channel {
                assert(channels@[j as int] == channels@[i as int]);
                return false;
            }
            j += 1;
        }
        proof {
            let before = channels@.take(i as int);
            let after = channels@.take(i + 1);
            assert forall|a: int, b: int| 0 <= a < b < after.len() implies #[trigger] after[a]
                != #[trigger] after[b] by {
                if b < i {
                    assert(before[a] != before[b]);
                } else {
                    assert(channels@[a] != channel);
                }
            }
            assert forall|a: int| 0 <= a < after.len() implies board_channel(
                #[trigger] after[a],
            ) by {
                if a < i {
                    assert(board_channel(before[a]));
                }
            }
        }
        i += 1;
    }
    assert(channels@.take(i as int) =~= channels@);
    true
}

impl MqttConfig {
    fn check(&self) -> (result: Result<(), ConfigError>)
        ensures
            result == match mqtt_fault(*self) {
                Some(error) => Err::<(), ConfigError>(error),
                None => Ok::<(), ConfigError>(()),
            },
    {
        if self.password_file.is_some() && self.username.is_none() {
            return Err(ConfigError::PasswordWithoutUsername);
        }
        if self.host.as_str().is_empty() || contains_white_space(self.host.as_str()) || self.port
            == 0 {
            return Err(ConfigError::MqttAddress);
        }
        if !is_identifier_path(self.topic_prefix.as_str()) || !is_identifier_path(
            self.discovery_prefix.as_str(),
        ) {
            return Err(ConfigError::MqttPrefix);
        }
        Ok(())
    }
}

impl Config {
    /// Whether the board is real and its wiring confirmed.
    pub fn has_confirmed_hardware(&self) -> (yes: bool)
        ensures
            yes == confirmed_hardware(*self),
    {
        self.hardware_confirmed && self.backend == Backend::Hardware
    }

    fn check_pump(&self, pump: &PumpConfig) -> (result: Result<(), ConfigError>)
        ensures
            result == match pump_fault(*self, *pump) {
                Some(error) => Err::<(), ConfigError>(error),
                None => Ok::<(), ConfigError>(()),
            },
    {
        if !pump.enabled {
            return Ok(());
        }
        if !self.has_confirmed_hardware() {
            return Err(ConfigError::PumpWithoutHardware);
        }
        if pump.channels.is_empty() || pump.channels.len() > 3 {
            return Err(ConfigError::PumpChannelCount);
        }
        if !distinct_channels(&pump.channels) {
            return Err(ConfigError::PumpChannel);
        }
        if !(1 <= pump.max_duration_ms && pump.max_duration_ms <= 20_000) || !(pump.max_duration_ms
            <= pump.max_total_ms_per_24h && pump.max_total_ms_per_24h <= 300_000) {
            return Err(ConfigError::PumpLimits);
        }
        if !names_file(pump.state_file.as_slice()) {
            return Err(ConfigError::PumpStateFile);
        }
        if pump.mqtt_token_file.is_some() && self.mqtt.is_none() {
            return Err(ConfigError::PumpTokenWithoutMqtt);
        }
        Ok(())
    }

    fn check_basics(&self) -> (result: Result<(), ConfigError>)
        ensures
            result matches Err(error) ==> config_fault(*self) == Some(error),
            result is Ok ==> config_fault(*self) == (if sensors_fault(self.sensors@, 0) is Some {
                sensors_fault(self.sensors@, 0)
            } else if self.mqtt matches Some(mqtt) && mqtt_fault(mqtt) is Some {
                mqtt_fault(self.mqtt->0)
            } else if self.pump matches Some(pump) && pump_fault(*self, pump) is Some {
                pump_fault(*self, self.pump->0)
            } else {
                None
            }),
    {
        if !valid_segment(self.device_id.as_str()) {
            return Err(ConfigError::DeviceId);
        }
        if is_blank(self.name.as_str()) {
            return Err(ConfigError::Name);
        }
        if !within_timing(self.sample_interval_ms) {
            return Err(ConfigError::SampleInterval);
        }
        if !within_timing(self.stale_after_ms) {
            return Err(ConfigError::StaleAfter);
        }
        if !within_timing(self.measurement_window_ms) {
            return Err(ConfigError::MeasurementWindow);
        }
        if self.stale_after_ms < self.sample_interval_ms {
            return Err(ConfigError::StaleBeforeSample);
        }
        if self.measurement_window_ms > self.sample_interval_ms {
            return Err(ConfigError::WindowBeyondInterval);
        }
        if self.sensors.is_empty() || self.sensors.len() > 3 {
            return Err(ConfigError::SensorCount);
        }
        if self.backend == Backend::Hardware && !self.hardware_confirmed {
            return Err(ConfigError::HardwareUnconfirmed);
        }
        if self.panel_enabled && !self.has_confirmed_hardware() {
            return Err(ConfigError::PanelWithoutHardware);
        }
        if self.gpio_chip.is_empty() {
            return Err(ConfigError::GpioChip);
        }
        Ok(())
    }

    /// Checks every rule, in order, and reports the first one that is broken.
    pub fn validate(&self) -> (result: Result<(), ConfigError>)
        ensures
            result == match config_fault(*self) {
                Some(error) => Err::<(), ConfigError>(error),
                None => Ok::<(), ConfigError>(()),
            },
    {
        self.check_basics()?;
        let mut i: usize = 0;
        while i < self.sensors.len()
            invariant
                i <= self.sensors@.len(),
                sensors_fault(self.sensors@, 0) == sensors_fault(self.sensors@, i as int),
                sensors_fault(self.sensors@, 0) is Some ==> config_fault(*self) == sensors_fault(
                    self.sensors@,
                    0,
                ),
            decreases self.sensors.len() - i,
        {
            check_sensor(&self.sensors, i)?;
            i += 1;
        }
        if let Some(mqtt) = &self.mqtt {
            mqtt.check()?;
        }
        if let Some(pump) = &self.pump {
            self.check_pump(pump)?;
        }
        Ok(())
    }
}

/// A path of a configuration, taken from the directory that the configuration lies in.
pub open spec fn placed(directory: Seq<u8>, path: Seq<u8>) -> Seq<u8> {
    if relative(path) {
        joined(directory, path)
    } else {
        path
    }
}

/// An optional path, taken from a directory.
pub open spec fn placed_option(
    directory: Seq<u8>,
    before: Option<Vec<u8>>,
    after: Option<Vec<u8>>,
) -> bool {
    match before {
        Some(path) => after is Some && after->0@ == placed(directory, path@),
        None => after is None,
    }
}

fn place(directory: &[u8], path: Vec<u8>) -> (whole: Vec<u8>)
    ensures
        whole@ == placed(directory@, path@),
{
    if is_relative(path.as_slice()) {
        join(directory, path.as_slice())
    } else {
        path
    }
}

fn place_option(directory: &[u8], path: Option<Vec<u8>>) -> (whole: Option<Vec<u8>>)
    ensures
        placed_option(directory@, path, whole),
{
    match path {
        Some(path) => Some(place(directory, path)),
        None => None,
    }
}

impl MqttConfig {
    /// Whether this section is another one with its credential path taken from a directory.
    pub open spec fn placed_from(self, before: MqttConfig, directory: Seq<u8>) -> bool {
        &&& placed_option(directory, before.password_file, self.password_file)
        &&& self == (MqttConfig { password_file: self.password_file, ..before })
    }

    fn placed_in(self, directory: &[u8]) -> (whole: MqttConfig)
        ensures
            whole.placed_from(self, directory@),
    {
        let password_file = place_option(directory, self.password_file);
        MqttConfig {
            host: self.host,
            port: self.port,
            topic_prefix: self.topic_prefix,
            discovery_prefix: self.discovery_prefix,
            username: self.username,
            password_file,
        }
    }
}

impl PumpConfig {
    /// Whether this section is another one with its paths taken from a directory.
    pub open spec fn placed_from(self, before: PumpConfig, directory: Seq<u8>) -> bool {
        &&& self.state_file@ == placed(directory, before.state_file@)
        &&& placed_option(directory, before.mqtt_token_file, self.mqtt_token_file)
        &&& self == (PumpConfig {
            state_file: self.state_file,
            mqtt_token_file: self.mqtt_token_file,
            ..before
        })
    }

    fn placed_in(self, directory: &[u8]) -> (whole: PumpConfig)
        ensures
            whole.placed_from(self, directory@),
    {
        let state_file = place(directory, self.state_file);
        let mqtt_token_file = place_option(directory, self.mqtt_token_file);
        PumpConfig {
            enabled: self.enabled,
            channels: self.channels,
            max_duration_ms: self.max_duration_ms,
            max_total_ms_per_24h: self.max_total_ms_per_24h,
            debug_mode: self.debug_mode,
            state_file,
            mqtt_token_file,
        }
    }
}

impl Config {
    /// Whether this configuration is another one with the paths of its broker and pump
    /// sections taken from a directory.
    pub open spec fn placed_from(self, before: Config, directory: Seq<u8>) -> bool {
        &&& match before.mqtt {
            Some(mqtt) => self.mqtt is Some && self.mqtt->0.placed_from(mqtt, directory),
            None => self.mqtt is None,
        }
        &&& match before.pump {
            Some(pump) => self.pump is Some && self.pump->0.placed_from(pump, directory),
            None => self.pump is None,
        }
        &&& self == (Config { mqtt: self.mqtt, pump: self.pump, ..before })
    }

    /// Takes the relative credential, ledger and token paths from the directory that the
    /// configuration file lies in. Absolute ones, and all else, stay as they are.
    pub fn placed_in(self, directory: &[u8]) -> (whole: Config)
        ensures
            whole.placed_from(self, directory@),
    {
        let mqtt = match self.mqtt {
            Some(mqtt) => Some(mqtt.placed_in(directory)),
            None => None,
        };
        let pump = match self.pump {
            Some(pump) => Some(pump.placed_in(directory)),
            None => None,
        };
        Config {
            device_id: self.device_id,
            name: self.name,
            backend: self.backend,
            sample_interval_ms: self.sample_interval_ms,
            stale_after_ms: self.stale_after_ms,
            measurement_window_ms: self.measurement_window_ms,
            gpio_chip: self.gpio_chip,
            hardware_confirmed: self.hardware_confirmed,
            panel_enabled: self.panel_enabled,
            sensors: self.sensors,
            mqtt,
            pump,
        }
    }

    /// Takes the paths from the configuration file's directory, then checks every rule.
    pub fn accept(self, directory: &[u8]) -> (result: Result<Config, ConfigError>)
        ensures
            match result {
                Ok(config) => config.placed_from(self, directory@) && config_fault(config) is None,
                Err(error) => exists|config: Config|
                    #[trigger] config.placed_from(self, directory@) && config_fault(config) == Some(
                        error,
                    ),
            },
    {
        let config = self.placed_in(directory);
        match config.validate() {
            Ok(()) => Ok(config),
            Err(error) => {
                assert(config.placed_from(self, directory@));
                Err(error)
            },
        }
    }
}

/// What may be shown of a secret: whether there is one.
pub open spec fn shown_secret<T>(secret: Option<T>, shown: Option<&str>) -> bool {
    match secret {
        Some(_) => shown is Some && shown->0@ == "[redacted]"@,
        None => shown is None,
    }
}

/// What may be shown of a secret: whether there is one.
pub fn redacted<T>(secret: &Option<T>) -> (shown: Option<&'static str>)
    ensures
        shown_secret(*secret, shown),
{
    match secret {
        Some(_) => Some("[redacted]"),
        None => None,
    }
}

/// No sensor of an accepted configuration breaks a rule.
pub proof fn lemma_sensors_sound(sensors: Seq<SensorConfig>, i: int, j: int)
    requires
        0 <= i <= j < sensors.len(),
        sensors_fault(sensors, i) is None,
    ensures
        sensor_fault(sensors, j) is None,
    decreases j - i,
{
    if i < j {
        lemma_sensors_sound(sensors, i + 1, j);
    }
}

/// What an accepted configuration guarantees: one to three sensors on distinct channels
/// of the board, a sampling rhythm that fits, and confirmed hardware wherever the real
/// board, its panel or a pump is used.
pub proof fn law_accepted_configuration(config: Config)
    requires
        config_fault(config) is None,
    ensures
        1 <= config.sensors@.len() <= 3,
        forall|i: int|
            0 <= i < config.sensors@.len() ==> board_channel(
                (#[trigger] config.sensors@[i]).channel,
            ),
        forall|i: int, j: int|
            0 <= i < j < config.sensors@.len() ==> (#[trigger] config.sensors@[i]).channel != (
            #[trigger] config.sensors@[j]).channel,
        forall|i: int|
            0 <= i < config.sensors@.len() && (#[trigger] config.sensors@[i]).calibration is Some
                ==> config.sensors@[i].calibration->0.sound(),
        config.measurement_window_ms <= config.sample_interval_ms <= config.stale_after_ms,
        config.backend == Backend::Hardware ==> config.hardware_confirmed,
        config.panel_enabled ==> confirmed_hardware(config),
        config.pump is Some && config.pump->0.enabled ==> confirmed_hardware(config),
{
    assert forall|i: int| 0 <= i < config.sensors@.len() implies sensor_fault(
        config.sensors@,
        i,
    ) is None by {
        lemma_sensors_sound(config.sensors@, 0, i);
    }
    assert forall|i: int| 0 <= i < config.sensors@.len() implies board_channel(
        (#[trigger] config.sensors@[i]).channel,
    ) by {
        assert(sensor_fault(config.sensors@, i) is None);
    }
    assert forall|i: int, j: int| 0 <= i < j < config.sensors@.len() implies (
    #[trigger] config.sensors@[i]).channel != (#[trigger] config.sensors@[j]).channel by {
        assert(sensor_fault(config.sensors@, j) is None);
        assert(!sensor_repeated(config.sensors@, j));
    }
    assert forall|i: int|
        0 <= i < config.sensors@.len() && (
        #[trigger] config.sensors@[i]).calibration is Some implies config.sensors@[i].calibration->0.sound() by {
        assert(sensor_fault(config.sensors@, i) is None);
    }
}

/// Showing a configuration tells nothing about a secret beyond its presence.
pub proof fn law_redaction_hides_the_secret<T>(
    a: Option<T>,
    b: Option<T>,
    shown_a: Option<&str>,
    shown_b: Option<&str>,
)
    requires
        a is Some == b is Some,
        shown_secret(a, shown_a),
        shown_secret(b, shown_b),
    ensures
        shown_a is Some == shown_b is Some,
        shown_a is Some ==> shown_a->0@ == shown_b->0@,
{
}

/// An absolute path is kept, and a relative one ends up below the directory.
pub proof fn law_paths_lie_beside_the_configuration(directory: Seq<u8>, path: Seq<u8>)
    ensures
        !relative(path) ==> placed(directory, path) == path,
        relative(path) ==> exists|between: Seq<u8>|
            placed(directory, path) == #[trigger] (directory + between) + path,
{
    if relative(path) {
        let between = if directory.len() == 0 || directory.last() == crate::path::SLASH {
            Seq::<u8>::empty()
        } else {
            seq![crate::path::SLASH]
        };
        assert(placed(directory, path) =~= (directory + between) + path);
    }
}

/// Whether a sensor is one that a configuration can have beside those before it: on one of the
/// channels 1 to 3 that none of them has, with a name, with a positive finite frequency to
/// simulate, and with a calibration between two such frequencies, if it has one.
pub open spec fn good_sensor(sensors: Seq<SensorConfig>, i: int) -> bool {
    let sensor = sensors[i];
    let infinity: u64 = 0x7ff0_0000_0000_0000;
    &&& 1 <= sensor.channel <= 3
    &&& forall|j: int| 0 <= j < i ==> (#[trigger] sensors[j]).channel != sensor.channel
    &&& exists|k: int| 0 <= k < sensor.name@.len() && !crate::text::white_space(sensor.name@[k])
    &&& 0 < sensor.simulated_hz.bits < infinity
    &&& sensor.calibration matches Some(ends) ==> 0 < ends.dry_hz.bits < infinity && 0
        < ends.wet_hz.bits < infinity && ends.dry_hz.bits != ends.wet_hz.bits
}

/// Whether a broker section is one that a configuration can have.
pub open spec fn good_broker(mqtt: MqttConfig) -> bool {
    &&& mqtt.password_file is Some ==> mqtt.username is Some
    &&& mqtt.host@.len() > 0
    &&& forall|k: int|
        0 <= k < mqtt.host@.len() ==> !crate::text::white_space(#[trigger] mqtt.host@[k])
    &&& mqtt.port > 0
    &&& identifier_path(mqtt.topic_prefix@)
    &&& identifier_path(mqtt.discovery_prefix@)
}

/// Whether a pump section that is enabled is one that a configuration can have.
pub open spec fn good_pump(config: Config, pump: PumpConfig) -> bool {
    &&& config.hardware_confirmed
    &&& config.backend is Hardware
    &&& 1 <= pump.channels@.len() <= 3
    &&& forall|i: int| 0 <= i < pump.channels@.len() ==> 1 <= #[trigger] pump.channels@[i] <= 3
    &&& forall|i: int, j: int|
        0 <= i < j < pump.channels@.len() ==> #[trigger] pump.channels@[i]
            != #[trigger] pump.channels@[j]
    &&& 1 <= pump.max_duration_ms <= 20_000
    &&& pump.max_duration_ms <= pump.max_total_ms_per_24h <= 300_000
    &&& file_name(pump.state_file@) is Some
    &&& pump.mqtt_token_file is Some ==> config.mqtt is Some
}

proof fn lemma_good_sensor(sensors: Seq<SensorConfig>, i: int)
    requires
        0 <= i < sensors.len(),
    ensures
        sensor_fault(sensors, i) is None <==> good_sensor(sensors, i),
{
    let name = sensors[i].name@;
    if !blank(name) {
        let k = choose|k: int|
            0 <= k < name.len() && !crate::text::white_space(#[trigger] name[k]);
        assert(!crate::text::white_space(name[k]));
    }
    if sensor_fault(sensors, i) is None {
        assert forall|j: int| 0 <= j < i implies (#[trigger] sensors[j]).channel
            != sensors[i].channel by {
            assert(!sensor_repeated(sensors, i));
        }
    }
}

proof fn lemma_good_sensors(sensors: Seq<SensorConfig>, i: int)
    requires
        0 <= i <= sensors.len(),
    ensures
        sensors_fault(sensors, i) is None <==> forall|j: int|
            i <= j < sensors.len() ==> #[trigger] good_sensor(sensors, j),
    decreases sensors.len() - i,
{
    if i < sensors.len() {
        lemma_good_sensor(sensors, i);
        lemma_good_sensors(sensors, i + 1);
        if sensors_fault(sensors, i) is None {
            assert forall|j: int| i <= j < sensors.len() implies #[trigger] good_sensor(
                sensors,
                j,
            ) by {
                if j > i {
                    assert(i + 1 <= j);
                }
            }
        }
    }
}

proof fn lemma_good_broker(mqtt: MqttConfig)
    ensures
        mqtt_fault(mqtt) is None <==> good_broker(mqtt),
{
}

proof fn lemma_good_pump(config: Config, pump: PumpConfig)
    requires
        pump.enabled,
    ensures
        pump_fault(config, pump) is None <==> good_pump(config, pump),
{
    assert(distinct_board_channels(pump.channels@) <==> {
        &&& forall|i: int| 0 <= i < pump.channels@.len() ==> 1 <= #[trigger] pump.channels@[i] <= 3
        &&& forall|i: int, j: int|
            0 <= i < j < pump.channels@.len() ==> #[trigger] pump.channels@[i]
                != #[trigger] pump.channels@[j]
    }) by {
        if distinct_board_channels(pump.channels@) {
            assert forall|i: int| 0 <= i < pump.channels@.len() implies 1
                <= #[trigger] pump.channels@[i] <= 3 by {
                assert(board_channel(pump.channels@[i]));
            }
        }
    }
}

/// Which configurations are accepted: exactly those with an identifier for the device and a
/// name, timings from a millisecond to an hour that fit into each other, one to three good
/// sensors, confirmed hardware wherever the board or its panel is used, a device for the lines,
/// and good sections for a broker and for an enabled pump, if they have them.
pub proof fn law_configuration_is_accepted_exactly_if_good(config: Config)
    ensures
        config_fault(config) is None <==> {
            &&& identifier(config.device_id@)
            &&& exists|k: int|
                0 <= k < config.name@.len() && !crate::text::white_space(config.name@[k])
            &&& 1 <= config.measurement_window_ms <= config.sample_interval_ms
            &&& config.sample_interval_ms <= config.stale_after_ms <= 3_600_000
            &&& 1 <= config.sensors@.len() <= 3
            &&& config.backend is Hardware ==> config.hardware_confirmed
            &&& config.panel_enabled ==> config.hardware_confirmed && config.backend is Hardware
            &&& config.gpio_chip@.len() > 0
            &&& forall|i: int|
                0 <= i < config.sensors@.len() ==> #[trigger] good_sensor(config.sensors@, i)
            &&& config.mqtt is Some ==> good_broker(config.mqtt->Some_0)
            &&& config.pump is Some && config.pump->Some_0.enabled ==> good_pump(
                config,
                config.pump->Some_0,
            )
        },
{
    lemma_good_sensors(config.sensors@, 0);
    if let Some(mqtt) = config.mqtt {
        lemma_good_broker(mqtt);
    }
    if let Some(pump) = config.pump {
        if pump.enabled {
            lemma_good_pump(config, pump);
        }
    }
    if !blank(config.name@) {
        let k = choose|k: int|
            0 <= k < config.name@.len() && !crate::text::white_space(#[trigger] config.name@[k]);
        assert(!crate::text::white_space(config.name@[k]));
    }
}

/// A configuration that is not accepted is told a rule that it breaks.
pub proof fn law_fault_names_a_broken_rule(config: Config)
    ensures
        match config_fault(config) {
            None => true,
            Some(ConfigError::DeviceId) => !identifier(config.device_id@),
            Some(ConfigError::Name) => blank(config.name@),
            Some(ConfigError::SampleInterval) => config.sample_interval_ms == 0
                || config.sample_interval_ms > 3_600_000,
            Some(ConfigError::StaleAfter) => config.stale_after_ms == 0 || config.stale_after_ms
                > 3_600_000,
            Some(ConfigError::MeasurementWindow) => config.measurement_window_ms == 0
                || config.measurement_window_ms > 3_600_000,
            Some(ConfigError::StaleBeforeSample) => config.stale_after_ms
                < config.sample_interval_ms,
            Some(ConfigError::WindowBeyondInterval) => config.measurement_window_ms
                > config.sample_interval_ms,
            Some(ConfigError::SensorCount) => config.sensors@.len() == 0 || config.sensors@.len()
                > 3,
            Some(ConfigError::HardwareUnconfirmed) => config.backend is Hardware
                && !config.hardware_confirmed,
            Some(ConfigError::PanelWithoutHardware) => config.panel_enabled && !(
            config.hardware_confirmed && config.backend is Hardware),
            Some(ConfigError::GpioChip) => config.gpio_chip@.len() == 0,
            Some(ConfigError::SensorChannel) | Some(ConfigError::SensorName) | Some(
                ConfigError::SimulatedFrequency,
            ) | Some(ConfigError::CalibrationEnds) => exists|i: int|
                0 <= i < config.sensors@.len() && #[trigger] breaks(
                    config.sensors@,
                    i,
                    config_fault(config)->Some_0,
                ),
            Some(ConfigError::PasswordWithoutUsername) => config.mqtt is Some
                && config.mqtt->Some_0.password_file is Some && config.mqtt->Some_0.username is None,
            Some(ConfigError::MqttAddress) => config.mqtt is Some && (
            config.mqtt->Some_0.host@.len() == 0 || has_white_space(config.mqtt->Some_0.host@)
                || config.mqtt->Some_0.port == 0),
            Some(ConfigError::MqttPrefix) => config.mqtt is Some && !(identifier_path(
                config.mqtt->Some_0.topic_prefix@,
            ) && identifier_path(config.mqtt->Some_0.discovery_prefix@)),
            Some(ConfigError::PumpWithoutHardware) => config.pump is Some
                && config.pump->Some_0.enabled && !(config.hardware_confirmed
                && config.backend is Hardware),
            Some(ConfigError::PumpChannelCount) => config.pump is Some && !(1
                <= config.pump->Some_0.channels@.len() <= 3),
            Some(ConfigError::PumpChannel) => config.pump is Some && !distinct_board_channels(
                config.pump->Some_0.channels@,
            ),
            Some(ConfigError::PumpLimits) => config.pump is Some && (
            config.pump->Some_0.max_duration_ms == 0 || config.pump->Some_0.max_duration_ms > 20_000
                || config.pump->Some_0.max_total_ms_per_24h < config.pump->Some_0.max_duration_ms
                || config.pump->Some_0.max_total_ms_per_24h > 300_000),
            Some(ConfigError::PumpStateFile) => config.pump is Some && file_name(
                config.pump->Some_0.state_file@,
            ) is None,
            Some(ConfigError::PumpTokenWithoutMqtt) => config.pump is Some
                && config.pump->Some_0.mqtt_token_file is Some && config.mqtt is None,
        },
{
    lemma_first_faulty_sensor(config.sensors@, 0);
}

/// Whether a sensor breaks a rule of sensors.
pub open spec fn breaks(sensors: Seq<SensorConfig>, i: int, error: ConfigError) -> bool {
    let sensor = sensors[i];
    let infinity: u64 = 0x7ff0_0000_0000_0000;
    match error {
        ConfigError::SensorChannel => sensor.channel < 1 || sensor.channel > 3 || exists|j: int|
            0 <= j < i && (#[trigger] sensors[j]).channel == sensor.channel,
        ConfigError::SensorName => blank(sensor.name@),
        ConfigError::SimulatedFrequency => sensor.simulated_hz.bits == 0 || sensor.simulated_hz.bits
            >= infinity,
        ConfigError::CalibrationEnds => sensor.calibration is Some && {
            let ends = sensor.calibration->Some_0;
            ends.dry_hz.bits == 0 || ends.dry_hz.bits >= infinity || ends.wet_hz.bits == 0
                || ends.wet_hz.bits >= infinity || ends.dry_hz.bits == ends.wet_hz.bits
        },
        _ => false,
    }
}

proof fn lemma_first_faulty_sensor(sensors: Seq<SensorConfig>, i: int)
    requires
        0 <= i <= sensors.len(),
    ensures
        sensors_fault(sensors, i) matches Some(error) ==> exists|j: int|
            0 <= j < sensors.len() && #[trigger] breaks(sensors, j, error),
    decreases sensors.len() - i,
{
    if i < sensors.len() {
        lemma_first_faulty_sensor(sensors, i + 1);
        if let Some(error) = sensor_fault(sensors, i) {
            assert(breaks(sensors, i, error));
        }
    }
}

/// Of several broken rules the first one is told, in the order in which they are listed: those
/// of the device and its timings, of the sensors, of the broker, of the pump.
pub proof fn law_first_broken_rule_is_told(config: Config)
    ensures
        !identifier(config.device_id@) ==> config_fault(config) == Some(ConfigError::DeviceId),
        identifier(config.device_id@) && blank(config.name@) ==> config_fault(config) == Some(
            ConfigError::Name,
        ),
        config_fault(config) matches Some(error) ==> {
            let of_sensor = error is SensorChannel || error is SensorName
                || error is SimulatedFrequency || error is CalibrationEnds;
            let of_broker = error is PasswordWithoutUsername || error is MqttAddress
                || error is MqttPrefix;
            let of_pump = error is PumpWithoutHardware || error is PumpChannelCount
                || error is PumpChannel || error is PumpLimits || error is PumpStateFile
                || error is PumpTokenWithoutMqtt;
            let sensors_good = forall|i: int|
                0 <= i < config.sensors@.len() ==> #[trigger] good_sensor(config.sensors@, i);
            &&& of_sensor ==> !sensors_good && config.gpio_chip@.len() > 0
                && config.measurement_window_ms <= config.sample_interval_ms
                <= config.stale_after_ms
            &&& of_broker ==> sensors_good && config.mqtt is Some && !good_broker(
                config.mqtt->Some_0,
            )
            &&& of_pump ==> sensors_good && (config.mqtt is Some ==> good_broker(
                config.mqtt->Some_0,
            )) && config.pump is Some && config.pump->Some_0.enabled
        },
{
    lemma_good_sensors(config.sensors@, 0);
    lemma_first_faulty_sensor(config.sensors@, 0);
    if let Some(mqtt) = config.mqtt {
        lemma_good_broker(mqtt);
    }
}

/// What a configuration leaves out is set so that it fits together: a sample every five seconds,
/// stale after three of them and measured for one, pulses of at most five seconds and thirty in
/// a day, and the usual port, prefixes and device.
pub proof fn law_defaults_fit_together(
    interval_ms: u64,
    stale_ms: u64,
    window_ms: u64,
    pulse_ms: u64,
    day_ms: u64,
    port: u16,
    topics: String,
    discovery: String,
    chip: Vec<u8>,
)
    requires
        call_ensures(sample_interval, (), interval_ms),
        call_ensures(stale_after, (), stale_ms),
        call_ensures(measurement_window, (), window_ms),
        call_ensures(pump_max_duration, (), pulse_ms),
        call_ensures(pump_daily_limit, (), day_ms),
        call_ensures(mqtt_port, (), port),
        call_ensures(topic_prefix, (), topics),
        call_ensures(discovery_prefix, (), discovery),
        call_ensures(gpio_chip, (), chip),
    ensures
        1 <= window_ms <= interval_ms <= stale_ms <= 3_600_000,
        interval_ms == 5_000,
        stale_ms == 3 * interval_ms,
        window_ms == 1_000,
        pulse_ms == 5_000,
        day_ms == 6 * pulse_ms,
        port == 1883,
        topics@ == "growhat"@,
        discovery@ == "homeassistant"@,
        chip@ == encode_utf8("/dev/gpiochip0"@),
{
}

/// Where the paths of a configuration lie: an absolute one where it says, and a relative one
/// below the directory, with one slash between them unless the directory ends in one or is
/// empty.
pub proof fn law_relative_paths_begin_at_the_directory(directory: Seq<u8>, path: Seq<u8>)
    ensures
        path.len() > 0 && path[0] == 47 ==> placed(directory, path) == path,
        (path.len() == 0 || path[0] != 47) && directory.len() > 0 && directory.last() != 47
            ==> placed(directory, path) == directory + seq![47u8] + path,
        (path.len() == 0 || path[0] != 47) && (directory.len() == 0 || directory.last() == 47)
            ==> placed(directory, path) == directory + path,
{
    assert(directory.push(47u8) + path =~= directory + seq![47u8] + path);
}

/// Only the paths of the broker's password, of the pump's ledger and of its token are moved;
/// everything else of a configuration stays as it is.
pub proof fn law_placing_moves_only_paths(before: Config, after: Config, directory: Seq<u8>)
    requires
        after.placed_from(before, directory),
    ensures
        after.device_id == before.device_id,
        after.name == before.name,
        after.backend == before.backend,
        after.sample_interval_ms == before.sample_interval_ms,
        after.stale_after_ms == before.stale_after_ms,
        after.measurement_window_ms == before.measurement_window_ms,
        after.gpio_chip == before.gpio_chip,
        after.hardware_confirmed == before.hardware_confirmed,
        after.panel_enabled == before.panel_enabled,
        after.sensors == before.sensors,
        before.mqtt is Some <==> after.mqtt is Some,
        before.mqtt is Some ==> {
            let old = before.mqtt->Some_0;
            let new = after.mqtt->Some_0;
            &&& new.host == old.host && new.port == old.port && new.username == old.username
            &&& new.topic_prefix == old.topic_prefix && new.discovery_prefix == old.discovery_prefix
            &&& new.password_file is Some <==> old.password_file is Some
            &&& new.password_file is Some ==> new.password_file->Some_0@ == placed(
                directory,
                old.password_file->Some_0@,
            )
        },
        before.pump is Some <==> after.pump is Some,
        before.pump is Some ==> {
            let old = before.pump->Some_0;
            let new = after.pump->Some_0;
            &&& new.enabled == old.enabled && new.channels == old.channels
            &&& new.max_duration_ms == old.max_duration_ms
            &&& new.max_total_ms_per_24h == old.max_total_ms_per_24h
            &&& new.debug_mode == old.debug_mode
            &&& new.state_file@ == placed(directory, old.state_file@)
            &&& new.mqtt_token_file is Some <==> old.mqtt_token_file is Some
            &&& new.mqtt_token_file is Some ==> new.mqtt_token_file->Some_0@ == placed(
                directory,
                old.mqtt_token_file->Some_0@,
            )
        },
{
}

/// What the owner of a configuration reads of the rule that it breaks.
pub proof fn law_words_for_broken_rules()
    ensures
        config_message(ConfigError::DeviceId)
            == "device_id must contain only ASCII letters, digits, underscores or hyphens"@,
        config_message(ConfigError::Name) == "name must not be empty"@,
        config_message(ConfigError::SampleInterval)
            == "sample_interval_ms must be between 1 and 3600000"@,
        config_message(ConfigError::StaleAfter) == "stale_after_ms must be between 1 and 3600000"@,
        config_message(ConfigError::MeasurementWindow)
            == "measurement_window_ms must be between 1 and 3600000"@,
        config_message(ConfigError::StaleBeforeSample)
            == "stale_after_ms must be at least sample_interval_ms"@,
        config_message(ConfigError::WindowBeyondInterval)
            == "measurement_window_ms must not exceed sample_interval_ms"@,
        config_message(ConfigError::SensorCount) == "configure one to three sensors"@,
        config_message(ConfigError::HardwareUnconfirmed)
            == "hardware backend requires hardware_confirmed = true"@,
        config_message(ConfigError::PanelWithoutHardware)
            == "panel_enabled requires confirmed hardware backend"@,
        config_message(ConfigError::GpioChip) == "gpio_chip must not be empty"@,
        config_message(ConfigError::SensorChannel)
            == "sensor channels must be unique and within 1..3"@,
        config_message(ConfigError::SensorName) == "sensor name must not be empty"@,
        config_message(ConfigError::SimulatedFrequency)
            == "simulated_hz must be positive and finite"@,
        config_message(ConfigError::CalibrationEnds)
            == "calibration endpoints must be distinct positive finite frequencies"@,
        config_message(ConfigError::PasswordWithoutUsername)
            == "MQTT password_file requires username"@,
        config_message(ConfigError::MqttAddress) == "invalid MQTT host or port"@,
        config_message(ConfigError::MqttPrefix)
            == "MQTT prefixes must contain safe nonempty topic segments"@,
        config_message(ConfigError::PumpWithoutHardware)
            == "pump requires confirmed hardware backend"@,
        config_message(ConfigError::PumpChannelCount)
            == "pump requires one to three enabled channels"@,
        config_message(ConfigError::PumpChannel) == "pump channels must be unique and within 1..3"@,
        config_message(ConfigError::PumpLimits)
            == "pump duration and 24-hour budget are out of range"@,
        config_message(ConfigError::PumpStateFile) == "pump state_file must name a file"@,
        config_message(ConfigError::PumpTokenWithoutMqtt)
            == "pump mqtt_token_file requires MQTT configuration"@,
{
}

} // verus!
