//! What Home Assistant is told so that it finds a controller's sensors and buttons.
use serde_json::Value;
use vstd::prelude::*;
use vstd::string::*;

use crate::button::button_name;
use crate::config::{Config, SensorConfig};
use crate::json::{body, boolean, list, null, string, unsigned, Json, Members};
use crate::text::decimal_text;
use crate::topic::{button_under_base, kept_message, reading_state, under_base, Message};

verus! {

/// The version that a controller reports.
pub const VERSION: &'static str = "0.1.0";

/// What a sensor entity shows.
#[derive(Clone, Copy, Debug, PartialEq, Eq, Structural)]
pub enum Kind {
    Frequency,
    Moisture,
    Status,
}

/// The word for what a sensor entity shows.
pub open spec fn kind_word(kind: Kind) -> Seq<char> {
    match kind {
        Kind::Frequency => "frequency"@,
        Kind::Moisture => "moisture"@,
        Kind::Status => "status"@,
    }
}

fn word_of(kind: Kind) -> (word: &'static str)
    ensures
        word@ == kind_word(kind),
{
    match kind {
        Kind::Frequency => "frequency",
        Kind::Moisture => "moisture",
        Kind::Status => "status",
    }
}

/// A topic and the document that goes to it.
pub type Announcement = (Seq<char>, Json);

/// The topics and documents of some announcements.
pub open spec fn announced(messages: Seq<(String, Value)>) -> Seq<Announcement> {
    messages.map_values(|message: (String, Value)| (message.0@, crate::json::held(message.1)))
}

/// No members.
pub open spec fn no_members() -> Map<Seq<char>, Json> {
    Map::empty()
}

/// The device that all entities belong to.
pub open spec fn device(config: Config) -> Json {
    Json::Object(
        no_members().insert(
            "identifiers"@,
            Json::List(seq![Json::Text(config.device_id@)]),
        ).insert("name"@, Json::Text(config.name@)).insert(
            "manufacturer"@,
            Json::Text("Pimoroni"@),
        ).insert("model"@, Json::Text("Grow HAT Mini"@)).insert("sw_version"@, Json::Text(VERSION@)),
    )
}

fn device_value(config: &Config) -> (value: Value)
    ensures
        crate::json::held(value) == device(*config),
{
    let mut identifiers: Vec<Value> = Vec::new();
    identifiers.push(string(config.device_id.clone()));
    assert(crate::json::held_all(identifiers@) =~= seq![Json::Text(config.device_id@)]);
    let mut members = Members::new();
    members.put("identifiers", list(identifiers));
    members.text("name", config.name.as_str());
    members.text("manufacturer", "Pimoroni");
    members.text("model", "Grow HAT Mini");
    members.text("sw_version", VERSION);
    members.finish()
}

/// The topic that tells whether a controller is there.
pub open spec fn availability_topic(config: Config) -> Seq<char> {
    crate::topic::base_topic(config) + "/availability"@
}

/// The topics that an entity's availability depends on: the controller must be there, and a
/// measured value must be current.
pub open spec fn availability(config: Config, channel: u8, kind: Kind) -> Json {
    let controller = Json::Object(
        no_members().insert("topic"@, Json::Text(availability_topic(config))),
    );
    let current = Json::Object(
        no_members().insert("topic"@, Json::Text(crate::topic::reading_topic(config, channel))).insert(
            "value_template"@,
            Json::Text(
                "{{ 'online' if value_json.status in ['valid', 'uncalibrated'] else 'offline' }}"@,
            ),
        ),
    );
    Json::List(
        if kind == Kind::Status {
            seq![controller]
        } else {
            seq![controller, current]
        },
    )
}

fn availability_value(config: &Config, channel: u8, kind: Kind) -> (value: Value)
    requires
        config.mqtt is Some,
    ensures
        crate::json::held(value) == availability(*config, channel, kind),
{
    let mut controller = Members::new();
    controller.text("topic", under_base(config, "/availability").as_str());
    let mut topics: Vec<Value> = Vec::new();
    topics.push(controller.finish());
    if kind != Kind::Status {
        let mut current = Members::new();
        current.text("topic", reading_state(config, channel).as_str());
        current.text(
            "value_template",
            "{{ 'online' if value_json.status in ['valid', 'uncalibrated'] else 'offline' }}",
        );
        topics.push(current.finish());
    }
    let ghost wanted = availability(*config, channel, kind)->List_0;
    assert(crate::json::held_all(topics@) =~= wanted);
    list(topics)
}

/// What tells an entity of a sensor from others.
pub open spec fn sensor_id(config: Config, channel: u8, kind: Kind) -> Seq<char> {
    config.device_id@ + "_"@ + crate::text::decimal(channel as nat) + "_"@ + kind_word(kind)
}

/// What all entities of a sensor have in common.
pub open spec fn common_members(config: Config, sensor: SensorConfig, kind: Kind) -> Map<
    Seq<char>,
    Json,
> {
    no_members().insert("name"@, Json::Text(sensor.name@ + " "@ + kind_word(kind))).insert(
        "unique_id"@,
        Json::Text(sensor_id(config, sensor.channel, kind)),
    ).insert(
        "state_topic"@,
        Json::Text(crate::topic::reading_topic(config, sensor.channel)),
    ).insert(
        "json_attributes_topic"@,
        Json::Text(crate::topic::reading_topic(config, sensor.channel)),
    ).insert("expire_after"@, Json::Unsigned(whole_seconds(config.stale_after_ms))).insert(
        "device"@,
        device(config),
    ).insert("availability"@, availability(config, sensor.channel, kind)).insert(
        "availability_mode"@,
        Json::Text("all"@),
    )
}

/// Milliseconds as seconds, rounded up.
pub open spec fn whole_seconds(ms: u64) -> u64 {
    ((ms + 999) / 1000) as u64
}

fn seconds_of(ms: u64) -> (seconds: u64)
    ensures
        seconds == whole_seconds(ms),
{
    let whole: u64 = ms / 1000;
    if ms % 1000 == 0 {
        whole
    } else {
        whole + 1
    }
}

/// The document that announces an entity of a sensor.
pub open spec fn sensor_entity(config: Config, sensor: SensorConfig, kind: Kind) -> Json {
    let common = common_members(config, sensor, kind);
    Json::Object(
        match kind {
            Kind::Frequency => common.insert("state_class"@, Json::Text("measurement"@)).insert(
                "value_template"@,
                Json::Text("{{ value_json.raw_hz }}"@),
            ).insert("unit_of_measurement"@, Json::Text("Hz"@)).insert(
                "device_class"@,
                Json::Text("frequency"@),
            ).insert("suggested_display_precision"@, Json::Unsigned(2)),
            Kind::Moisture => common.insert("state_class"@, Json::Text("measurement"@)).insert(
                "value_template"@,
                Json::Text("{{ value_json.moisture_percent }}"@),
            ).insert("unit_of_measurement"@, Json::Text("%"@)).insert(
                "device_class"@,
                Json::Text("moisture"@),
            ),
            Kind::Status => common.insert(
                "value_template"@,
                Json::Text("{{ value_json.status }}"@),
            ).insert("entity_category"@, Json::Text("diagnostic"@)),
        },
    )
}

fn common_value(config: &Config, sensor: &SensorConfig, kind: Kind) -> (members: Members)
    requires
        config.mqtt is Some,
    ensures
        members@ == common_members(*config, *sensor, kind),
{
    let word = word_of(kind);
    let name = sensor.name.clone().concat(" ").concat(word);
    let unique_id = config.device_id.clone().concat("_").concat(
        decimal_text(sensor.channel as u64).as_str(),
    ).concat("_").concat(word);
    let state_topic = reading_state(config, sensor.channel);
    let mut members = Members::new();
    members.text("name", name.as_str());
    members.text("unique_id", unique_id.as_str());
    members.text("state_topic", state_topic.as_str());
    members.text("json_attributes_topic", state_topic.as_str());
    members.put("expire_after", unsigned(seconds_of(config.stale_after_ms)));
    members.put("device", device_value(config));
    members.put("availability", availability_value(config, sensor.channel, kind));
    members.text("availability_mode", "all");
    members
}

fn sensor_value(config: &Config, sensor: &SensorConfig, kind: Kind) -> (value: Value)
    requires
        config.mqtt is Some,
    ensures
        crate::json::held(value) == sensor_entity(*config, *sensor, kind),
{
    let mut members = common_value(config, sensor, kind);
    match kind {
        Kind::Frequency => {
            members.text("state_class", "measurement");
            members.text("value_template", "{{ value_json.raw_hz }}");
            members.text("unit_of_measurement", "Hz");
            members.text("device_class", "frequency");
            members.put("suggested_display_precision", unsigned(2));
        },
        Kind::Moisture => {
            members.text("state_class", "measurement");
            members.text("value_template", "{{ value_json.moisture_percent }}");
            members.text("unit_of_measurement", "%");
            members.text("device_class", "moisture");
        },
        Kind::Status => {
            members.text("value_template", "{{ value_json.status }}");
            members.text("entity_category", "diagnostic");
        },
    }
    members.finish()
}

/// The topic that announces an entity of a sensor.
pub open spec fn sensor_topic(config: Config, channel: u8, word: Seq<char>) -> Seq<char> {
    config.mqtt->Some_0.discovery_prefix@ + "/sensor/"@ + config.device_id@ + "_"@
        + crate::text::decimal(channel as nat) + "/"@ + word + "/config"@
}

fn prefix_of(config: &Config) -> (prefix: String)
    requires
        config.mqtt is Some,
    ensures
        prefix@ == config.mqtt->Some_0.discovery_prefix@,
{
    match &config.mqtt {
        Some(mqtt) => mqtt.discovery_prefix.clone(),
        None => String::new(),
    }
}

fn sensor_topic_text(config: &Config, channel: u8, word: &str) -> (topic: String)
    requires
        config.mqtt is Some,
    ensures
        topic@ == sensor_topic(*config, channel, word@),
{
    prefix_of(config).concat("/sensor/").concat(config.device_id.as_str()).concat("_").concat(
        decimal_text(channel as u64).as_str(),
    ).concat("/").concat(word).concat("/config")
}

/// The announcements of a sensor. The raw entity is retired, and so is the moisture entity of
/// a sensor without a calibration: an empty document takes them back.
pub open spec fn sensor_announcements(config: Config, sensor: SensorConfig) -> Seq<Announcement> {
    seq![
        (sensor_topic(config, sensor.channel, "raw"@), Json::Null),
        (
            sensor_topic(config, sensor.channel, "frequency"@),
            sensor_entity(config, sensor, Kind::Frequency),
        ),
        (
            sensor_topic(config, sensor.channel, "moisture"@),
            if sensor.calibration is Some {
                sensor_entity(config, sensor, Kind::Moisture)
            } else {
                Json::Null
            },
        ),
        (
            sensor_topic(config, sensor.channel, "status"@),
            sensor_entity(config, sensor, Kind::Status),
        ),
    ]
}

fn announce_sensor(messages: &mut Vec<(String, Value)>, config: &Config, sensor: &SensorConfig)
    requires
        config.mqtt is Some,
    ensures
        announced(final(messages)@) == announced(old(messages)@) + sensor_announcements(
            *config,
            *sensor,
        ),
{
    let ghost before = announced(messages@);
    let channel: u8 = sensor.channel;
    messages.push((sensor_topic_text(config, channel, "raw"), null()));
    messages.push(
        (
            sensor_topic_text(config, channel, "frequency"),
            sensor_value(config, sensor, Kind::Frequency),
        ),
    );
    let moisture = if sensor.calibration.is_some() {
        sensor_value(config, sensor, Kind::Moisture)
    } else {
        null()
    };
    messages.push((sensor_topic_text(config, channel, "moisture"), moisture));
    messages.push(
        (
            sensor_topic_text(config, channel, "status"),
            sensor_value(config, sensor, Kind::Status),
        ),
    );
    assert(announced(messages@) =~= before + sensor_announcements(*config, *sensor));
}

/// The announcements of the first `n` sensors.
pub open spec fn sensors_announced(config: Config, n: int) -> Seq<Announcement>
    decreases n,
{
    if n <= 0 {
        Seq::empty()
    } else {
        sensors_announced(config, n - 1) + sensor_announcements(config, config.sensors@[n - 1])
    }
}

/// The name of a button in small letters.
pub open spec fn small_name(index: int) -> Seq<char> {
    if index == 0 {
        "a"@
    } else if index == 1 {
        "b"@
    } else if index == 2 {
        "x"@
    } else {
        "y"@
    }
}

fn small_button_name(index: usize) -> (name: &'static str)
    requires
        index < 4,
    ensures
        name@ == small_name(index as int),
{
    if index == 0 {
        "a"
    } else if index == 1 {
        "b"
    } else if index == 2 {
        "x"
    } else {
        "y"
    }
}

/// The topic that announces an entity of a button.
pub open spec fn button_entity_topic(
    config: Config,
    component: Seq<char>,
    index: int,
    suffix: Seq<char>,
) -> Seq<char> {
    config.mqtt->Some_0.discovery_prefix@ + component + config.device_id@ + "/button_"@
        + small_name(index) + suffix + "/config"@
}

fn button_topic_text(config: &Config, component: &str, index: usize, suffix: &str) -> (topic:
    String)
    requires
        config.mqtt is Some,
        index < 4,
    ensures
        topic@ == button_entity_topic(*config, component@, index as int, suffix@),
{
    prefix_of(config).concat(component).concat(config.device_id.as_str()).concat(
        "/button_",
    ).concat(small_button_name(index)).concat(suffix).concat("/config")
}

/// What tells an entity of a button from others.
pub open spec fn button_id(config: Config, index: int, suffix: Seq<char>) -> Seq<char> {
    config.device_id@ + "_button_"@ + small_name(index) + suffix
}

fn button_id_text(config: &Config, index: usize, suffix: &str) -> (id: String)
    requires
        index < 4,
    ensures
        id@ == button_id(*config, index as int, suffix@),
{
    config.device_id.clone().concat("_button_").concat(small_button_name(index)).concat(suffix)
}

/// The document that announces whether a button is held.
pub open spec fn held_entity(config: Config, index: int) -> Json {
    Json::Object(
        no_members().insert(
            "name"@,
            Json::Text("Button "@ + crate::button::name_of(index) + " held"@),
        ).insert("unique_id"@, Json::Text(button_id(config, index, "_held"@))).insert(
            "state_topic"@,
            Json::Text(
                crate::topic::button_topic(config, crate::button::name_of(index), "/state"@),
            ),
        ).insert(
            "value_template"@,
            Json::Text("{{ 'ON' if value_json.pressed else 'OFF' }}"@),
        ).insert("availability_topic"@, Json::Text(availability_topic(config))).insert(
            "device"@,
            device(config),
        ).insert("entity_category"@, Json::Text("diagnostic"@)),
    )
}

fn held_value(config: &Config, index: usize) -> (value: Value)
    requires
        config.mqtt is Some,
        index < 4,
    ensures
        crate::json::held(value) == held_entity(*config, index as int),
{
    let button = button_name(index);
    let mut members = Members::new();
    members.text("name", "Button ".to_owned().concat(button).concat(" held").as_str());
    members.text("unique_id", button_id_text(config, index, "_held").as_str());
    members.text("state_topic", button_under_base(config, button, "/state").as_str());
    members.text("value_template", "{{ 'ON' if value_json.pressed else 'OFF' }}");
    members.text("availability_topic", under_base(config, "/availability").as_str());
    members.put("device", device_value(config));
    members.text("entity_category", "diagnostic");
    members.finish()
}

/// The document that announces how often a button was pressed.
pub open spec fn presses_entity(config: Config, index: int) -> Json {
    Json::Object(
        no_members().insert(
            "name"@,
            Json::Text("Button "@ + crate::button::name_of(index) + " presses"@),
        ).insert("unique_id"@, Json::Text(button_id(config, index, "_presses"@))).insert(
            "state_topic"@,
            Json::Text(
                crate::topic::button_topic(config, crate::button::name_of(index), "/state"@),
            ),
        ).insert("value_template"@, Json::Text("{{ value_json.count }}"@)).insert(
            "state_class"@,
            Json::Text("total_increasing"@),
        ).insert("availability_topic"@, Json::Text(availability_topic(config))).insert(
            "device"@,
            device(config),
        ).insert("entity_category"@, Json::Text("diagnostic"@)),
    )
}

fn presses_value(config: &Config, index: usize) -> (value: Value)
    requires
        config.mqtt is Some,
        index < 4,
    ensures
        crate::json::held(value) == presses_entity(*config, index as int),
{
    let button = button_name(index);
    let mut members = Members::new();
    members.text("name", "Button ".to_owned().concat(button).concat(" presses").as_str());
    members.text("unique_id", button_id_text(config, index, "_presses").as_str());
    members.text("state_topic", button_under_base(config, button, "/state").as_str());
    members.text("value_template", "{{ value_json.count }}");
    members.text("state_class", "total_increasing");
    members.text("availability_topic", under_base(config, "/availability").as_str());
    members.put("device", device_value(config));
    members.text("entity_category", "diagnostic");
    members.finish()
}

/// The document that announces how to press a button from elsewhere.
pub open spec fn remote_entity(config: Config, index: int) -> Json {
    Json::Object(
        no_members().insert(
            "name"@,
            Json::Text("Press "@ + crate::button::name_of(index) + " on HAT"@),
        ).insert("unique_id"@, Json::Text(button_id(config, index, "_remote"@))).insert(
            "command_topic"@,
            Json::Text(
                crate::topic::button_topic(config, crate::button::name_of(index), "/press/set"@),
            ),
        ).insert("payload_press"@, Json::Text("PRESS"@)).insert("retain"@, Json::Bool(false)).insert(
            "availability_topic"@,
            Json::Text(availability_topic(config)),
        ).insert("device"@, device(config)),
    )
}

fn remote_value(config: &Config, index: usize) -> (value: Value)
    requires
        config.mqtt is Some,
        index < 4,
    ensures
        crate::json::held(value) == remote_entity(*config, index as int),
{
    let button = button_name(index);
    let mut members = Members::new();
    members.text("name", "Press ".to_owned().concat(button).concat(" on HAT").as_str());
    members.text("unique_id", button_id_text(config, index, "_remote").as_str());
    members.text("command_topic", button_under_base(config, button, "/press/set").as_str());
    members.text("payload_press", "PRESS");
    members.put("retain", boolean(false));
    members.text("availability_topic", under_base(config, "/availability").as_str());
    members.put("device", device_value(config));
    members.finish()
}

/// The announcements of a button.
pub open spec fn button_announcements(config: Config, index: int) -> Seq<Announcement> {
    seq![
        (
            button_entity_topic(config, "/binary_sensor/"@, index, "_held"@),
            held_entity(config, index),
        ),
        (
            button_entity_topic(config, "/sensor/"@, index, "_presses"@),
            presses_entity(config, index),
        ),
        (
            button_entity_topic(config, "/button/"@, index, "_remote"@),
            remote_entity(config, index),
        ),
    ]
}

/// The announcements of the first `n` buttons.
pub open spec fn buttons_announced(config: Config, n: int) -> Seq<Announcement>
    decreases n,
{
    if n <= 0 {
        Seq::empty()
    } else {
        buttons_announced(config, n - 1) + button_announcements(config, n - 1)
    }
}

/// The announcements of the buttons of an enabled panel.
pub open spec fn panel_announced(config: Config) -> Seq<Announcement> {
    if config.panel_enabled {
        buttons_announced(config, 4)
    } else {
        Seq::empty()
    }
}

/// The announcements of the buttons of an enabled panel.
pub fn button_discovery(config: &Config) -> (messages: Vec<(String, Value)>)
    requires
        config.mqtt is Some,
    ensures
        announced(messages@) == panel_announced(*config),
{
    let mut messages: Vec<(String, Value)> = Vec::new();
    assert(announced(messages@) =~= Seq::<Announcement>::empty());
    if !config.panel_enabled {
        return messages;
    }
    let mut index: usize = 0;
    while index < 4
        invariant
            config.mqtt is Some,
            index <= 4,
            announced(messages@) == buttons_announced(*config, index as int),
        decreases 4 - index,
    {
        let ghost before = announced(messages@);
        messages.push(
            (
                button_topic_text(config, "/binary_sensor/", index, "_held"),
                held_value(config, index),
            ),
        );
        messages.push(
            (
                button_topic_text(config, "/sensor/", index, "_presses"),
                presses_value(config, index),
            ),
        );
        messages.push(
            (
                button_topic_text(config, "/button/", index, "_remote"),
                remote_value(config, index),
            ),
        );
        assert(announced(messages@) =~= before + button_announcements(*config, index as int));
        index += 1;
    }
    messages
}

/// Everything that is announced of a controller.
pub open spec fn all_announced(config: Config) -> Seq<Announcement> {
    sensors_announced(config, config.sensors@.len() as int) + panel_announced(config)
}

/// Everything that is announced of a controller.
pub fn discovery(config: &Config) -> (messages: Vec<(String, Value)>)
    requires
        config.mqtt is Some,
    ensures
        announced(messages@) == all_announced(*config),
{
    let mut messages: Vec<(String, Value)> = Vec::new();
    assert(announced(messages@) =~= Seq::<Announcement>::empty());
    let mut i: usize = 0;
    while i < config.sensors.len()
        invariant
            config.mqtt is Some,
            i <= config.sensors@.len(),
            announced(messages@) == sensors_announced(*config, i as int),
        decreases config.sensors.len() - i,
    {
        announce_sensor(&mut messages, config, &config.sensors[i]);
        i += 1;
    }
    let ghost before = announced(messages@);
    let mut buttons = button_discovery(config);
    let ghost added = announced(buttons@);
    messages.append(&mut buttons);
    assert(announced(messages@) =~= before + added);
    messages
}

/// Whether all documents of some announcements can be written.
pub open spec fn all_shallow(messages: Seq<Announcement>) -> bool {
    forall|i: int|
        0 <= i < messages.len() ==> crate::json::nested_within((#[trigger] messages[i]).1, 128)
}

proof fn lemma_no_members_nested(depth: nat)
    requires
        depth > 0,
    ensures
        crate::json::nested_within(Json::Object(no_members()), depth),
{
}

proof fn lemma_device_shallow(config: Config)
    ensures
        crate::json::nested_within(device(config), 127),
{
    broadcast use crate::json::lemma_member_nested;

    lemma_no_members_nested(127);
    let items = seq![Json::Text(config.device_id@)];
    assert forall|i: int| 0 <= i < items.len() implies crate::json::nested_within(
        #[trigger] items[i],
        125,
    ) by {}
    assert(crate::json::nested_within(Json::List(items), 126));
}

proof fn lemma_availability_shallow(config: Config, channel: u8, kind: Kind)
    ensures
        crate::json::nested_within(availability(config, channel, kind), 127),
{
    broadcast use crate::json::lemma_member_nested;

    lemma_no_members_nested(126);
    let topics = availability(config, channel, kind)->List_0;
    assert forall|i: int| 0 <= i < topics.len() implies crate::json::nested_within(
        #[trigger] topics[i],
        126,
    ) by {
        if i == 0 {
            let controller = no_members().insert("topic"@, Json::Text(availability_topic(config)));
            assert(crate::json::nested_within(Json::Object(controller), 126));
        } else {
            let topic = no_members().insert(
                "topic"@,
                Json::Text(crate::topic::reading_topic(config, channel)),
            );
            assert(crate::json::nested_within(Json::Object(topic), 126));
        }
    }
}

proof fn lemma_sensor_shallow(config: Config, sensor: SensorConfig, kind: Kind)
    ensures
        crate::json::nested_within(sensor_entity(config, sensor, kind), 128),
{
    broadcast use crate::json::lemma_member_nested;

    lemma_no_members_nested(128);
    lemma_device_shallow(config);
    lemma_availability_shallow(config, sensor.channel, kind);
    assert(crate::json::nested_within(
        Json::Object(common_members(config, sensor, kind)),
        128,
    ));
}

proof fn lemma_buttons_shallow(config: Config, n: int)
    requires
        0 <= n <= 4,
    ensures
        all_shallow(buttons_announced(config, n)),
        buttons_announced(config, n).len() == 3 * n,
    decreases n,
{
    broadcast use crate::json::lemma_member_nested;

    if n > 0 {
        lemma_buttons_shallow(config, n - 1);
        lemma_no_members_nested(128);
        lemma_device_shallow(config);
        assert(crate::json::nested_within(held_entity(config, n - 1), 128));
        assert(crate::json::nested_within(presses_entity(config, n - 1), 128));
        assert(crate::json::nested_within(remote_entity(config, n - 1), 128));
        assert(all_shallow(button_announcements(config, n - 1)));
        let earlier = buttons_announced(config, n - 1);
        let all = buttons_announced(config, n);
        assert forall|i: int| 0 <= i < all.len() implies crate::json::nested_within(
            (#[trigger] all[i]).1,
            128,
        ) by {
            if i < earlier.len() {
                assert(all[i] == earlier[i]);
            } else {
                assert(all[i] == button_announcements(config, n - 1)[i - earlier.len()]);
            }
        }
    }
}

proof fn lemma_sensors_shallow(config: Config, n: int)
    requires
        0 <= n <= config.sensors@.len(),
    ensures
        all_shallow(sensors_announced(config, n)),
        sensors_announced(config, n).len() == 4 * n,
    decreases n,
{
    if n > 0 {
        lemma_sensors_shallow(config, n - 1);
        let sensor = config.sensors@[n - 1];
        lemma_sensor_shallow(config, sensor, Kind::Frequency);
        lemma_sensor_shallow(config, sensor, Kind::Moisture);
        lemma_sensor_shallow(config, sensor, Kind::Status);
        assert(all_shallow(sensor_announcements(config, sensor)));
        let earlier = sensors_announced(config, n - 1);
        let all = sensors_announced(config, n);
        assert forall|i: int| 0 <= i < all.len() implies crate::json::nested_within(
            (#[trigger] all[i]).1,
            128,
        ) by {
            if i < earlier.len() {
                assert(all[i] == earlier[i]);
            } else {
                assert(all[i] == sensor_announcements(config, sensor)[i - earlier.len()]);
            }
        }
    }
}

proof fn lemma_all_shallow(config: Config)
    ensures
        all_shallow(all_announced(config)),
{
    lemma_sensors_shallow(config, config.sensors@.len() as int);
    lemma_buttons_shallow(config, 4);
    let sensors = sensors_announced(config, config.sensors@.len() as int);
    let all = all_announced(config);
    assert forall|i: int| 0 <= i < all.len() implies crate::json::nested_within(
        (#[trigger] all[i]).1,
        128,
    ) by {
        if i < sensors.len() {
            assert(all[i] == sensors[i]);
        } else {
            assert(all[i] == panel_announced(config)[i - sensors.len()]);
        }
    }
}

/// The message for an announcement: an empty body takes an entity back.
pub open spec fn announcement_message(announcement: Announcement) -> crate::topic::MessageView {
    crate::topic::kept(
        announcement.0,
        if announcement.1 is Null {
            Seq::empty()
        } else {
            crate::json::written(announcement.1)
        },
    )
}

/// The messages that announce a controller, and last that it is there.
pub open spec fn announcement_messages(config: Config) -> Seq<crate::topic::MessageView> {
    all_announced(config).map_values(
        |announcement: Announcement| announcement_message(announcement),
    ).push(crate::topic::kept(availability_topic(config), online_payload()))
}

/// The bytes that tell that a controller is there.
pub open spec fn online_payload() -> Seq<u8> {
    seq![111u8, 110, 108, 105, 110, 101]
}

/// The bytes that tell that a controller is gone.
pub open spec fn offline_payload() -> Seq<u8> {
    seq![111u8, 102, 102, 108, 105, 110, 101]
}

/// The message that tells whether a controller is there.
pub fn availability_message(config: &Config, online: bool) -> (message: Message)
    requires
        config.mqtt is Some,
    ensures
        message@ == crate::topic::kept(
            availability_topic(*config),
            if online {
                online_payload()
            } else {
                offline_payload()
            },
        ),
{
    let body: Vec<u8> = if online {
        vec![111, 110, 108, 105, 110, 101]
    } else {
        vec![111, 102, 102, 108, 105, 110, 101]
    };
    assert(online ==> body@ =~= online_payload());
    assert(!online ==> body@ =~= offline_payload());
    kept_message(under_base(config, "/availability"), body)
}

/// The messages that announce a controller, and last that it is there.
pub fn announce(config: &Config) -> (messages: Vec<Message>)
    requires
        config.mqtt is Some,
    ensures
        crate::topic::message_views(messages@) == announcement_messages(*config),
{
    let announcements = discovery(config);
    let mut messages: Vec<Message> = Vec::new();
    let ghost all = all_announced(*config);
    let ghost wanted = all.map_values(
        |announcement: Announcement| announcement_message(announcement),
    );
    proof {
        lemma_all_shallow(*config);
        assert(crate::topic::message_views(messages@) =~= wanted.take(0));
    }
    let mut i: usize = 0;
    while i < announcements.len()
        invariant
            announced(announcements@) == all,
            all_shallow(all),
            wanted == all.map_values(
                |announcement: Announcement| announcement_message(announcement),
            ),
            i <= announcements@.len(),
            crate::topic::message_views(messages@) == wanted.take(i as int),
        decreases announcements.len() - i,
    {
        let ghost before = crate::topic::message_views(messages@);
        let announcement = &announcements[i];
        assert(all[i as int] == (announcement.0@, crate::json::held(announcement.1)));
        let text: Vec<u8> = if announcement.1.is_null() {
            Vec::new()
        } else {
            body(&announcement.1)
        };
        assert(announcement.1 == announcements@[i as int].1);
        messages.push(kept_message(announcement.0.clone(), text));
        proof {
            assert(messages@.last()@ =~= announcement_message(all[i as int]));
            assert(crate::topic::message_views(messages@) =~= before.push(wanted[i as int]));
            assert(wanted.take(i + 1) =~= wanted.take(i as int).push(wanted[i as int]));
        }
        i += 1;
    }
    let ghost before = crate::topic::message_views(messages@);
    messages.push(availability_message(config, true));
    proof {
        assert(wanted.take(i as int) =~= wanted);
        assert(crate::topic::message_views(messages@) =~= before.push(
            crate::topic::kept(availability_topic(*config), online_payload()),
        ));
    }
    messages
}

/// A controller announces four entities for each sensor, and twelve more for the buttons of
/// an enabled panel.
pub proof fn law_number_of_announcements(config: Config)
    ensures
        all_announced(config).len() == 4 * config.sensors@.len() + if config.panel_enabled {
            12int
        } else {
            0
        },
{
    lemma_sensors_shallow(config, config.sensors@.len() as int);
    lemma_buttons_shallow(config, 4);
}

/// All announcements are kept by the broker and delivered at least once.
pub proof fn law_announcements_are_kept(config: Config, i: int)
    requires
        0 <= i < announcement_messages(config).len(),
    ensures
        announcement_messages(config)[i].retain,
        announcement_messages(config)[i].delivery == crate::topic::Delivery::AtLeastOnce,
{
}

/// A sensor without a calibration has no moisture entity: what is announced for it takes any
/// earlier one back.
pub proof fn law_no_percentage_without_calibration(config: Config, sensor: SensorConfig)
    requires
        sensor.calibration is None,
    ensures
        announcement_message(sensor_announcements(config, sensor)[2]) == crate::topic::kept(
            sensor_topic(config, sensor.channel, "moisture"@),
            Seq::empty(),
        ),
{
}

/// A press of an announced remote button goes to the topic that the controller listens on
/// for that button.
pub proof fn law_remote_entity_presses_its_button(config: Config, index: int)
    requires
        0 <= index < 4,
    ensures
        ({
            let members = remote_entity(config, index)->Object_0;
            members["command_topic"@] == Json::Text(
                crate::topic::button_topic(
                    config,
                    crate::button::name_of(index),
                    "/press/set"@,
                ),
            )
        }),
{
    reveal_strlit("command_topic");
    reveal_strlit("payload_press");
    reveal_strlit("retain");
    reveal_strlit("availability_topic");
    reveal_strlit("device");
    assert("command_topic"@.len() == 13);
    assert("payload_press"@.len() == 13);
    assert("command_topic"@[0] != "payload_press"@[0]);
    assert("retain"@.len() == 6);
    assert("availability_topic"@.len() == 18);
    assert("device"@.len() == 6);
}

/// No two entities of a controller's sensors share an identity, and an identity does not
/// depend on anything but the controller, the channel and what the entity shows.
pub proof fn law_sensor_identities_are_distinct(
    config: Config,
    channel: u8,
    kind: Kind,
    other_channel: u8,
    other_kind: Kind,
)
    requires
        crate::config::board_channel(channel),
        crate::config::board_channel(other_channel),
        channel != other_channel || kind != other_kind,
    ensures
        sensor_id(config, channel, kind) != sensor_id(config, other_channel, other_kind),
{
    reveal_strlit("frequency");
    reveal_strlit("moisture");
    reveal_strlit("status");
    let one = sensor_id(config, channel, kind);
    let other = sensor_id(config, other_channel, other_kind);
    let place = config.device_id@.len() + "_"@.len();
    assert(crate::text::decimal(channel as nat).len() == 1);
    assert(crate::text::decimal(other_channel as nat).len() == 1);
    if kind != other_kind {
        assert(one.len() != other.len());
    } else {
        assert(one[place as int] == crate::text::digit(channel as nat));
        assert(other[place as int] == crate::text::digit(other_channel as nat));
    }
}

/// A measured value is available only while both the controller is there and its reading is
/// current; the status of a channel depends on the controller alone.
pub proof fn law_measured_values_need_a_current_reading(config: Config, channel: u8, kind: Kind)
    ensures
        ({
            let topics = availability(config, channel, kind)->List_0;
            let first = no_members().insert("topic"@, Json::Text(availability_topic(config)));
            &&& topics[0] == Json::Object(first)
            &&& kind == Kind::Status ==> topics.len() == 1
            &&& kind != Kind::Status ==> topics.len() == 2 && topics[1] is Object
                && topics[1]->Object_0.dom().contains("value_template"@)
        }),
{
}

/// A value expires no earlier than its sample becomes stale, and less than a second later.
pub proof fn law_values_expire_when_stale(stale_after_ms: u64)
    ensures
        stale_after_ms <= whole_seconds(stale_after_ms) * 1000 < stale_after_ms + 1000,
{
}

proof fn lemma_sensor_place(config: Config, n: int, k: int, r: int)
    requires
        0 <= k < n <= config.sensors@.len(),
        0 <= r < 4,
    ensures
        sensors_announced(config, n).len() == 4 * n,
        sensors_announced(config, n)[4 * k + r] == sensor_announcements(
            config,
            config.sensors@[k],
        )[r],
    decreases n,
{
    lemma_sensors_shallow(config, n);
    lemma_sensors_shallow(config, n - 1);
    if k < n - 1 {
        lemma_sensor_place(config, n - 1, k, r);
    }
}

proof fn lemma_button_place(config: Config, n: int, k: int, r: int)
    requires
        0 <= k < n <= 4,
        0 <= r < 3,
    ensures
        buttons_announced(config, n).len() == 3 * n,
        buttons_announced(config, n)[3 * k + r] == button_announcements(config, k)[r],
    decreases n,
{
    lemma_buttons_shallow(config, n);
    lemma_buttons_shallow(config, n - 1);
    if k < n - 1 {
        lemma_button_place(config, n - 1, k, r);
    }
}

/// The announcement at a place: four for each sensor in turn, then three for each button.
pub open spec fn announcement_at(config: Config, i: int) -> Announcement {
    let n = config.sensors@.len() as int;
    if i < 4 * n {
        sensor_announcements(config, config.sensors@[i / 4])[i % 4]
    } else {
        button_announcements(config, (i - 4 * n) / 3)[(i - 4 * n) % 3]
    }
}

proof fn lemma_announcement_at(config: Config, i: int)
    requires
        0 <= i < all_announced(config).len(),
    ensures
        all_announced(config)[i] == announcement_at(config, i),
        i >= 4 * config.sensors@.len() ==> config.panel_enabled && (i - 4 * config.sensors@.len())
            / 3 < 4,
{
    let n = config.sensors@.len() as int;
    lemma_sensors_shallow(config, n);
    lemma_buttons_shallow(config, 4);
    if i < 4 * n {
        lemma_sensor_place(config, n, i / 4, i % 4);
    } else {
        lemma_button_place(config, 4, (i - 4 * n) / 3, (i - 4 * n) % 3);
    }
}

/// What tells an announced entity from others.
pub open spec fn identity(document: Json) -> Option<Json> {
    if document is Object && document->Object_0.dom().contains("unique_id"@) {
        Some(document->Object_0["unique_id"@])
    } else {
        None
    }
}

proof fn lemma_names_differ_from_unique_id()
    ensures
        "unique_id"@ != "state_topic"@,
        "unique_id"@ != "json_attributes_topic"@,
        "unique_id"@ != "expire_after"@,
        "unique_id"@ != "device"@,
        "unique_id"@ != "availability"@,
        "unique_id"@ != "availability_mode"@,
        "unique_id"@ != "availability_topic"@,
        "unique_id"@ != "state_class"@,
        "unique_id"@ != "value_template"@,
        "unique_id"@ != "unit_of_measurement"@,
        "unique_id"@ != "device_class"@,
        "unique_id"@ != "suggested_display_precision"@,
        "unique_id"@ != "entity_category"@,
        "unique_id"@ != "command_topic"@,
        "unique_id"@ != "payload_press"@,
        "unique_id"@ != "retain"@,
{
    reveal_strlit("unique_id");
    reveal_strlit("state_topic");
    reveal_strlit("json_attributes_topic");
    reveal_strlit("expire_after");
    reveal_strlit("device");
    reveal_strlit("availability");
    reveal_strlit("availability_mode");
    reveal_strlit("availability_topic");
    reveal_strlit("state_class");
    reveal_strlit("value_template");
    reveal_strlit("unit_of_measurement");
    reveal_strlit("device_class");
    reveal_strlit("suggested_display_precision");
    reveal_strlit("entity_category");
    reveal_strlit("command_topic");
    reveal_strlit("payload_press");
    reveal_strlit("retain");
    assert("unique_id"@.len() == 9);
    assert("state_topic"@.len() == 11);
    assert("json_attributes_topic"@.len() == 21);
    assert("expire_after"@.len() == 12);
    assert("device"@.len() == 6);
    assert("availability"@.len() == 12);
    assert("availability_mode"@.len() == 17);
    assert("availability_topic"@.len() == 18);
    assert("state_class"@.len() == 11);
    assert("value_template"@.len() == 14);
    assert("unit_of_measurement"@.len() == 19);
    assert("device_class"@.len() == 12);
    assert("suggested_display_precision"@.len() == 27);
    assert("entity_category"@.len() == 15);
    assert("command_topic"@.len() == 13);
    assert("payload_press"@.len() == 13);
    assert("retain"@.len() == 6);
}

/// The identity of a sensor's entity is made of the controller, the channel and what the
/// entity shows; that of a button's entity of the controller, the button and what it is for.
pub proof fn law_identities_are_announced(
    config: Config,
    sensor: SensorConfig,
    kind: Kind,
    index: int,
)
    ensures
        identity(sensor_entity(config, sensor, kind)) == Some(
            Json::Text(sensor_id(config, sensor.channel, kind)),
        ),
        identity(held_entity(config, index)) == Some(
            Json::Text(button_id(config, index, "_held"@)),
        ),
        identity(presses_entity(config, index)) == Some(
            Json::Text(button_id(config, index, "_presses"@)),
        ),
        identity(remote_entity(config, index)) == Some(
            Json::Text(button_id(config, index, "_remote"@)),
        ),
{
    lemma_names_differ_from_unique_id();
}

/// Whether two configurations are of one controller: the same prefixes and device, the same
/// channels in the same order, and both or neither with a panel. All else may differ.
pub open spec fn same_controller(one: Config, other: Config) -> bool {
    &&& one.mqtt is Some
    &&& other.mqtt is Some
    &&& one.mqtt->Some_0.topic_prefix@ == other.mqtt->Some_0.topic_prefix@
    &&& one.mqtt->Some_0.discovery_prefix@ == other.mqtt->Some_0.discovery_prefix@
    &&& one.device_id@ == other.device_id@
    &&& one.sensors@.len() == other.sensors@.len()
    &&& forall|k: int|
        0 <= k < one.sensors@.len() ==> (#[trigger] one.sensors@[k]).channel
            == other.sensors@[k].channel
    &&& one.panel_enabled == other.panel_enabled
}

/// A controller announces the same topics in the same order whatever its names, calibrations,
/// timings, host and credentials are, and what is announced on a topic has the same identity.
pub proof fn law_topics_and_identities_are_stable(one: Config, other: Config, i: int)
    requires
        same_controller(one, other),
        0 <= i < all_announced(one).len(),
    ensures
        all_announced(one).len() == all_announced(other).len(),
        all_announced(one)[i].0 == all_announced(other)[i].0,
        all_announced(one)[i].1 !is Null && all_announced(other)[i].1 !is Null ==> identity(
            all_announced(one)[i].1,
        ) is Some && identity(all_announced(one)[i].1) == identity(all_announced(other)[i].1),
{
    law_number_of_announcements(one);
    law_number_of_announcements(other);
    lemma_announcement_at(one, i);
    lemma_announcement_at(other, i);
    let n = one.sensors@.len() as int;
    if i < 4 * n {
        let k = i / 4;
        assert(one.sensors@[k].channel == other.sensors@[k].channel);
        law_identities_are_announced(one, one.sensors@[k], Kind::Frequency, 0);
        law_identities_are_announced(one, one.sensors@[k], Kind::Moisture, 0);
        law_identities_are_announced(one, one.sensors@[k], Kind::Status, 0);
        law_identities_are_announced(other, other.sensors@[k], Kind::Frequency, 0);
        law_identities_are_announced(other, other.sensors@[k], Kind::Moisture, 0);
        law_identities_are_announced(other, other.sensors@[k], Kind::Status, 0);
    } else {
        let index = (i - 4 * n) / 3;
        let sensor = one.sensors@[0];
        law_identities_are_announced(one, sensor, Kind::Status, index);
        law_identities_are_announced(other, sensor, Kind::Status, index);
    }
}

/// Of what is announced for a channel, the raw entity is always taken back, the moisture
/// entity exactly if the channel has no calibration, and the others never; nothing is taken
/// back for a button.
pub proof fn law_which_entities_are_taken_back(config: Config, i: int)
    requires
        0 <= i < all_announced(config).len(),
    ensures
        ({
            let empty = all_announced(config)[i].1 is Null;
            let n = config.sensors@.len() as int;
            &&& i < 4 * n && i % 4 == 0 ==> empty
            &&& i < 4 * n && i % 4 == 1 ==> !empty
            &&& i < 4 * n && i % 4 == 2 ==> (empty <==> config.sensors@[i
                / 4].calibration is None)
            &&& i < 4 * n && i % 4 == 3 ==> !empty
            &&& i >= 4 * n ==> !empty
        }),
{
    lemma_announcement_at(config, i);
}

/// A value expires once its sample is stale, in whole seconds rounded up.
pub proof fn law_entities_expire_when_stale(config: Config, sensor: SensorConfig, kind: Kind)
    ensures
        ({
            let members = sensor_entity(config, sensor, kind)->Object_0;
            members.dom().contains("expire_after"@) && members["expire_after"@] == Json::Unsigned(
                whole_seconds(config.stale_after_ms),
            )
        }),
{
    reveal_strlit("expire_after");
    reveal_strlit("device");
    reveal_strlit("availability");
    reveal_strlit("availability_mode");
    reveal_strlit("state_class");
    reveal_strlit("value_template");
    reveal_strlit("unit_of_measurement");
    reveal_strlit("device_class");
    reveal_strlit("suggested_display_precision");
    reveal_strlit("entity_category");
    assert("expire_after"@.len() == 12);
    assert("device"@.len() == 6);
    assert("availability"@.len() == 12);
    assert("availability_mode"@.len() == 17);
    assert("state_class"@.len() == 11);
    assert("value_template"@.len() == 14);
    assert("unit_of_measurement"@.len() == 19);
    assert("device_class"@.len() == 12);
    assert("suggested_display_precision"@.len() == 27);
    assert("entity_category"@.len() == 15);
    assert("expire_after"@[0] == 'e');
    assert("availability"@[0] == 'a');
    assert("device_class"@[0] == 'd');
}

proof fn lemma_sensor_topic_shape(config: Config, channel: u8, word: Seq<char>)
    requires
        crate::config::board_channel(channel),
    ensures
        ({
            let topic = sensor_topic(config, channel, word);
            let p = config.mqtt->Some_0.discovery_prefix@.len() as int;
            let d = config.device_id@.len() as int;
            &&& topic.len() == p + d + word.len() + 18
            &&& topic[p + 2] == 'e'
            &&& topic[p + 8 + d] == '_'
            &&& topic[p + 9 + d] == crate::text::digit(channel as nat)
        }),
{
    reveal_strlit("/sensor/");
    reveal_strlit("_");
    reveal_strlit("/");
    reveal_strlit("/config");
    let prefix = config.mqtt->Some_0.discovery_prefix@;
    let d = config.device_id@.len() as int;
    let head = prefix + "/sensor/"@;
    let named = head + config.device_id@;
    let marked = named + "_"@;
    let numbered = marked + crate::text::decimal(channel as nat);
    let topic = sensor_topic(config, channel, word);
    let p = prefix.len() as int;
    assert(crate::text::decimal(channel as nat) =~= seq![crate::text::digit(channel as nat)]);
    assert(head[p + 2] == 'e');
    assert(marked[p + 8 + d] == '_');
    assert(numbered[p + 9 + d] == crate::text::digit(channel as nat));
}

proof fn lemma_button_topic_shape(
    config: Config,
    component: Seq<char>,
    index: int,
    suffix: Seq<char>,
)
    requires
        component.len() >= 3,
        0 <= index < 4,
    ensures
        ({
            let topic = button_entity_topic(config, component, index, suffix);
            let p = config.mqtt->Some_0.discovery_prefix@.len() as int;
            let d = config.device_id@.len() as int;
            let c = component.len() as int;
            &&& topic.len() > p + c + d + 8
            &&& topic[p + 2] == component[2]
            &&& topic[p + c + d] == '/'
            &&& topic[p + c + d + 8] == small_name(index)[0]
        }),
{
    reveal_strlit("/button_");
    reveal_strlit("a");
    reveal_strlit("b");
    reveal_strlit("x");
    reveal_strlit("y");
    let prefix = config.mqtt->Some_0.discovery_prefix@;
    let p = prefix.len() as int;
    let d = config.device_id@.len() as int;
    let c = component.len() as int;
    let head = prefix + component;
    let named = head + config.device_id@;
    let marked = named + "/button_"@;
    let lettered = marked + small_name(index);
    assert(head[p + 2] == component[2]);
    assert(marked[p + c + d] == '/');
    assert(lettered[p + c + d + 8] == small_name(index)[0]);
}

proof fn lemma_sensor_topics_differ(config: Config, i: int, j: int)
    requires
        crate::config::config_fault(config) is None,
        0 <= i < j < 4 * config.sensors@.len(),
    ensures
        announcement_at(config, i).0 != announcement_at(config, j).0,
{
    reveal_strlit("raw");
    reveal_strlit("frequency");
    reveal_strlit("moisture");
    reveal_strlit("status");
    crate::config::law_accepted_configuration(config);
    let one = config.sensors@[i / 4];
    let other = config.sensors@[j / 4];
    let words = seq!["raw"@, "frequency"@, "moisture"@, "status"@];
    lemma_sensor_topic_shape(config, one.channel, words[i % 4]);
    lemma_sensor_topic_shape(config, other.channel, words[j % 4]);
    if i / 4 != j / 4 {
        assert(config.sensors@[i / 4].channel != config.sensors@[j / 4].channel);
    } else {
        assert(words[i % 4].len() != words[j % 4].len());
    }
}

/// The parts that the topics of a button's entities are made of.
spec fn component_of(r: int) -> Seq<char> {
    if r == 0 {
        "/binary_sensor/"@
    } else if r == 1 {
        "/sensor/"@
    } else {
        "/button/"@
    }
}

/// The ends of the topics of a button's entities.
spec fn suffix_of(r: int) -> Seq<char> {
    if r == 0 {
        "_held"@
    } else if r == 1 {
        "_presses"@
    } else {
        "_remote"@
    }
}

proof fn lemma_button_topics_differ(config: Config, i: int, j: int)
    requires
        0 <= i < 12,
        0 <= j < 12,
        i != j,
    ensures
        button_announcements(config, i / 3)[i % 3].0 != button_announcements(config, j / 3)[j
            % 3].0,
{
    reveal_strlit("/binary_sensor/");
    reveal_strlit("/sensor/");
    reveal_strlit("/button/");
    reveal_strlit("a");
    reveal_strlit("b");
    reveal_strlit("x");
    reveal_strlit("y");
    lemma_button_topic_shape(config, component_of(i % 3), i / 3, suffix_of(i % 3));
    lemma_button_topic_shape(config, component_of(j % 3), j / 3, suffix_of(j % 3));
    if i % 3 != j % 3 {
        assert(component_of(i % 3)[2] != component_of(j % 3)[2]);
    } else {
        assert(i / 3 != j / 3);
        assert(small_name(i / 3)[0] != small_name(j / 3)[0]);
    }
}

proof fn lemma_sensor_and_button_topics_differ(config: Config, i: int, j: int)
    requires
        crate::config::config_fault(config) is None,
        0 <= i < 4 * config.sensors@.len(),
        0 <= j < 12,
    ensures
        announcement_at(config, i).0 != button_announcements(config, j / 3)[j % 3].0,
{
    reveal_strlit("/binary_sensor/");
    reveal_strlit("/sensor/");
    reveal_strlit("/button/");
    crate::config::law_accepted_configuration(config);
    let sensor = config.sensors@[i / 4];
    let words = seq!["raw"@, "frequency"@, "moisture"@, "status"@];
    assert(crate::config::board_channel(config.sensors@[i / 4].channel));
    lemma_sensor_topic_shape(config, sensor.channel, words[i % 4]);
    lemma_button_topic_shape(config, component_of(j % 3), j / 3, suffix_of(j % 3));
    if j % 3 != 1 {
        assert(component_of(j % 3)[2] != 'e');
    }
}

/// No two announcements of an accepted configuration go to one topic.
pub proof fn law_announced_topics_are_distinct(config: Config, i: int, j: int)
    requires
        crate::config::config_fault(config) is None,
        config.mqtt is Some,
        0 <= i < j < all_announced(config).len(),
    ensures
        all_announced(config)[i].0 != all_announced(config)[j].0,
{
    lemma_announcement_at(config, i);
    lemma_announcement_at(config, j);
    let n = config.sensors@.len() as int;
    if j < 4 * n {
        lemma_sensor_topics_differ(config, i, j);
    } else if i < 4 * n {
        lemma_sensor_and_button_topics_differ(config, i, j - 4 * n);
    } else {
        lemma_button_topics_differ(config, i - 4 * n, j - 4 * n);
    }
}

/// The names of members, told apart by their lengths and some of their characters.
proof fn lemma_member_names()
    ensures
        "name"@.len() == 4,
        "unique_id"@.len() == 9,
        "state_topic"@.len() == 11,
        "json_attributes_topic"@.len() == 21,
        "expire_after"@.len() == 12,
        "device"@.len() == 6,
        "availability"@.len() == 12,
        "availability_mode"@.len() == 17,
        "state_class"@.len() == 11,
        "value_template"@.len() == 14,
        "unit_of_measurement"@.len() == 19,
        "device_class"@.len() == 12,
        "suggested_display_precision"@.len() == 27,
        "entity_category"@.len() == 15,
        "availability_topic"@.len() == 18,
        "command_topic"@.len() == 13,
        "payload_press"@.len() == 13,
        "retain"@.len() == 6,
        "topic"@.len() == 5,
        "identifiers"@.len() == 11,
        "manufacturer"@.len() == 12,
        "model"@.len() == 5,
        "sw_version"@.len() == 10,
        "state_topic"@[6] != "state_class"@[6],
        "state_topic"@[0] != "identifiers"@[0],
        "state_class"@[0] != "identifiers"@[0],
        "expire_after"@[0] != "availability"@[0],
        "expire_after"@[0] != "device_class"@[0],
        "expire_after"@[0] != "manufacturer"@[0],
        "availability"@[0] != "device_class"@[0],
        "availability"@[0] != "manufacturer"@[0],
        "device_class"@[0] != "manufacturer"@[0],
        "device"@[0] != "retain"@[0],
        "command_topic"@[0] != "payload_press"@[0],
        "topic"@[0] != "model"@[0],
{
    reveal_strlit("name");
    reveal_strlit("unique_id");
    reveal_strlit("state_topic");
    reveal_strlit("json_attributes_topic");
    reveal_strlit("expire_after");
    reveal_strlit("device");
    reveal_strlit("availability");
    reveal_strlit("availability_mode");
    reveal_strlit("state_class");
    reveal_strlit("value_template");
    reveal_strlit("unit_of_measurement");
    reveal_strlit("device_class");
    reveal_strlit("suggested_display_precision");
    reveal_strlit("entity_category");
    reveal_strlit("availability_topic");
    reveal_strlit("command_topic");
    reveal_strlit("payload_press");
    reveal_strlit("retain");
    reveal_strlit("topic");
    reveal_strlit("identifiers");
    reveal_strlit("manufacturer");
    reveal_strlit("model");
    reveal_strlit("sw_version");
    assert("name"@.len() == 4);
    assert("unique_id"@.len() == 9);
    assert("state_topic"@.len() == 11);
    assert("json_attributes_topic"@.len() == 21);
    assert("expire_after"@.len() == 12);
    assert("device"@.len() == 6);
    assert("availability"@.len() == 12);
    assert("availability_mode"@.len() == 17);
    assert("state_class"@.len() == 11);
    assert("value_template"@.len() == 14);
    assert("unit_of_measurement"@.len() == 19);
    assert("device_class"@.len() == 12);
    assert("suggested_display_precision"@.len() == 27);
    assert("entity_category"@.len() == 15);
    assert("availability_topic"@.len() == 18);
    assert("command_topic"@.len() == 13);
    assert("payload_press"@.len() == 13);
    assert("retain"@.len() == 6);
    assert("topic"@.len() == 5);
    assert("identifiers"@.len() == 11);
    assert("manufacturer"@.len() == 12);
    assert("model"@.len() == 5);
    assert("sw_version"@.len() == 10);
    assert("availability"@[0] == 'a');
    assert("command_topic"@[0] == 'c');
    assert("device"@[0] == 'd');
    assert("device_class"@[0] == 'd');
    assert("expire_after"@[0] == 'e');
    assert("identifiers"@[0] == 'i');
    assert("manufacturer"@[0] == 'm');
    assert("model"@[0] == 'm');
    assert("payload_press"@[0] == 'p');
    assert("retain"@[0] == 'r');
    assert("state_class"@[0] == 's');
    assert("state_class"@[6] == 'c');
    assert("state_topic"@[0] == 's');
    assert("state_topic"@[6] == 't');
    assert("topic"@[0] == 't');
}

/// A member of a document, if it has one of the name.
pub open spec fn member_of(document: Json, name: Seq<char>) -> Option<Json> {
    if document is Object && document->Object_0.dom().contains(name) {
        Some(document->Object_0[name])
    } else {
        None
    }
}

/// A text member of a document.
pub open spec fn says(document: Json, name: Seq<char>, text: Seq<char>) -> bool {
    member_of(document, name) == Some(Json::Text(text))
}

/// When an entity of a sensor is available: a measured value while the controller is there and
/// the last reading of its own channel is healthy, and the status whenever the controller is
/// there. Home Assistant is told so by the words for the healthy statuses.
pub proof fn law_entities_are_available_while_healthy(
    config: Config,
    sensor: SensorConfig,
    kind: Kind,
    status: crate::sensor::ReadingStatus,
)
    ensures
        ({
            let entity = sensor_entity(config, sensor, kind);
            let base = config.mqtt->Some_0.topic_prefix@ + "/"@ + config.device_id@;
            let entries = member_of(entity, "availability"@)->Some_0->List_0;
            &&& member_of(entity, "availability"@) is Some
            &&& member_of(entity, "availability"@)->Some_0 is List
            &&& says(entity, "availability_mode"@, "all"@)
            &&& entries.len() == if kind is Status {
                1int
            } else {
                2
            }
            &&& says(entries[0], "topic"@, base + "/availability"@)
            &&& member_of(entries[0], "value_template"@) is None
            &&& kind !is Status ==> says(
                entries[1],
                "topic"@,
                base + "/"@ + crate::text::decimal(sensor.channel as nat) + "/state"@,
            ) && says(
                entries[1],
                "value_template"@,
                "{{ 'online' if value_json.status in ['valid', 'uncalibrated'] else 'offline' }}"@,
            )
        }),
        status.healthy() <==> (crate::sensor::status_name(status) == "valid"@
            || crate::sensor::status_name(status) == "uncalibrated"@),
{
    lemma_member_names();
    crate::sensor::lemma_status_names_differ();
    assert(crate::sensor::status_name(crate::sensor::ReadingStatus::Valid) == "valid"@);
    assert(crate::sensor::status_name(crate::sensor::ReadingStatus::Uncalibrated)
        == "uncalibrated"@);
}

/// What an entity of a sensor shows: the frequency in hertz, the moisture in percent or the
/// status, each out of the readings of its own channel, for as long as the reading is not stale.
pub proof fn law_sensor_entities_show_their_value(
    config: Config,
    sensor: SensorConfig,
    kind: Kind,
)
    ensures
        ({
            let entity = sensor_entity(config, sensor, kind);
            let base = config.mqtt->Some_0.topic_prefix@ + "/"@ + config.device_id@;
            let readings = base + "/"@ + crate::text::decimal(sensor.channel as nat) + "/state"@;
            let word = match kind {
                Kind::Frequency => "frequency"@,
                Kind::Moisture => "moisture"@,
                Kind::Status => "status"@,
            };
            &&& says(entity, "name"@, sensor.name@ + " "@ + word)
            &&& says(
                entity,
                "unique_id"@,
                config.device_id@ + "_"@ + crate::text::decimal(sensor.channel as nat) + "_"@
                    + word,
            )
            &&& says(entity, "state_topic"@, readings)
            &&& says(entity, "json_attributes_topic"@, readings)
            &&& member_of(entity, "expire_after"@)->Some_0 is Unsigned
            &&& member_of(entity, "expire_after"@)->Some_0->Unsigned_0 * 1000
                >= config.stale_after_ms
            &&& member_of(entity, "expire_after"@)->Some_0->Unsigned_0 * 1000
                < config.stale_after_ms + 1000
            &&& member_of(entity, "device"@) == Some(device(config))
            &&& kind is Frequency ==> {
                &&& says(entity, "value_template"@, "{{ value_json.raw_hz }}"@)
                &&& says(entity, "unit_of_measurement"@, "Hz"@)
                &&& says(entity, "device_class"@, "frequency"@)
                &&& says(entity, "state_class"@, "measurement"@)
                &&& member_of(entity, "suggested_display_precision"@) == Some(Json::Unsigned(2))
            }
            &&& kind is Moisture ==> {
                &&& says(entity, "value_template"@, "{{ value_json.moisture_percent }}"@)
                &&& says(entity, "unit_of_measurement"@, "%"@)
                &&& says(entity, "device_class"@, "moisture"@)
                &&& says(entity, "state_class"@, "measurement"@)
                &&& member_of(entity, "suggested_display_precision"@) is None
            }
            &&& kind is Status ==> {
                &&& says(entity, "value_template"@, "{{ value_json.status }}"@)
                &&& says(entity, "entity_category"@, "diagnostic"@)
                &&& member_of(entity, "unit_of_measurement"@) is None
                &&& member_of(entity, "device_class"@) is None
                &&& member_of(entity, "state_class"@) is None
            }
        }),
{
    lemma_member_names();
}

/// The device that every entity belongs to: it is known by the controller's identifier and goes
/// by the controller's name.
pub proof fn law_device_is_the_controller(config: Config)
    ensures
        ({
            let told = device(config);
            &&& member_of(told, "identifiers"@) == Some(
                Json::List(seq![Json::Text(config.device_id@)]),
            )
            &&& says(told, "name"@, config.name@)
            &&& says(told, "manufacturer"@, "Pimoroni"@)
            &&& says(told, "model"@, "Grow HAT Mini"@)
            &&& says(told, "sw_version"@, "0.1.0"@)
        }),
{
    lemma_member_names();
}

/// What the entities of a button show and do: whether it is held, how often it was pressed, and
/// how to press it from elsewhere, all by the topics of that very button.
pub proof fn law_button_entities_show_their_button(config: Config, index: int)
    requires
        0 <= index < 4,
    ensures
        ({
            let held = held_entity(config, index);
            let presses = presses_entity(config, index);
            let remote = remote_entity(config, index);
            let base = config.mqtt->Some_0.topic_prefix@ + "/"@ + config.device_id@;
            let name = seq!["A"@, "B"@, "X"@, "Y"@][index];
            let small = seq!["a"@, "b"@, "x"@, "y"@][index];
            let id = config.device_id@ + "_button_"@ + small;
            let state = base + "/buttons/"@ + name + "/state"@;
            &&& says(held, "name"@, "Button "@ + name + " held"@)
            &&& says(held, "unique_id"@, id + "_held"@)
            &&& says(held, "state_topic"@, state)
            &&& says(held, "value_template"@, "{{ 'ON' if value_json.pressed else 'OFF' }}"@)
            &&& says(held, "availability_topic"@, base + "/availability"@)
            &&& says(held, "entity_category"@, "diagnostic"@)
            &&& member_of(held, "device"@) == Some(device(config))
            &&& says(presses, "name"@, "Button "@ + name + " presses"@)
            &&& says(presses, "unique_id"@, id + "_presses"@)
            &&& says(presses, "state_topic"@, state)
            &&& says(presses, "value_template"@, "{{ value_json.count }}"@)
            &&& says(presses, "state_class"@, "total_increasing"@)
            &&& says(presses, "availability_topic"@, base + "/availability"@)
            &&& says(presses, "entity_category"@, "diagnostic"@)
            &&& member_of(presses, "device"@) == Some(device(config))
            &&& says(remote, "name"@, "Press "@ + name + " on HAT"@)
            &&& says(remote, "unique_id"@, id + "_remote"@)
            &&& says(remote, "command_topic"@, base + "/buttons/"@ + name + "/press/set"@)
            &&& says(remote, "payload_press"@, "PRESS"@)
            &&& member_of(remote, "retain"@) == Some(Json::Bool(false))
            &&& says(remote, "availability_topic"@, base + "/availability"@)
            &&& member_of(remote, "device"@) == Some(device(config))
        }),
{
    lemma_member_names();
}

/// Where and what a sensor is announced: on the topics of its channel below the discovery
/// prefix, in the order of the sensors, its frequency and status always, its moisture with a
/// calibration, its raw value never.
pub proof fn law_sensors_are_announced_on_their_topics(config: Config, k: int)
    requires
        0 <= k < config.sensors@.len(),
    ensures
        ({
            let all = all_announced(config);
            let sensor = config.sensors@[k];
            let head = config.mqtt->Some_0.discovery_prefix@ + "/sensor/"@ + config.device_id@
                + "_"@ + crate::text::decimal(sensor.channel as nat) + "/"@;
            &&& all.len() >= 4 * k + 4
            &&& all[4 * k] == (head + "raw"@ + "/config"@, Json::Null)
            &&& all[4 * k + 1] == (
                head + "frequency"@ + "/config"@,
                sensor_entity(config, sensor, Kind::Frequency),
            )
            &&& all[4 * k + 2].0 == head + "moisture"@ + "/config"@
            &&& sensor.calibration is Some ==> all[4 * k + 2].1 == sensor_entity(
                config,
                sensor,
                Kind::Moisture,
            )
            &&& sensor.calibration is None ==> all[4 * k + 2].1 is Null
            &&& all[4 * k + 3] == (
                head + "status"@ + "/config"@,
                sensor_entity(config, sensor, Kind::Status),
            )
        }),
{
    law_number_of_announcements(config);
    lemma_announcement_at(config, 4 * k);
    lemma_announcement_at(config, 4 * k + 1);
    lemma_announcement_at(config, 4 * k + 2);
    lemma_announcement_at(config, 4 * k + 3);
}

/// Where and what a button is announced, after the sensors, where the panel is enabled; nothing
/// is announced of the buttons of a disabled panel.
pub proof fn law_buttons_are_announced_on_their_topics(config: Config, index: int)
    requires
        0 <= index < 4,
    ensures
        ({
            let all = all_announced(config);
            let n = 4 * config.sensors@.len() + 3 * index;
            let prefix = config.mqtt->Some_0.discovery_prefix@;
            let small = seq!["a"@, "b"@, "x"@, "y"@][index];
            let tail = config.device_id@ + "/button_"@ + small;
            &&& !config.panel_enabled ==> all.len() == 4 * config.sensors@.len()
            &&& config.panel_enabled ==> {
                &&& all.len() == 4 * config.sensors@.len() + 12
                &&& all[n].0 =~= prefix + "/binary_sensor/"@ + tail + "_held"@ + "/config"@
                &&& all[n].1 == held_entity(config, index)
                &&& all[n + 1].0 =~= prefix + "/sensor/"@ + tail + "_presses"@ + "/config"@
                &&& all[n + 1].1 == presses_entity(config, index)
                &&& all[n + 2].0 =~= prefix + "/button/"@ + tail + "_remote"@ + "/config"@
                &&& all[n + 2].1 == remote_entity(config, index)
            }
        }),
{
    law_number_of_announcements(config);
    if config.panel_enabled {
        let n = 4 * config.sensors@.len() + 3 * index;
        lemma_announcement_at(config, n);
        lemma_announcement_at(config, n + 1);
        lemma_announcement_at(config, n + 2);
    }
}

/// The messages that announce a controller: one for each announcement, on its topic, empty where
/// an entity is taken back and the written document otherwise; and last that the controller is
/// there.
pub proof fn law_announcements_are_sent(config: Config, i: int)
    requires
        0 <= i < all_announced(config).len(),
    ensures
        ({
            let messages = announcement_messages(config);
            let announcement = all_announced(config)[i];
            let n = all_announced(config).len() as int;
            &&& messages.len() == n + 1
            &&& messages[i].topic == announcement.0
            &&& messages[i].retain
            &&& messages[i].delivery is AtLeastOnce
            &&& announcement.1 is Null ==> messages[i].body.len() == 0
            &&& announcement.1 !is Null ==> messages[i].body == crate::json::written(announcement.1)
            &&& messages[n].topic == config.mqtt->Some_0.topic_prefix@ + "/"@ + config.device_id@
                + "/availability"@
            &&& messages[n].body == online_payload()
            &&& messages[n].retain
        }),
{
}

/// Whether bytes are the characters of an ASCII text.
pub open spec fn spells(bytes: Seq<u8>, text: Seq<char>) -> bool {
    bytes.len() == text.len() && forall|i: int|
        0 <= i < bytes.len() ==> #[trigger] bytes[i] == text[i] as u32
}

/// A controller tells that it is there, or gone, in these words.
pub proof fn law_availability_is_told_in_words(bytes: Seq<u8>)
    ensures
        bytes == online_payload() <==> spells(bytes, "online"@),
        bytes == offline_payload() <==> spells(bytes, "offline"@),
{
    reveal_strlit("online");
    reveal_strlit("offline");
    let on = "online"@;
    let off = "offline"@;
    assert(on.len() == 6 && off.len() == 7);
    assert(on[0] == 'o' && on[1] == 'n' && on[2] == 'l' && on[3] == 'i' && on[4] == 'n' && on[5]
        == 'e');
    assert(off[0] == 'o' && off[1] == 'f' && off[2] == 'f' && off[3] == 'l' && off[4] == 'i'
        && off[5] == 'n' && off[6] == 'e');
    if spells(bytes, on) {
        assert(bytes[0] == 111 && bytes[1] == 110 && bytes[2] == 108 && bytes[3] == 105 && bytes[4]
            == 110 && bytes[5] == 101);
        assert(bytes =~= online_payload());
    }
    if spells(bytes, off) {
        assert(bytes[0] == 111 && bytes[1] == 102 && bytes[2] == 102 && bytes[3] == 108 && bytes[4]
            == 105 && bytes[5] == 110 && bytes[6] == 101);
        assert(bytes =~= offline_payload());
    }
}

} // verus!
