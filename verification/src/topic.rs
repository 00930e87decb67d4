//! The topics of a controller and the messages that go to them.
use vstd::prelude::*;
use vstd::string::*;

use crate::config::Config;
use crate::text::decimal_text;

verus! {

/// How often a message is delivered.
#[derive(Clone, Copy, Debug, PartialEq, Eq, Structural)]
pub enum Delivery {
    AtMostOnce,
    AtLeastOnce,
}

/// A message for the broker.
#[derive(Clone, Debug, PartialEq, Eq)]
pub struct Message {
    pub topic: String,
    pub delivery: Delivery,
    pub retain: bool,
    pub body: Vec<u8>,
}

/// A message for the broker, in characters and bytes.
#[verifier::ext_equal]
pub struct MessageView {
    pub topic: Seq<char>,
    pub delivery: Delivery,
    pub retain: bool,
    pub body: Seq<u8>,
}

impl View for Message {
    type V = MessageView;

    open spec fn view(&self) -> MessageView {
        MessageView {
            topic: self.topic@,
            delivery: self.delivery,
            retain: self.retain,
            body: self.body@,
        }
    }
}

/// The views of some messages.
pub open spec fn message_views(messages: Seq<Message>) -> Seq<MessageView> {
    messages.map_values(|message: Message| message@)
}

/// A message that tells the present and is not kept.
pub open spec fn passing(topic: Seq<char>, body: Seq<u8>) -> MessageView {
    MessageView { topic, delivery: Delivery::AtMostOnce, retain: false, body }
}

/// A message that the broker keeps for later.
pub open spec fn kept(topic: Seq<char>, body: Seq<u8>) -> MessageView {
    MessageView { topic, delivery: Delivery::AtLeastOnce, retain: true, body }
}

/// A message that tells the present and is not kept.
pub fn passing_message(topic: String, body: Vec<u8>) -> (message: Message)
    ensures
        message@ == passing(topic@, body@),
{
    Message { topic, delivery: Delivery::AtMostOnce, retain: false, body }
}

/// A message that the broker keeps for later.
pub fn kept_message(topic: String, body: Vec<u8>) -> (message: Message)
    ensures
        message@ == kept(topic@, body@),
{
    Message { topic, delivery: Delivery::AtLeastOnce, retain: true, body }
}

/// The topic that all topics of a controller begin with.
pub open spec fn base_topic(config: Config) -> Seq<char> {
    config.mqtt->Some_0.topic_prefix@ + "/"@ + config.device_id@
}

/// The topic that all topics of a controller begin with.
pub fn base(config: &Config) -> (topic: String)
    requires
        config.mqtt is Some,
    ensures
        topic@ == base_topic(*config),
{
    match &config.mqtt {
        Some(mqtt) => mqtt.topic_prefix.clone().concat("/").concat(config.device_id.as_str()),
        None => String::new(),
    }
}

/// A topic of a controller.
pub fn under_base(config: &Config, rest: &str) -> (topic: String)
    requires
        config.mqtt is Some,
    ensures
        topic@ == base_topic(*config) + rest@,
{
    base(config).concat(rest)
}

/// The topic on which Home Assistant tells that it has started.
pub open spec fn birth_topic(config: Config) -> Seq<char> {
    config.mqtt->Some_0.discovery_prefix@ + "/status"@
}

/// The topic on which Home Assistant tells that it has started.
pub fn birth(config: &Config) -> (topic: String)
    requires
        config.mqtt is Some,
    ensures
        topic@ == birth_topic(*config),
{
    match &config.mqtt {
        Some(mqtt) => mqtt.discovery_prefix.clone().concat("/status"),
        None => String::new(),
    }
}

/// The topic for the readings of a channel.
pub open spec fn reading_topic(config: Config, channel: u8) -> Seq<char> {
    base_topic(config) + "/"@ + crate::text::decimal(channel as nat) + "/state"@
}

/// The topic for the readings of a channel.
pub fn reading_state(config: &Config, channel: u8) -> (topic: String)
    requires
        config.mqtt is Some,
    ensures
        topic@ == reading_topic(*config, channel),
{
    base(config).concat("/").concat(decimal_text(channel as u64).as_str()).concat("/state")
}

/// A topic that belongs to a button.
pub open spec fn button_topic(config: Config, button: Seq<char>, rest: Seq<char>) -> Seq<char> {
    base_topic(config) + "/buttons/"@ + button + rest
}

/// A topic that belongs to a button.
pub fn button_under_base(config: &Config, button: &str, rest: &str) -> (topic: String)
    requires
        config.mqtt is Some,
    ensures
        topic@ == button_topic(*config, button@, rest@),
{
    base(config).concat("/buttons/").concat(button).concat(rest)
}

/// Whether a text begins with another one.
pub open spec fn begins_with(text: Seq<char>, head: Seq<char>) -> bool {
    text.len() >= head.len() && text.take(head.len() as int) == head
}

/// Whether a text ends with another one.
pub open spec fn ends_with(text: Seq<char>, tail: Seq<char>) -> bool {
    text.len() >= tail.len() && text.skip(text.len() - tail.len()) == tail
}

fn text_begins_with(text: &str, head: &str) -> (yes: bool)
    ensures
        yes == begins_with(text@, head@),
{
    let n: usize = text.unicode_len();
    let k: usize = head.unicode_len();
    if n < k {
        return false;
    }
    assert(text@.subrange(0, k as int) =~= text@.take(k as int));
    crate::text::same_text(text.substring_char(0, k), head)
}

fn text_ends_with(text: &str, tail: &str) -> (yes: bool)
    ensures
        yes == ends_with(text@, tail@),
{
    let n: usize = text.unicode_len();
    let k: usize = tail.unicode_len();
    if n < k {
        return false;
    }
    assert(text@.subrange(n - k, n as int) =~= text@.skip(n - k));
    crate::text::same_text(text.substring_char(n - k, n), tail)
}

/// What stands between a head and a tail of a text; nothing where the two overlap.
pub open spec fn between(text: Seq<char>, head: Seq<char>, tail: Seq<char>) -> Seq<char> {
    if text.len() >= head.len() + tail.len() {
        text.subrange(head.len() as int, text.len() - tail.len())
    } else {
        Seq::empty()
    }
}

/// What stands between a head and a tail of a text, if the text has both; nothing where the
/// two overlap.
pub fn text_between(text: &str, head: &str, tail: &str) -> (middle: Option<String>)
    ensures
        match middle {
            Some(middle) => begins_with(text@, head@) && ends_with(text@, tail@) && middle@
                == between(text@, head@, tail@),
            None => !begins_with(text@, head@) || !ends_with(text@, tail@),
        },
{
    if !text_begins_with(text, head) || !text_ends_with(text, tail) {
        return None;
    }
    let n: usize = text.unicode_len();
    let from: usize = head.unicode_len();
    let back: usize = tail.unicode_len();
    if n - from >= back {
        Some(text.substring_char(from, n - back).to_owned())
    } else {
        Some(String::new())
    }
}

/// The topics of a controller with an accepted configuration are plain: they begin with a
/// path of identifiers, without wildcards, empty segments or a slash at either end.
pub proof fn law_base_topic_is_plain(config: Config)
    requires
        crate::config::config_fault(config) is None,
        config.mqtt is Some,
    ensures
        crate::text::identifier_path(base_topic(config)),
{
    reveal_strlit("/");
    let prefix = config.mqtt->Some_0.topic_prefix@;
    let id = config.device_id@;
    let topic = base_topic(config);
    assert(crate::text::identifier_path(prefix));
    assert(crate::text::identifier(id));
    assert forall|i: int| 0 <= i < topic.len() implies crate::text::identifier_char(
        #[trigger] topic[i],
    ) || topic[i] == '/' by {
        if i < prefix.len() {
            assert(topic[i] == prefix[i]);
        } else if i > prefix.len() {
            assert(topic[i] == id[i - prefix.len() - 1]);
        }
    }
    assert forall|i: int, j: int|
        0 <= i < topic.len() && j == i + 1 && j < topic.len() && #[trigger] topic[i]
            == '/' implies #[trigger] topic[j] != '/' by {
        if j < prefix.len() {
            assert(topic[i] == prefix[i] && topic[j] == prefix[j]);
        } else if j == prefix.len() {
            assert(topic[i] == prefix.last());
        } else {
            assert(topic[j] == id[j - prefix.len() - 1]);
        }
    }
    assert(topic[0] == prefix[0]);
    assert(topic.last() == id.last());
    assert(crate::text::identifier_char(id[id.len() - 1]));
}

/// The topics of a controller: below its prefix and its identifier stand those of its channels
/// and of its buttons, and Home Assistant tells of its start below the other prefix.
pub proof fn law_topics_of_a_controller(
    config: Config,
    channel: u8,
    button: Seq<char>,
    rest: Seq<char>,
)
    ensures
        ({
            let base = config.mqtt->Some_0.topic_prefix@ + "/"@ + config.device_id@;
            &&& base_topic(config) == base
            &&& reading_topic(config, channel) == base + "/"@ + crate::text::decimal(channel as nat)
                + "/state"@
            &&& button_topic(config, button, rest) == base + "/buttons/"@ + button + rest
            &&& birth_topic(config) == config.mqtt->Some_0.discovery_prefix@ + "/status"@
        }),
{
}

/// What tells the present is delivered at most once and not kept; what is for later is kept and
/// delivered at least once.
pub proof fn law_only_lasting_messages_are_kept(topic: Seq<char>, body: Seq<u8>)
    ensures
        passing(topic, body).topic == topic && passing(topic, body).body == body,
        kept(topic, body).topic == topic && kept(topic, body).body == body,
        !passing(topic, body).retain,
        passing(topic, body).delivery is AtMostOnce,
        kept(topic, body).retain,
        kept(topic, body).delivery is AtLeastOnce,
{
}

/// A text that is made of a head, a middle and a tail begins with the head, ends with the tail,
/// and has the middle between them.
pub proof fn law_middle_is_found_between(head: Seq<char>, middle: Seq<char>, tail: Seq<char>)
    ensures
        begins_with(head + middle + tail, head),
        ends_with(head + middle + tail, tail),
        between(head + middle + tail, head, tail) == middle,
{
    let text = head + middle + tail;
    assert(text.take(head.len() as int) =~= head);
    assert(text.skip(text.len() - tail.len()) =~= tail);
    assert(between(text, head, tail) =~= middle);
}

} // verus!
