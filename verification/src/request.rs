//! Requests that come in over MQTT, and how they are answered.
use vstd::prelude::*;
use vstd::string::*;

use crate::button::button_index;
use crate::config::Config;
use crate::json::{body, boolean, member, names, optional_string, parse, Json, Members};
use crate::message::message_fits;
use crate::panel::PanelCommand;
use crate::pump::{validate, PumpCommand, PumpError, PumpOutcome};
use crate::text::{same_bytes, same_text, trim_line_end};
use crate::topic::{button_under_base, passing_message, under_base, Message};

verus! {

/// The most bytes of a request.
pub const MAX_REQUEST: usize = 512;

/// The most characters of a message.
pub const MAX_TEXT: usize = 120;

/// The fewest characters of a token.
pub const MIN_TOKEN: usize = 32;

/// Why a message for the display cannot be understood.
#[derive(Clone, Copy, Debug, PartialEq, Eq, Structural)]
pub enum RequestError {
    TooLarge,
    InvalidJson,
    NotAnObject,
    UnknownField,
    TextType,
    TextBounds,
    TtlType,
    TtlRange,
}

/// The words for a message that cannot be understood.
pub open spec fn request_message(error: RequestError) -> Seq<char> {
    match error {
        RequestError::TooLarge => "command too large"@,
        RequestError::InvalidJson => "invalid command JSON"@,
        RequestError::NotAnObject => "command must be an object"@,
        RequestError::UnknownField => "unknown command field"@,
        RequestError::TextType => "text must be a string"@,
        RequestError::TextBounds => "text must be 1..120 printable ASCII bytes or newlines"@,
        RequestError::TtlType => "ttl_seconds must be an unsigned integer"@,
        RequestError::TtlRange => "ttl_seconds must be between 1 and 300"@,
    }
}

impl RequestError {
    /// The words for a message that cannot be understood.
    pub fn message(&self) -> (text: String)
        ensures
            text@ == request_message(*self),
    {
        match self {
            RequestError::TooLarge => "command too large".to_owned(),
            RequestError::InvalidJson => "invalid command JSON".to_owned(),
            RequestError::NotAnObject => "command must be an object".to_owned(),
            RequestError::UnknownField => "unknown command field".to_owned(),
            RequestError::TextType => "text must be a string".to_owned(),
            RequestError::TextBounds =>
                "text must be 1..120 printable ASCII bytes or newlines".to_owned(),
            RequestError::TtlType => "ttl_seconds must be an unsigned integer".to_owned(),
            RequestError::TtlRange => "ttl_seconds must be between 1 and 300".to_owned(),
        }
    }
}

/// The time to live of a message, as a request gives it.
#[derive(Clone, Copy, Debug, PartialEq, Eq, Structural)]
pub enum TtlField {
    Absent,
    NotAnInteger,
    Seconds(u64),
}

/// The fields of a message for the display, as a request gives them.
pub struct DisplayFields {
    pub names: Vec<String>,
    /// The text, if the request has one that is a string.
    pub text: Option<String>,
    pub ttl_seconds: TtlField,
}

/// A field that a message for the display can have.
pub open spec fn display_field(name: Seq<char>) -> bool {
    name == "text"@ || name == "ttl_seconds"@
}

/// A character that a message can have.
pub open spec fn message_char(c: char) -> bool {
    c == '\n' || crate::glyph::printable(c)
}

/// A text that the display takes.
pub open spec fn message_text(text: Seq<char>) -> bool {
    1 <= text.len() <= MAX_TEXT && forall|i: int|
        0 <= i < text.len() ==> message_char(#[trigger] text[i])
}

/// The text and the time to live that fields ask for, or what is wrong with them.
pub open spec fn message_asked(known: bool, text: Option<Seq<char>>, ttl: TtlField) -> Result<
    (Seq<char>, u64),
    RequestError,
> {
    if !known {
        Err(RequestError::UnknownField)
    } else if text is None {
        Err(RequestError::TextType)
    } else if !message_text(text->Some_0) {
        Err(RequestError::TextBounds)
    } else {
        match ttl {
            TtlField::Absent => Ok((text->Some_0, 30)),
            TtlField::NotAnInteger => Err(RequestError::TtlType),
            TtlField::Seconds(seconds) => if 1 <= seconds <= 300 {
                Ok((text->Some_0, seconds))
            } else {
                Err(RequestError::TtlRange)
            },
        }
    }
}

/// Whether a result is a message or a fault, and no other command.
pub open spec fn only_message(result: Result<PanelCommand, RequestError>) -> bool {
    result matches Ok(command) ==> command is Message
}

/// The text and the time to live of a message, or what is wrong with it.
pub open spec fn understood(result: Result<PanelCommand, RequestError>) -> Result<
    (Seq<char>, u64),
    RequestError,
> {
    match result {
        Ok(PanelCommand::Message { text, ttl_seconds }) => Ok((text@, ttl_seconds)),
        Ok(_) => Err(RequestError::UnknownField),
        Err(error) => Err(error),
    }
}

fn is_message_text(text: &str) -> (yes: bool)
    ensures
        yes == message_text(text@),
{
    let n: usize = text.unicode_len();
    if n == 0 || n > MAX_TEXT {
        return false;
    }
    let mut i: usize = 0;
    while i < n
        invariant
            i <= n == text@.len(),
            forall|j: int| 0 <= j < i ==> message_char(#[trigger] text@[j]),
        decreases n - i,
    {
        let c = text.get_char(i);
        if !(c == '\n' || (' ' <= c && c <= '~')) {
            assert(!message_char(text@[i as int]));
            return false;
        }
        i += 1;
    }
    true
}

fn all_known(names: &Vec<String>) -> (yes: bool)
    ensures
        yes == (forall|i: int| 0 <= i < names@.len() ==> display_field((#[trigger] names@[i])@)),
{
    let mut i: usize = 0;
    while i < names.len()
        invariant
            i <= names@.len(),
            forall|j: int| 0 <= j < i ==> display_field((#[trigger] names@[j])@),
        decreases names.len() - i,
    {
        let name = names[i].as_str();
        if !same_text(name, "text") && !same_text(name, "ttl_seconds") {
            assert(!display_field(names@[i as int]@));
            return false;
        }
        i += 1;
    }
    true
}

/// The message that the fields of a request ask for.
pub fn message_from(fields: DisplayFields) -> (result: Result<PanelCommand, RequestError>)
    ensures
        only_message(result),
        understood(result) == message_asked(
            forall|i: int|
                0 <= i < fields.names@.len() ==> display_field((#[trigger] fields.names@[i])@),
            crate::sensor::words(fields.text),
            fields.ttl_seconds,
        ),
{
    if !all_known(&fields.names) {
        return Err(RequestError::UnknownField);
    }
    match fields.text {
        None => Err(RequestError::TextType),
        Some(text) => {
            if !is_message_text(text.as_str()) {
                return Err(RequestError::TextBounds);
            }
            match fields.ttl_seconds {
                TtlField::Absent => Ok(PanelCommand::Message { text, ttl_seconds: 30 }),
                TtlField::NotAnInteger => Err(RequestError::TtlType),
                TtlField::Seconds(seconds) => {
                    if !(1 <= seconds && seconds <= 300) {
                        return Err(RequestError::TtlRange);
                    }
                    Ok(PanelCommand::Message { text, ttl_seconds: seconds })
                },
            }
        },
    }
}

/// The text member of an object, if it is a string.
pub open spec fn text_member(members: Map<Seq<char>, Json>) -> Option<Seq<char>> {
    if members.dom().contains("text"@) {
        match members["text"@] {
            Json::Text(text) => Some(text),
            _ => None,
        }
    } else {
        None
    }
}

/// The time to live of an object.
pub open spec fn ttl_member(members: Map<Seq<char>, Json>) -> TtlField {
    if members.dom().contains("ttl_seconds"@) {
        match members["ttl_seconds"@] {
            Json::Unsigned(seconds) => TtlField::Seconds(seconds),
            _ => TtlField::NotAnInteger,
        }
    } else {
        TtlField::Absent
    }
}

/// The message that a document asks for.
pub open spec fn message_in(document: Option<Json>) -> Result<(Seq<char>, u64), RequestError> {
    match document {
        None => Err(RequestError::InvalidJson),
        Some(Json::Object(members)) => message_asked(
            forall|name: Seq<char>| #[trigger]
                members.dom().contains(name) ==> display_field(name),
            text_member(members),
            ttl_member(members),
        ),
        Some(_) => Err(RequestError::NotAnObject),
    }
}

/// The message that a request asks for.
pub open spec fn display_request(payload: Seq<u8>) -> Result<(Seq<char>, u64), RequestError> {
    if payload.len() > MAX_REQUEST {
        Err(RequestError::TooLarge)
    } else {
        message_in(crate::json::parsed(payload))
    }
}

fn fields_of(value: &serde_json::Value) -> (fields: Option<DisplayFields>)
    ensures
        match fields {
            Some(fields) => {
                &&& crate::json::held(*value) is Object
                &&& forall|name: Seq<char>| #[trigger]
                    crate::json::held(*value)->Object_0.dom().contains(name)
                        <==> crate::json::listed(fields.names@, name)
                &&& crate::sensor::words(fields.text) == text_member(
                    crate::json::held(*value)->Object_0,
                )
                &&& fields.ttl_seconds == ttl_member(crate::json::held(*value)->Object_0)
            },
            None => crate::json::held(*value) !is Object,
        },
{
    match names(value) {
        None => None,
        Some(names) => {
            let text: Option<String> = match member(value, "text") {
                Some(value) => match value.as_str() {
                    Some(text) => Some(text.to_owned()),
                    None => None,
                },
                None => None,
            };
            let ttl_seconds: TtlField = match member(value, "ttl_seconds") {
                Some(value) => match value.as_u64() {
                    Some(seconds) => TtlField::Seconds(seconds),
                    None => TtlField::NotAnInteger,
                },
                None => TtlField::Absent,
            };
            Some(DisplayFields { names, text, ttl_seconds })
        },
    }
}

/// The message that a request asks for.
pub fn display_command(payload: &[u8]) -> (result: Result<PanelCommand, RequestError>)
    ensures
        only_message(result),
        understood(result) == display_request(payload@),
{
    if payload.len() > MAX_REQUEST {
        return Err(RequestError::TooLarge);
    }
    let value = match parse(payload) {
        Ok(value) => value,
        Err(_) => return Err(RequestError::InvalidJson),
    };
    match fields_of(&value) {
        None => Err(RequestError::NotAnObject),
        Some(fields) => {
            proof {
                let members = crate::json::held(value)->Object_0;
                let listed = forall|i: int|
                    0 <= i < fields.names@.len() ==> display_field((#[trigger] fields.names@[i])@);
                let known = forall|name: Seq<char>| #[trigger]
                    members.dom().contains(name) ==> display_field(name);
                if known {
                    assert forall|i: int| 0 <= i < fields.names@.len() implies display_field(
                        (#[trigger] fields.names@[i])@,
                    ) by {
                        assert(members.dom().contains(fields.names@[i]@));
                    }
                }
                if listed {
                    assert forall|name: Seq<char>| #[trigger]
                        members.dom().contains(name) implies display_field(name) by {
                        let i = choose|i: int|
                            0 <= i < fields.names@.len() && (#[trigger] fields.names@[i])@ == name;
                        assert(display_field(fields.names@[i]@));
                    }
                }
                assert(known == listed);
            }
            message_from(fields)
        },
    }
}

/// What a sender is told of a message for the display.
#[derive(Clone, Debug, PartialEq, Eq)]
pub struct DisplayReply {
    /// The text that was understood, if any.
    pub text: Option<String>,
    /// Why the message is rejected, if it is.
    pub reason: Option<String>,
}

/// What a sender is told of a message for the display, in characters.
#[verifier::ext_equal]
pub struct DisplayReplyView {
    pub text: Option<Seq<char>>,
    pub reason: Option<Seq<char>>,
}

impl View for DisplayReply {
    type V = DisplayReplyView;

    open spec fn view(&self) -> DisplayReplyView {
        DisplayReplyView {
            text: crate::sensor::words(self.text),
            reason: crate::sensor::words(self.reason),
        }
    }
}

/// What to do with a message for the display.
pub enum DisplayStep {
    Reply(DisplayReply),
    /// Hand the command to the panel, and tell the sender of this text whether that worked.
    Queue { command: PanelCommand, text: String },
}

/// What to do with a message for the display, in characters.
pub enum DisplayStepView {
    Reply(DisplayReplyView),
    Queue { text: Seq<char>, ttl_seconds: u64 },
}

/// Whether a step is the one that its view describes.
pub open spec fn is_display_step(step: DisplayStep, view: DisplayStepView) -> bool {
    match step {
        DisplayStep::Reply(reply) => view == DisplayStepView::Reply(reply@),
        DisplayStep::Queue { command, text } => {
            &&& command matches PanelCommand::Message { text: shown, ttl_seconds }
            &&& view == DisplayStepView::Queue { text: shown@, ttl_seconds }
            &&& text@ == shown@
        },
    }
}

/// A message for the display that is rejected.
pub open spec fn display_rejected(text: Option<Seq<char>>, reason: Seq<char>) -> DisplayStepView {
    DisplayStepView::Reply(DisplayReplyView { text, reason: Some(reason) })
}

/// What to do with a message for the display: retained ones, those for a disabled panel and
/// those that the screen has no room for are rejected.
pub open spec fn display_step(
    config: Config,
    asked: Result<(Seq<char>, u64), RequestError>,
    retain: bool,
) -> DisplayStepView {
    match asked {
        Err(error) => display_rejected(None, request_message(error)),
        Ok((text, ttl_seconds)) => if retain {
            display_rejected(Some(text), "retained commands are not accepted"@)
        } else if !config.panel_enabled {
            display_rejected(Some(text), "panel disabled"@)
        } else if !crate::message::fits(text) {
            display_rejected(Some(text), "text exceeds display capacity"@)
        } else {
            DisplayStepView::Queue { text, ttl_seconds }
        },
    }
}

fn rejected_text(text: String, reason: &str) -> (step: DisplayStep)
    ensures
        is_display_step(step, display_rejected(Some(text@), reason@)),
{
    DisplayStep::Reply(DisplayReply { text: Some(text), reason: Some(reason.to_owned()) })
}

/// What to do with a message for the display, once it has been understood or not.
pub fn display_decision(
    config: &Config,
    asked: Result<PanelCommand, RequestError>,
    retain: bool,
) -> (step: DisplayStep)
    requires
        only_message(asked),
    ensures
        is_display_step(step, display_step(*config, understood(asked), retain)),
{
    match asked {
        Err(error) => DisplayStep::Reply(
            DisplayReply { text: None, reason: Some(error.message()) },
        ),
        Ok(PanelCommand::Message { text, ttl_seconds }) => {
            if retain {
                rejected_text(text, "retained commands are not accepted")
            } else if !config.panel_enabled {
                rejected_text(text, "panel disabled")
            } else if !message_fits(text.as_str()) {
                rejected_text(text, "text exceeds display capacity")
            } else {
                let shown = text.clone();
                DisplayStep::Queue {
                    command: PanelCommand::Message { text: shown, ttl_seconds },
                    text,
                }
            }
        },
        Ok(_) => DisplayStep::Reply(DisplayReply { text: None, reason: None }),
    }
}

/// What to do with a request for the display.
pub fn handle_display(config: &Config, payload: &[u8], retain: bool) -> (step: DisplayStep)
    ensures
        is_display_step(step, display_step(*config, display_request(payload@), retain)),
{
    display_decision(config, display_command(payload), retain)
}

/// What a sender is told once the panel was asked.
pub open spec fn queue_reason(queued: bool) -> Option<Seq<char>> {
    if queued {
        None
    } else {
        Some("panel queue unavailable"@)
    }
}

/// What a sender is told once the panel was asked.
pub fn after_queue(queued: bool) -> (reason: Option<String>)
    ensures
        crate::sensor::words(reason) == queue_reason(queued),
{
    if queued {
        None
    } else {
        Some("panel queue unavailable".to_owned())
    }
}

/// What the sender of a text is told once the panel was asked to show it.
pub fn queued_reply(text: String, queued: bool) -> (reply: DisplayReply)
    ensures
        reply@ == (DisplayReplyView { text: Some(text@), reason: queue_reason(queued) }),
{
    DisplayReply { text: Some(text), reason: after_queue(queued) }
}

/// The answer to a request for the display.
pub open spec fn display_answer(reply: DisplayReplyView) -> Json {
    Json::Object(
        Map::<Seq<char>, Json>::empty().insert("accepted"@, Json::Bool(reply.reason is None)).insert(
            "status"@,
            Json::Text(
                if reply.reason is None {
                    "queued"@
                } else {
                    "rejected"@
                },
            ),
        ).insert("text"@, crate::json::optional_text(reply.text)).insert(
            "reason"@,
            crate::json::optional_text(reply.reason),
        ),
    )
}

/// The answer to a request for the display.
pub fn display_ack(config: &Config, reply: &DisplayReply) -> (message: Message)
    requires
        config.mqtt is Some,
    ensures
        message@ == crate::topic::passing(
            crate::topic::base_topic(*config) + "/display/ack"@,
            crate::json::written(display_answer(reply@)),
        ),
{
    broadcast use crate::json::lemma_member_nested;

    let accepted: bool = reply.reason.is_none();
    let mut members = Members::new();
    members.put("accepted", boolean(accepted));
    members.text(
        "status",
        if accepted {
            "queued"
        } else {
            "rejected"
        },
    );
    members.put("text", optional_string(&reply.text));
    members.put("reason", optional_string(&reply.reason));
    let value = members.finish();
    passing_message(under_base(config, "/display/ack"), body(&value))
}

/// Why a press from elsewhere is rejected, if it is.
pub open spec fn press_refusal(
    config: Config,
    button: Seq<char>,
    payload: Seq<u8>,
    retain: bool,
) -> Option<Seq<char>> {
    if crate::button::index_of(button) is None {
        Some("unknown button"@)
    } else if retain || payload != press_payload() {
        Some("retained or invalid button command"@)
    } else if !config.panel_enabled {
        Some("panel disabled"@)
    } else {
        None
    }
}

/// The bytes that press a button.
pub open spec fn press_payload() -> Seq<u8> {
    seq![80u8, 82, 69, 83, 83]
}

/// What to do with a press from elsewhere: the command for the panel, or why it is rejected.
pub fn handle_virtual_press(config: &Config, button: &str, payload: &[u8], retain: bool) -> (result:
    Result<PanelCommand, String>)
    ensures
        match result {
            Ok(command) => press_refusal(*config, button@, payload@, retain) is None && (
            command matches PanelCommand::VirtualPress { button: pressed } && pressed@ == button@),
            Err(reason) => press_refusal(*config, button@, payload@, retain) == Some(reason@),
        },
{
    if button_index(button).is_none() {
        return Err("unknown button".to_owned());
    }
    let press: [u8; 5] = [80, 82, 69, 83, 83];
    assert(press@ =~= press_payload());
    if retain || !same_bytes(payload, &press) {
        return Err("retained or invalid button command".to_owned());
    }
    if !config.panel_enabled {
        return Err("panel disabled".to_owned());
    }
    Ok(PanelCommand::VirtualPress { button: button.to_owned() })
}

/// The answer to a press from elsewhere.
pub open spec fn press_answer(reason: Option<Seq<char>>) -> Json {
    Json::Object(
        Map::<Seq<char>, Json>::empty().insert("accepted"@, Json::Bool(reason is None)).insert(
            "reason"@,
            crate::json::optional_text(reason),
        ),
    )
}

/// The answer to a press from elsewhere.
pub fn press_ack(config: &Config, button: &str, reason: &Option<String>) -> (message: Message)
    requires
        config.mqtt is Some,
    ensures
        message@ == crate::topic::passing(
            crate::topic::button_topic(*config, button@, "/press/ack"@),
            crate::json::written(press_answer(crate::sensor::words(*reason))),
        ),
{
    broadcast use crate::json::lemma_member_nested;

    let mut members = Members::new();
    members.put("accepted", boolean(reason.is_none()));
    members.put("reason", optional_string(reason));
    let value = members.finish();
    passing_message(button_under_base(config, button, "/press/ack"), body(&value))
}

/// A request for a pump pulse, as it comes in.
pub struct PumpMqttRequest {
    pub request_id: String,
    pub channel: u8,
    pub duty_percent: u8,
    pub duration_ms: u64,
    pub token: String,
}

/// How a request for a pump pulse ended.
#[derive(Clone, Copy, Debug, PartialEq, Eq, Structural)]
pub enum PumpStatus {
    Completed,
    Duplicate,
    Rejected,
}

/// The word for how a request ended.
pub open spec fn status_word(status: PumpStatus) -> Seq<char> {
    match status {
        PumpStatus::Completed => "completed"@,
        PumpStatus::Duplicate => "duplicate"@,
        PumpStatus::Rejected => "rejected"@,
    }
}

impl PumpStatus {
    /// The word for how a request ended.
    pub fn word(&self) -> (word: &'static str)
        ensures
            word@ == status_word(*self),
    {
        match self {
            PumpStatus::Completed => "completed",
            PumpStatus::Duplicate => "duplicate",
            PumpStatus::Rejected => "rejected",
        }
    }
}

/// What a sender is told of a request for a pump pulse.
#[derive(Clone, Debug, PartialEq, Eq)]
pub struct PumpReply {
    pub request_id: Option<String>,
    pub status: PumpStatus,
    pub reason: Option<String>,
}

/// What a sender is told of a request for a pump pulse, in characters.
#[verifier::ext_equal]
pub struct PumpReplyView {
    pub request_id: Option<Seq<char>>,
    pub status: PumpStatus,
    pub reason: Option<Seq<char>>,
}

impl View for PumpReply {
    type V = PumpReplyView;

    open spec fn view(&self) -> PumpReplyView {
        PumpReplyView {
            request_id: crate::sensor::words(self.request_id),
            status: self.status,
            reason: crate::sensor::words(self.reason),
        }
    }
}

/// A rejected request for a pump pulse.
pub open spec fn pump_rejected(request_id: Option<Seq<char>>, reason: Seq<char>) -> PumpReplyView {
    PumpReplyView { request_id, status: PumpStatus::Rejected, reason: Some(reason) }
}

fn reject_pump(request_id: Option<String>, reason: String) -> (reply: PumpReply)
    ensures
        reply@ == pump_rejected(crate::sensor::words(request_id), reason@),
{
    PumpReply { request_id, status: PumpStatus::Rejected, reason: Some(reason) }
}

/// Whether a token is the stored one: the stored one counts without its line end, and only if
/// it has at least 32 characters.
pub open spec fn token_accepted(stored: Seq<char>, token: Seq<char>) -> bool {
    let expected = crate::text::without_line_end(stored);
    expected.len() >= MIN_TOKEN && expected == token
}

/// Whether a configuration names a file with a token.
pub open spec fn token_configured(config: Config) -> bool {
    config.pump matches Some(pump) && pump.mqtt_token_file is Some
}

/// Whether a request carries the token that its configuration asks for.
pub open spec fn authorised(config: Config, stored: Option<Seq<char>>, token: Seq<char>) -> bool {
    token_configured(config) && stored is Some && token_accepted(stored->Some_0, token)
}

/// Whether two byte strings of one length are equal, looking at every byte whatever it holds.
fn equal_throughout(a: &[u8], b: &[u8]) -> (equal: bool)
    requires
        a@.len() == b@.len(),
    ensures
        equal == (a@ == b@),
{
    let mut difference: u8 = 0;
    let mut i: usize = 0;
    while i < a.len()
        invariant
            i <= a@.len() == b@.len(),
            difference == 0 <==> (forall|j: int| 0 <= j < i ==> a@[j] == b@[j]),
        decreases a.len() - i,
    {
        let x: u8 = a[i];
        let y: u8 = b[i];
        assert((difference | (x ^ y)) == 0 <==> (difference == 0 && x == y)) by (bit_vector);
        difference = difference | (x ^ y);
        i += 1;
    }
    if difference == 0 {
        assert(a@ =~= b@);
    }
    difference == 0
}

/// Whether a request carries the token that its configuration asks for. What the token file
/// holds is given as far as it could be read.
pub fn pump_token_valid(config: &Config, stored: &Option<String>, token: &str) -> (yes: bool)
    ensures
        yes == authorised(*config, crate::sensor::words(*stored), token@),
{
    let configured: bool = match &config.pump {
        Some(pump) => pump.mqtt_token_file.is_some(),
        None => false,
    };
    if !configured {
        return false;
    }
    match stored {
        None => false,
        Some(stored) => {
            let expected = trim_line_end(stored.as_str());
            if expected.unicode_len() < MIN_TOKEN {
                return false;
            }
            let left = expected.as_bytes();
            let right = token.as_bytes();
            proof {
                vstd::utf8::encode_utf8_decode_utf8(expected@);
                vstd::utf8::encode_utf8_decode_utf8(token@);
            }
            if left.len() != right.len() {
                return false;
            }
            equal_throughout(left, right)
        },
    }
}

/// Whether a request for a pump pulse is worth reading: it is neither retained nor oversized.
pub fn pump_readable(payload: &[u8], retain: bool) -> (yes: bool)
    ensures
        yes == (!retain && payload@.len() <= MAX_REQUEST),
{
    !retain && payload.len() <= MAX_REQUEST
}

/// The command of a request.
pub open spec fn command_of(request: PumpMqttRequest) -> PumpCommand {
    PumpCommand {
        request_id: request.request_id,
        channel: request.channel,
        duty_percent: request.duty_percent,
        duration_ms: request.duration_ms,
    }
}

/// Why a request for a pump pulse is rejected before it is run, if it is.
pub open spec fn pump_refusal(
    config: Config,
    payload: Seq<u8>,
    retain: bool,
    request: Option<PumpMqttRequest>,
    stored: Option<Seq<char>>,
) -> Option<PumpReplyView> {
    if retain || payload.len() > MAX_REQUEST {
        Some(pump_rejected(None, "retained or oversized command"@))
    } else {
        match request {
            None => Some(pump_rejected(None, "invalid command JSON"@)),
            Some(request) => if !authorised(config, stored, request.token@) {
                Some(pump_rejected(Some(request.request_id@), "unauthorised"@))
            } else {
                match crate::pump::refusal(config, command_of(request), false) {
                    Some(error) => Some(
                        pump_rejected(
                            Some(request.request_id@),
                            crate::pump::pump_message(error),
                        ),
                    ),
                    None => None,
                }
            },
        }
    }
}

/// What to do with a request for a pump pulse: the command to run, or the answer. The request
/// is given as far as its payload could be read, and so is what the token file holds.
pub fn handle_pump(
    config: &Config,
    payload: &[u8],
    retain: bool,
    request: Option<PumpMqttRequest>,
    stored: &Option<String>,
) -> (result: Result<PumpCommand, PumpReply>)
    ensures
        match result {
            Ok(command) => {
                &&& pump_refusal(
                    *config,
                    payload@,
                    retain,
                    request,
                    crate::sensor::words(*stored),
                ) is None
                &&& request is Some
                &&& command == command_of(request->Some_0)
            },
            Err(reply) => pump_refusal(
                *config,
                payload@,
                retain,
                request,
                crate::sensor::words(*stored),
            ) == Some(reply@),
        },
{
    if !pump_readable(payload, retain) {
        return Err(reject_pump(None, "retained or oversized command".to_owned()));
    }
    let request = match request {
        Some(request) => request,
        None => return Err(reject_pump(None, "invalid command JSON".to_owned())),
    };
    let valid: bool = pump_token_valid(config, stored, request.token.as_str());
    let command = PumpCommand {
        request_id: request.request_id,
        channel: request.channel,
        duty_percent: request.duty_percent,
        duration_ms: request.duration_ms,
    };
    if !valid {
        return Err(reject_pump(Some(command.request_id), "unauthorised".to_owned()));
    }
    match validate(config, &command) {
        Err(error) => Err(reject_pump(Some(command.request_id.clone()), error.message())),
        Ok(_) => Ok(command),
    }
}

/// What a sender is told once a request has been run.
pub open spec fn pump_outcome(
    request_id: Seq<char>,
    result: Result<PumpOutcome, PumpError>,
) -> PumpReplyView {
    match result {
        Ok(PumpOutcome::Completed) => PumpReplyView {
            request_id: Some(request_id),
            status: PumpStatus::Completed,
            reason: None,
        },
        Ok(PumpOutcome::Duplicate) => PumpReplyView {
            request_id: Some(request_id),
            status: PumpStatus::Duplicate,
            reason: None,
        },
        Err(error) => pump_rejected(Some(request_id), crate::pump::pump_message(error)),
    }
}

/// What a sender is told once a request has been run.
pub fn pump_reply(request_id: &str, result: &Result<PumpOutcome, PumpError>) -> (reply: PumpReply)
    ensures
        reply@ == pump_outcome(request_id@, *result),
{
    match result {
        Ok(PumpOutcome::Completed) => PumpReply {
            request_id: Some(request_id.to_owned()),
            status: PumpStatus::Completed,
            reason: None,
        },
        Ok(PumpOutcome::Duplicate) => PumpReply {
            request_id: Some(request_id.to_owned()),
            status: PumpStatus::Duplicate,
            reason: None,
        },
        Err(error) => reject_pump(Some(request_id.to_owned()), error.message()),
    }
}

/// The answer to a request for a pump pulse.
pub open spec fn pump_answer(reply: PumpReplyView) -> Json {
    Json::Object(
        Map::<Seq<char>, Json>::empty().insert(
            "request_id"@,
            crate::json::optional_text(reply.request_id),
        ).insert("status"@, Json::Text(status_word(reply.status))).insert(
            "reason"@,
            crate::json::optional_text(reply.reason),
        ),
    )
}

/// The answer to a request for a pump pulse.
pub fn pump_ack(config: &Config, reply: &PumpReply) -> (message: Message)
    requires
        config.mqtt is Some,
    ensures
        message@ == crate::topic::passing(
            crate::topic::base_topic(*config) + "/pump/ack"@,
            crate::json::written(pump_answer(reply@)),
        ),
{
    broadcast use crate::json::lemma_member_nested;

    let mut members = Members::new();
    members.put("request_id", optional_string(&reply.request_id));
    members.text("status", reply.status.word());
    members.put("reason", optional_string(&reply.reason));
    let value = members.finish();
    passing_message(under_base(config, "/pump/ack"), body(&value))
}

/// A retained request is never carried out, whatever it asks for: not a message, not a press,
/// not a pulse.
pub proof fn law_retained_requests_are_refused(
    config: Config,
    payload: Seq<u8>,
    button: Seq<char>,
    request: Option<PumpMqttRequest>,
    stored: Option<Seq<char>>,
)
    ensures
        display_step(config, display_request(payload), true) is Reply,
        display_step(config, display_request(payload), true)->Reply_0.reason is Some,
        press_refusal(config, button, payload, true) is Some,
        pump_refusal(config, payload, true, request, stored) is Some,
{
}

/// Nothing reaches a panel that is disabled.
pub proof fn law_disabled_panel_is_left_alone(
    config: Config,
    payload: Seq<u8>,
    button: Seq<char>,
    retain: bool,
)
    requires
        !config.panel_enabled,
    ensures
        display_step(config, display_request(payload), retain) is Reply,
        press_refusal(config, button, payload, retain) is Some,
{
}

/// A message that reaches the panel is shown in full.
pub proof fn law_queued_message_is_shown_in_full(config: Config, payload: Seq<u8>, retain: bool)
    ensures
        display_step(config, display_request(payload), retain) matches DisplayStepView::Queue {
            text,
            ttl_seconds,
        } ==> {
            &&& message_text(text)
            &&& 1 <= ttl_seconds <= 300
            &&& crate::message::fits(text)
            &&& crate::message::run_together(crate::message::shown_lines(text))
                == crate::message::visible(text)
        },
{
    if let Ok((text, _)) = display_request(payload) {
        crate::message::law_fitting_message_is_shown_in_full(text);
    }
}

/// Without the token no pulse is run: a request is carried out only if it carries the stored
/// token, and that token has at least 32 characters.
pub proof fn law_no_pulse_without_the_token(
    config: Config,
    payload: Seq<u8>,
    retain: bool,
    request: Option<PumpMqttRequest>,
    stored: Option<Seq<char>>,
)
    requires
        pump_refusal(config, payload, retain, request, stored) is None,
    ensures
        request is Some,
        token_configured(config),
        stored is Some,
        request->Some_0.token@ == crate::text::without_line_end(stored->Some_0),
        request->Some_0.token@.len() >= MIN_TOKEN,
        crate::pump::refusal(config, command_of(request->Some_0), false) is None,
{
}

/// A request that is carried out keeps to the configured limits, debug mode or not.
pub proof fn law_remote_pulses_keep_the_limits(
    config: Config,
    payload: Seq<u8>,
    retain: bool,
    request: Option<PumpMqttRequest>,
    stored: Option<Seq<char>>,
)
    requires
        pump_refusal(config, payload, retain, request, stored) is None,
    ensures
        config.pump is Some && config.pump->Some_0.enabled,
        crate::config::confirmed_hardware(config),
        request->Some_0.duration_ms <= config.pump->Some_0.max_duration_ms,
        request->Some_0.duty_percent <= 90,
{
}

/// An answer says `accepted` exactly when it gives no reason.
pub proof fn law_answers_are_consistent(reply: DisplayReplyView, reason: Option<Seq<char>>)
    ensures
        ({
            let answer = display_answer(reply)->Object_0;
            answer["accepted"@] == Json::Bool(answer["reason"@] is Null)
        }),
        ({
            let answer = press_answer(reason)->Object_0;
            answer["accepted"@] == Json::Bool(answer["reason"@] is Null)
        }),
{
    reveal_strlit("accepted");
    reveal_strlit("reason");
    reveal_strlit("status");
    reveal_strlit("text");
    assert("accepted"@.len() == 8);
    assert("reason"@.len() == 6);
    assert("status"@.len() == 6);
    assert("text"@.len() == 4);
    assert("reason"@[0] != "status"@[0]);
}

/// Which requests for a pulse are carried out: exactly those that are not retained, have at most
/// 512 bytes, could be read, carry the token of at least 32 characters that the configured file
/// holds, and keep to the limits of every requester.
pub proof fn law_good_pump_requests_are_carried_out(
    config: Config,
    payload: Seq<u8>,
    retain: bool,
    request: Option<PumpMqttRequest>,
    stored: Option<Seq<char>>,
)
    ensures
        pump_refusal(config, payload, retain, request, stored) is None <==> {
            &&& !retain
            &&& payload.len() <= 512
            &&& request is Some
            &&& config.pump is Some
            &&& config.pump->Some_0.mqtt_token_file is Some
            &&& stored is Some
            &&& request->Some_0.token@.len() >= 32
            &&& holds_token(stored->Some_0, request->Some_0.token@)
            &&& crate::pump::refusal(
                config,
                PumpCommand {
                    request_id: request->Some_0.request_id,
                    channel: request->Some_0.channel,
                    duty_percent: request->Some_0.duty_percent,
                    duration_ms: request->Some_0.duration_ms,
                },
                false,
            ) is None
        },
{
    if stored is Some && request is Some {
        lemma_without_line_end(stored->Some_0, request->Some_0.token@);
    }
}

/// Whether what a file holds is a token, perhaps with line ends after it.
pub open spec fn holds_token(stored: Seq<char>, token: Seq<char>) -> bool {
    &&& stored.len() >= token.len()
    &&& stored.take(token.len() as int) == token
    &&& token.len() > 0 ==> token.last() != '\r' && token.last() != '\n'
    &&& forall|i: int|
        token.len() <= i < stored.len() ==> (#[trigger] stored[i] == '\r' || stored[i] == '\n')
}

/// What is left of a file without its line end is a token exactly if the file holds the token.
pub proof fn lemma_without_line_end(stored: Seq<char>, token: Seq<char>)
    ensures
        crate::text::without_line_end(stored) == token <==> holds_token(stored, token),
    decreases stored.len(),
{
    if stored.len() > 0 && (stored.last() == '\r' || stored.last() == '\n') {
        let rest = stored.drop_last();
        lemma_without_line_end(rest, token);
        if holds_token(rest, token) {
            assert(stored.take(token.len() as int) =~= rest.take(token.len() as int));
            assert forall|i: int| token.len() <= i < stored.len() implies (#[trigger] stored[i]
                == '\r' || stored[i] == '\n') by {
                if i < rest.len() {
                    assert(rest[i] == stored[i]);
                }
            }
        }
        if holds_token(stored, token) {
            if token.len() == stored.len() {
                assert(token =~= stored);
            }
            assert(stored.take(token.len() as int) =~= rest.take(token.len() as int));
            assert forall|i: int| token.len() <= i < rest.len() implies (#[trigger] rest[i] == '\r'
                || rest[i] == '\n') by {
                assert(rest[i] == stored[i]);
            }
        }
    } else {
        assert(stored.take(stored.len() as int) =~= stored);
        if holds_token(stored, token) {
            if token.len() < stored.len() {
                assert(stored[stored.len() - 1] == stored.last());
            }
            assert(token =~= stored);
        }
    }
}

/// How a request for a pulse that is not carried out is answered: as rejected, with its
/// identifier as soon as it could be read, and with the first reason that holds.
pub proof fn law_refused_pump_requests_are_answered(
    config: Config,
    payload: Seq<u8>,
    retain: bool,
    request: Option<PumpMqttRequest>,
    stored: Option<Seq<char>>,
)
    ensures
        pump_refusal(config, payload, retain, request, stored) matches Some(reply) ==> {
            let unread = retain || payload.len() > 512 || request is None;
            &&& reply.status is Rejected
            &&& unread ==> reply.request_id is None
            &&& !unread ==> reply.request_id == Some(request->Some_0.request_id@)
            &&& retain || payload.len() > 512 ==> reply.reason == Some(
                "retained or oversized command"@,
            )
            &&& !retain && payload.len() <= 512 && request is None ==> reply.reason == Some(
                "invalid command JSON"@,
            )
            &&& !unread && !(stored is Some && request->Some_0.token@.len() >= 32 && holds_token(
                stored->Some_0,
                request->Some_0.token@,
            )) ==> reply.reason == Some("unauthorised"@)
        },
{
    if stored is Some && request is Some {
        lemma_without_line_end(stored->Some_0, request->Some_0.token@);
    }
}

/// How a request for a pulse that was run is answered: with its identifier, and without a reason
/// exactly if it succeeded or had been run before.
pub proof fn law_finished_pump_requests_are_answered(
    request_id: Seq<char>,
    result: Result<PumpOutcome, PumpError>,
)
    ensures
        ({
            let reply = pump_outcome(request_id, result);
            &&& reply.request_id == Some(request_id)
            &&& reply.status is Completed <==> (result is Ok && result->Ok_0 is Completed)
            &&& reply.status is Duplicate <==> (result is Ok && result->Ok_0 is Duplicate)
            &&& reply.status is Rejected <==> result is Err
            &&& reply.reason is Some <==> result is Err
            &&& result is Err ==> reply.reason == Some(crate::pump::pump_message(result->Err_0))
        }),
{
}

/// What an answer for a pulse says: the identifier, the status in a word and the reason.
pub proof fn law_pump_answer_tells_the_reply(reply: PumpReplyView)
    ensures
        ({
            let answer = pump_answer(reply);
            &&& answer is Object
            &&& answer->Object_0.dom() == set!["request_id"@, "status"@, "reason"@]
            &&& answer->Object_0["request_id"@] == match reply.request_id {
                Some(id) => Json::Text(id),
                None => Json::Null,
            }
            &&& answer->Object_0["reason"@] == match reply.reason {
                Some(reason) => Json::Text(reason),
                None => Json::Null,
            }
            &&& answer->Object_0["status"@] == Json::Text(
                match reply.status {
                    PumpStatus::Completed => "completed"@,
                    PumpStatus::Duplicate => "duplicate"@,
                    PumpStatus::Rejected => "rejected"@,
                },
            )
        }),
{
    lemma_answer_names();
    assert(pump_answer(reply)->Object_0.dom() =~= set!["request_id"@, "status"@, "reason"@]);
}

proof fn lemma_answer_names()
    ensures
        "request_id"@.len() == 10,
        "accepted"@.len() == 8,
        "text"@.len() == 4,
        "status"@ != "reason"@,
        "status"@.len() == 6,
        "reason"@.len() == 6,
{
    reveal_strlit("request_id");
    reveal_strlit("accepted");
    reveal_strlit("reason");
    reveal_strlit("status");
    reveal_strlit("text");
    assert("status"@.len() == 6);
    assert("reason"@.len() == 6);
    assert("reason"@[0] == 'r');
    assert("status"@[0] == 's');
}

/// What an answer for the display says: whether the message is accepted, which is when there is
/// no reason against it, the same in a word, the text that was understood and the reason.
pub proof fn law_display_answer_tells_the_reply(reply: DisplayReplyView)
    ensures
        ({
            let answer = display_answer(reply);
            &&& answer is Object
            &&& answer->Object_0.dom() == set!["accepted"@, "status"@, "text"@, "reason"@]
            &&& answer->Object_0["accepted"@] == Json::Bool(reply.reason is None)
            &&& reply.reason is None ==> answer->Object_0["status"@] == Json::Text("queued"@)
            &&& reply.reason is Some ==> answer->Object_0["status"@] == Json::Text("rejected"@)
            &&& answer->Object_0["text"@] == match reply.text {
                Some(text) => Json::Text(text),
                None => Json::Null,
            }
            &&& answer->Object_0["reason"@] == match reply.reason {
                Some(reason) => Json::Text(reason),
                None => Json::Null,
            }
        }),
{
    lemma_answer_names();
    assert(display_answer(reply)->Object_0.dom() =~= set![
        "accepted"@,
        "status"@,
        "text"@,
        "reason"@,
    ]);
}

/// What an answer for a press says: whether it is accepted, and why not.
pub proof fn law_press_answer_tells_the_reason(reason: Option<Seq<char>>)
    ensures
        ({
            let answer = press_answer(reason);
            &&& answer is Object
            &&& answer->Object_0.dom() == set!["accepted"@, "reason"@]
            &&& answer->Object_0["accepted"@] == Json::Bool(reason is None)
            &&& answer->Object_0["reason"@] == match reason {
                Some(reason) => Json::Text(reason),
                None => Json::Null,
            }
        }),
{
    lemma_answer_names();
    assert(press_answer(reason)->Object_0.dom() =~= set!["accepted"@, "reason"@]);
}

/// A command that was handed to the panel is accepted, and one that could not be is answered
/// with the reason.
pub proof fn law_only_a_full_queue_is_a_reason(queued: bool)
    ensures
        queue_reason(queued) is None <==> queued,
        !queued ==> queue_reason(queued) == Some("panel queue unavailable"@),
{
}

/// Which presses from elsewhere reach the panel: exactly those of the buttons A, B, X and Y with
/// the payload `PRESS`, not retained, where the panel is enabled.
pub proof fn law_good_presses_reach_the_panel(
    config: Config,
    button: Seq<char>,
    payload: Seq<u8>,
    retain: bool,
)
    ensures
        press_refusal(config, button, payload, retain) is None <==> {
            &&& button == "A"@ || button == "B"@ || button == "X"@ || button == "Y"@
            &&& !retain
            &&& config.panel_enabled
            &&& payload.len() == "PRESS"@.len()
            &&& forall|i: int|
                0 <= i < payload.len() ==> #[trigger] payload[i] == "PRESS"@[i] as u32
        },
{
    reveal_strlit("PRESS");
    let press = "PRESS"@;
    assert(press.len() == 5);
    assert(press[0] == 'P' && press[1] == 'R' && press[2] == 'E' && press[3] == 'S' && press[4]
        == 'S');
    if payload.len() == 5 && (forall|i: int|
        0 <= i < payload.len() ==> #[trigger] payload[i] == press[i] as u32) {
        assert(payload[0] == 80 && payload[1] == 82 && payload[2] == 69 && payload[3] == 83
            && payload[4] == 83);
        assert(payload =~= press_payload());
    }
    if payload == press_payload() {
        assert(payload.len() == 5);
    }
}

/// Which messages are understood: an object of at most 512 bytes with a text, perhaps a time to
/// live and nothing else. The text has 1 to 120 printable ASCII characters and newlines, and
/// lives for 1 to 300 seconds, or for 30 if the request does not say.
pub proof fn law_good_messages_are_understood(
    payload: Seq<u8>,
    text: Seq<char>,
    ttl_seconds: u64,
)
    ensures
        display_request(payload) == Ok::<(Seq<char>, u64), RequestError>((text, ttl_seconds)) <==> {
            let document = crate::json::parsed(payload);
            let members = document->Some_0->Object_0;
            &&& payload.len() <= 512
            &&& document is Some
            &&& document->Some_0 is Object
            &&& forall|name: Seq<char>| #[trigger]
                members.dom().contains(name) ==> name == "text"@ || name == "ttl_seconds"@
            &&& members.dom().contains("text"@)
            &&& members["text"@] == Json::Text(text)
            &&& 1 <= text.len() <= 120
            &&& forall|i: int|
                0 <= i < text.len() ==> (#[trigger] text[i] == '\n' || ' ' <= text[i] <= '~')
            &&& if members.dom().contains("ttl_seconds"@) {
                members["ttl_seconds"@] == Json::Unsigned(ttl_seconds) && 1 <= ttl_seconds <= 300
            } else {
                ttl_seconds == 30
            }
        },
{
    assert(message_text(text) <==> (1 <= text.len() <= 120 && forall|i: int|
        0 <= i < text.len() ==> (#[trigger] text[i] == '\n' || ' ' <= text[i] <= '~'))) by {
        if message_text(text) {
            assert forall|i: int| 0 <= i < text.len() implies (#[trigger] text[i] == '\n' || ' '
                <= text[i] <= '~') by {
                assert(message_char(text[i]));
            }
        }
    }
}

/// A message that is not understood is answered with what is wrong with it.
pub proof fn law_misunderstood_messages_tell_what_is_wrong(payload: Seq<u8>)
    ensures
        ({
            let document = crate::json::parsed(payload);
            let members = document->Some_0->Object_0;
            match display_request(payload) {
                Ok(_) => true,
                Err(RequestError::TooLarge) => payload.len() > 512,
                Err(RequestError::InvalidJson) => document is None,
                Err(RequestError::NotAnObject) => document is Some && document->Some_0 !is Object,
                Err(RequestError::UnknownField) => exists|name: Seq<char>| #[trigger]
                    members.dom().contains(name) && name != "text"@ && name != "ttl_seconds"@,
                Err(RequestError::TextType) => !(members.dom().contains("text"@)
                    && members["text"@] is Text),
                Err(RequestError::TextBounds) => members["text"@] is Text && !message_text(
                    members["text"@]->Text_0,
                ),
                Err(RequestError::TtlType) => members.dom().contains("ttl_seconds"@)
                    && members["ttl_seconds"@] !is Unsigned,
                Err(RequestError::TtlRange) => members["ttl_seconds"@] is Unsigned && !(1
                    <= members["ttl_seconds"@]->Unsigned_0 <= 300),
            }
        }),
{
}

/// Which messages reach the panel: exactly those that are understood, not retained and shown in
/// full, where the panel is enabled; they reach it as they were understood.
pub proof fn law_good_messages_reach_the_panel(
    config: Config,
    asked: Result<(Seq<char>, u64), RequestError>,
    retain: bool,
    text: Seq<char>,
    ttl_seconds: u64,
)
    ensures
        display_step(config, asked, retain) == (DisplayStepView::Queue { text, ttl_seconds })
            <==> asked == Ok::<(Seq<char>, u64), RequestError>((text, ttl_seconds)) && !retain
            && config.panel_enabled && crate::message::wrapped(text).len() <= 5,
        display_step(config, asked, retain) matches DisplayStepView::Reply(reply)
            ==> reply.reason is Some && reply.text == match asked {
            Ok((text, _)) => Some(text),
            Err(_) => None,
        },
{
}

/// What is sent in answer to a request: a message on the topic of the answer, delivered at most
/// once and not kept, that holds the answer written down.
pub proof fn law_answers_go_to_their_topics(
    config: Config,
    button: &str,
    display: DisplayReply,
    press: Option<String>,
    pump: PumpReply,
    display_sent: Message,
    press_sent: Message,
    pump_sent: Message,
)
    requires
        config.mqtt is Some,
        call_ensures(display_ack, (&config, &display), display_sent),
        call_ensures(press_ack, (&config, button, &press), press_sent),
        call_ensures(pump_ack, (&config, &pump), pump_sent),
    ensures
        ({
            let base = config.mqtt->Some_0.topic_prefix@ + "/"@ + config.device_id@;
            &&& display_sent.topic@ == base + "/display/ack"@
            &&& display_sent.body@ == crate::json::written(display_answer(display@))
            &&& press_sent.topic@ == base + "/buttons/"@ + button@ + "/press/ack"@
            &&& press_sent.body@ == crate::json::written(press_answer(crate::sensor::words(press)))
            &&& pump_sent.topic@ == base + "/pump/ack"@
            &&& pump_sent.body@ == crate::json::written(pump_answer(pump@))
            &&& !display_sent.retain && !press_sent.retain && !pump_sent.retain
            &&& display_sent.delivery is AtMostOnce
            &&& press_sent.delivery is AtMostOnce
            &&& pump_sent.delivery is AtMostOnce
        }),
{
    assert(display_sent@.retain == display_sent.retain);
    assert(press_sent@.retain == press_sent.retain);
    assert(pump_sent@.retain == pump_sent.retain);
}

/// A request for a pulse that is carried out is carried out as it was made, and one that is not
/// is answered as rejected.
pub proof fn law_pump_requests_are_run_as_made(
    config: Config,
    payload: &[u8],
    retain: bool,
    request: Option<PumpMqttRequest>,
    stored: Option<String>,
    result: Result<PumpCommand, PumpReply>,
)
    requires
        call_ensures(handle_pump, (&config, payload, retain, request, &stored), result),
    ensures
        result is Ok <==> {
            &&& !retain
            &&& payload@.len() <= 512
            &&& request is Some
            &&& config.pump is Some
            &&& config.pump->Some_0.mqtt_token_file is Some
            &&& stored is Some
            &&& request->Some_0.token@.len() >= 32
            &&& holds_token(stored->Some_0@, request->Some_0.token@)
            &&& crate::pump::refusal(config, command_of(request->Some_0), false) is None
        },
        result matches Ok(command) ==> command.request_id == request->Some_0.request_id
            && command.channel == request->Some_0.channel && command.duty_percent
            == request->Some_0.duty_percent && command.duration_ms == request->Some_0.duration_ms,
        result matches Err(reply) ==> reply.status is Rejected && reply.reason is Some,
{
    law_good_pump_requests_are_carried_out(
        config,
        payload@,
        retain,
        request,
        crate::sensor::words(stored),
    );
    law_refused_pump_requests_are_answered(
        config,
        payload@,
        retain,
        request,
        crate::sensor::words(stored),
    );
    if let Err(reply) = result {
        assert(reply@.status == reply.status);
    }
}

/// A press that reaches the panel presses the button that was asked for.
pub proof fn law_presses_press_the_button_asked_for(
    config: Config,
    button: &str,
    payload: &[u8],
    retain: bool,
    result: Result<PanelCommand, String>,
)
    requires
        call_ensures(handle_virtual_press, (&config, button, payload, retain), result),
    ensures
        result is Ok <==> press_refusal(config, button@, payload@, retain) is None,
        result matches Ok(command) ==> command is VirtualPress && command->button@ == button@,
        result is Err && retain && crate::button::index_of(button@) is Some ==> result->Err_0@
            == "retained or invalid button command"@,
        result is Err && crate::button::index_of(button@) is None ==> result->Err_0@
            == "unknown button"@,
{
}

/// A message that reaches the panel is the one that was asked for, for as long as it was asked
/// for, and its sender is told of the same text.
pub proof fn law_messages_are_shown_as_asked_for(
    config: Config,
    payload: &[u8],
    retain: bool,
    step: DisplayStep,
    reply: DisplayReply,
    queued: bool,
)
    requires
        call_ensures(handle_display, (&config, payload, retain), step),
        step is Queue ==> call_ensures(queued_reply, (step->text, queued), reply),
    ensures
        step is Queue <==> {
            let asked = display_request(payload@);
            asked is Ok && !retain && config.panel_enabled && crate::message::wrapped(
                asked->Ok_0.0,
            ).len() <= 5
        },
        step is Queue ==> {
            &&& step->command is Message
            &&& step->command->Message_text@ == display_request(payload@)->Ok_0.0
            &&& step->command->ttl_seconds == display_request(payload@)->Ok_0.1
            &&& reply.text is Some
            &&& reply.text->Some_0@ == display_request(payload@)->Ok_0.0
            &&& reply.reason is None <==> queued
        },
{
    if step is Queue {
        assert(reply@.text == crate::sensor::words(reply.text));
        assert(reply@.reason == crate::sensor::words(reply.reason));
    }
}

/// What the sender of a message reads when it is not understood.
pub proof fn law_words_for_misunderstood_messages()
    ensures
        request_message(RequestError::TooLarge) == "command too large"@,
        request_message(RequestError::InvalidJson) == "invalid command JSON"@,
        request_message(RequestError::NotAnObject) == "command must be an object"@,
        request_message(RequestError::UnknownField) == "unknown command field"@,
        request_message(RequestError::TextType) == "text must be a string"@,
        request_message(RequestError::TextBounds)
            == "text must be 1..120 printable ASCII bytes or newlines"@,
        request_message(RequestError::TtlType) == "ttl_seconds must be an unsigned integer"@,
        request_message(RequestError::TtlRange) == "ttl_seconds must be between 1 and 300"@,
{
}

} // verus!
