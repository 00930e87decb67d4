//! A controller's conversation with the broker.
//!
//! [`Session`] is told what comes in and decides what goes out. The steps of a plan are to be
//! carried out in their order; the first one that fails ends the connection.
use vstd::prelude::*;
use vstd::string::*;

use crate::batch::{current_readings, health, same_health, Batch};
use crate::board::ButtonBoard;
use crate::button::{button_index, ButtonEvent, EventView};
use crate::config::Config;
use crate::discovery::{announce, availability_message};
use crate::sensor::{ReadingStatus, ReadingView, SensorReading};
use crate::text::{same_bytes, same_text, trim_line_end};
use crate::topic::{birth, button_under_base, passing_message, reading_state, text_between};
use crate::topic::{under_base, Message, MessageView};

verus! {

/// Why the broker cannot be used.
#[derive(Clone, Copy, Debug, PartialEq, Eq, Structural)]
pub enum ConnectionError {
    NotConfigured,
    PasswordUnreadable,
    PasswordWithoutUsername,
}

/// The words for a broker that cannot be used.
pub open spec fn connection_message(error: ConnectionError) -> Seq<char> {
    match error {
        ConnectionError::NotConfigured =>
            "run requires an [mqtt] section; use diagnose for readings without MQTT"@,
        ConnectionError::PasswordUnreadable =>
            "cannot read MQTT password_file; check its path and permissions"@,
        ConnectionError::PasswordWithoutUsername => "MQTT password_file requires username"@,
    }
}

impl ConnectionError {
    /// The words for a broker that cannot be used.
    pub fn message(&self) -> (text: String)
        ensures
            text@ == connection_message(*self),
    {
        match self {
            ConnectionError::NotConfigured =>
                "run requires an [mqtt] section; use diagnose for readings without MQTT".to_owned(),
            ConnectionError::PasswordUnreadable =>
                "cannot read MQTT password_file; check its path and permissions".to_owned(),
            ConnectionError::PasswordWithoutUsername =>
                "MQTT password_file requires username".to_owned(),
        }
    }
}

/// How to reach the broker.
pub struct Connection {
    pub client_id: String,
    pub host: String,
    pub port: u16,
    pub keep_alive_seconds: u64,
    pub clean_session: bool,
    /// What the broker tells others once the controller is gone.
    pub last_will: Message,
    /// A user name and a password.
    pub credentials: Option<(String, String)>,
}

/// The user name and the password for the broker, where it asks for them.
pub open spec fn credentials_for(config: Config, stored: Option<Seq<char>>) -> Option<
    (Seq<char>, Seq<char>),
> {
    match config.mqtt->Some_0.username {
        Some(username) => Some(
            (
                username@,
                if config.mqtt->Some_0.password_file is Some {
                    crate::text::without_line_end(stored->Some_0)
                } else {
                    Seq::empty()
                },
            ),
        ),
        None => None,
    }
}

/// Why the broker of a configuration cannot be used, if it cannot.
pub open spec fn connection_fault(config: Config, stored: Option<Seq<char>>) -> Option<
    ConnectionError,
> {
    match config.mqtt {
        None => Some(ConnectionError::NotConfigured),
        Some(mqtt) => if mqtt.password_file is Some && mqtt.username is None {
            Some(ConnectionError::PasswordWithoutUsername)
        } else if mqtt.password_file is Some && stored is None {
            Some(ConnectionError::PasswordUnreadable)
        } else {
            None
        },
    }
}

/// The view of a user name and a password.
pub open spec fn credentials_view(credentials: Option<(String, String)>) -> Option<
    (Seq<char>, Seq<char>),
> {
    match credentials {
        Some((username, password)) => Some((username@, password@)),
        None => None,
    }
}

/// How to reach the broker of a configuration. What the password file holds is given as far
/// as it could be read, and counts without its line end.
pub fn options(config: &Config, stored: &Option<String>) -> (result: Result<
    Connection,
    ConnectionError,
>)
    ensures
        match result {
            Ok(connection) => {
                let mqtt = config.mqtt->Some_0;
                &&& connection_fault(*config, crate::sensor::words(*stored)) is None
                &&& connection.client_id@ == "growhat_"@ + config.device_id@
                &&& connection.host@ == mqtt.host@
                &&& connection.port == mqtt.port
                &&& connection.keep_alive_seconds == 5
                &&& connection.clean_session
                &&& connection.last_will@ == crate::topic::kept(
                    crate::discovery::availability_topic(*config),
                    crate::discovery::offline_payload(),
                )
                &&& credentials_view(connection.credentials) == credentials_for(
                    *config,
                    crate::sensor::words(*stored),
                )
            },
            Err(error) => connection_fault(*config, crate::sensor::words(*stored)) == Some(error),
        },
{
    let mqtt = match &config.mqtt {
        Some(mqtt) => mqtt,
        None => return Err(ConnectionError::NotConfigured),
    };
    let credentials: Option<(String, String)> = match &mqtt.username {
        Some(username) => {
            let password: String = match &mqtt.password_file {
                Some(_) => match stored {
                    Some(stored) => trim_line_end(stored.as_str()).to_owned(),
                    None => return Err(ConnectionError::PasswordUnreadable),
                },
                None => String::new(),
            };
            assert(mqtt.password_file is None ==> password@ =~= Seq::<char>::empty());
            Some((username.clone(), password))
        },
        None => {
            if mqtt.password_file.is_some() {
                return Err(ConnectionError::PasswordWithoutUsername);
            }
            None
        },
    };
    Ok(
        Connection {
            client_id: crate::text::after_each_other("growhat_", config.device_id.as_str()),
            host: mqtt.host.clone(),
            port: mqtt.port,
            keep_alive_seconds: 5,
            clean_session: true,
            last_will: availability_message(config, false),
            credentials,
        },
    )
}

/// A reading and the topic that it goes to.
pub struct ReadingStep {
    pub topic: String,
    pub reading: SensorReading,
}

impl ReadingStep {
    /// The message for a reading, once it has been written down: delivered at most once and
    /// not kept.
    pub fn message(self, body: Vec<u8>) -> (message: Message)
        ensures
            message@ == crate::topic::passing(self.topic@, body@),
    {
        passing_message(self.topic, body)
    }
}

/// The state of a button and the topic that it goes to.
pub struct ButtonStep {
    pub topic: String,
    pub event: ButtonEvent,
}

impl ButtonStep {
    /// The message for the state of a button, once it has been written down: delivered at most
    /// once and not kept.
    pub fn message(self, body: Vec<u8>) -> (message: Message)
        ensures
            message@ == crate::topic::passing(self.topic@, body@),
    {
        passing_message(self.topic, body)
    }
}

/// What is to be sent to the broker, in this order: subscriptions, messages, readings and the
/// states of buttons. Where a button does not exist there is nothing to send, and the
/// connection ends.
pub struct Plan {
    pub subscriptions: Vec<String>,
    pub messages: Vec<Message>,
    pub readings: Vec<ReadingStep>,
    pub buttons: Vec<Option<ButtonStep>>,
    /// How far the readings can be relied on, to be remembered once all is sent.
    pub health: Vec<ReadingStatus>,
}

/// What is to be sent to the broker, in characters.
#[verifier::ext_equal]
pub struct PlanView {
    pub subscriptions: Seq<Seq<char>>,
    pub messages: Seq<MessageView>,
    pub readings: Seq<(Seq<char>, ReadingView)>,
    pub buttons: Seq<Option<(Seq<char>, EventView)>>,
    pub health: Seq<ReadingStatus>,
}

/// A reading and the topic that it goes to, in characters.
pub open spec fn reading_steps(readings: Seq<ReadingStep>) -> Seq<(Seq<char>, ReadingView)> {
    readings.map_values(|step: ReadingStep| (step.topic@, step.reading@))
}

/// The state of a button and the topic that it goes to, in characters.
pub open spec fn button_step(step: Option<ButtonStep>) -> Option<(Seq<char>, EventView)> {
    match step {
        Some(step) => Some((step.topic@, step.event@)),
        None => None,
    }
}

/// The states of some buttons and their topics, in characters.
pub open spec fn button_steps(buttons: Seq<Option<ButtonStep>>) -> Seq<
    Option<(Seq<char>, EventView)>,
> {
    buttons.map_values(|step: Option<ButtonStep>| button_step(step))
}

impl View for Plan {
    type V = PlanView;

    open spec fn view(&self) -> PlanView {
        PlanView {
            subscriptions: crate::message::lines_view(self.subscriptions@),
            messages: crate::topic::message_views(self.messages@),
            readings: reading_steps(self.readings@),
            buttons: button_steps(self.buttons@),
            health: self.health@,
        }
    }
}

/// The topics that a controller listens on.
pub open spec fn subscriptions(config: Config) -> Seq<Seq<char>> {
    seq![
        crate::topic::birth_topic(config),
        crate::topic::base_topic(config) + "/display/set"@,
        crate::topic::base_topic(config) + "/pump/set"@,
        crate::topic::base_topic(config) + "/buttons/+/press/set"@,
    ]
}

fn subscription_topics(config: &Config) -> (topics: Vec<String>)
    requires
        config.mqtt is Some,
    ensures
        crate::message::lines_view(topics@) == subscriptions(*config),
{
    let mut topics: Vec<String> = Vec::new();
    topics.push(birth(config));
    topics.push(under_base(config, "/display/set"));
    topics.push(under_base(config, "/pump/set"));
    topics.push(under_base(config, "/buttons/+/press/set"));
    assert(crate::message::lines_view(topics@) =~= subscriptions(*config));
    topics
}

/// Readings and the topics that they go to.
pub open spec fn readings_out(config: Config, readings: Seq<ReadingView>) -> Seq<
    (Seq<char>, ReadingView),
> {
    readings.map_values(
        |reading: ReadingView|
            (crate::topic::reading_topic(config, reading.channel), reading),
    )
}

fn reading_plan(config: &Config, batch: &Batch, now_ns: u128) -> (plan: (
    Vec<ReadingStep>,
    Vec<ReadingStatus>,
))
    requires
        config.mqtt is Some,
    ensures
        reading_steps(plan.0@) == readings_out(
            *config,
            crate::batch::current(*batch, now_ns, config.stale_after_ms),
        ),
        plan.1@ == crate::batch::health_of(
            crate::batch::current(*batch, now_ns, config.stale_after_ms),
        ),
{
    let mut readings = current_readings(batch, now_ns, config.stale_after_ms);
    let statuses = health(&readings);
    let ghost all = crate::sensor::reading_views(readings@);
    let ghost wanted = readings_out(*config, all);
    let mut steps: Vec<ReadingStep> = Vec::new();
    assert(reading_steps(steps@) =~= wanted.take(0));
    let mut i: usize = 0;
    let n: usize = readings.len();
    assert(crate::sensor::reading_views(readings@) =~= all.skip(0));
    while i < n
        invariant
            config.mqtt is Some,
            i <= n == all.len(),
            readings@.len() == n - i,
            wanted == readings_out(*config, all),
            crate::sensor::reading_views(readings@) == all.skip(i as int),
            reading_steps(steps@) == wanted.take(i as int),
        decreases n - i,
    {
        let ghost held = readings@;
        let reading = readings.remove(0);
        proof {
            assert(crate::sensor::reading_views(held)[0] == reading@);
            assert(reading@ == all[i as int]);
            assert(crate::sensor::reading_views(readings@) =~= all.skip(i + 1)) by {
                assert forall|j: int| 0 <= j < readings@.len() implies readings@[j]@ == all.skip(
                    i + 1,
                )[j] by {
                    assert(readings@[j] == held[j + 1]);
                    assert(crate::sensor::reading_views(held)[j + 1] == all.skip(i as int)[j + 1]);
                }
            }
        }
        let ghost before = reading_steps(steps@);
        let topic = reading_state(config, reading.channel);
        steps.push(ReadingStep { topic, reading });
        proof {
            assert(reading_steps(steps@) =~= before.push(wanted[i as int]));
            assert(wanted.take(i + 1) =~= wanted.take(i as int).push(wanted[i as int]));
        }
        i += 1;
    }
    assert(wanted.take(n as int) =~= wanted);
    (steps, statuses)
}

/// The state of a button and the topic that it goes to, if the button exists.
pub open spec fn button_out(config: Config, event: EventView) -> Option<(Seq<char>, EventView)> {
    if crate::button::index_of(event.button) is Some {
        Some((crate::topic::button_topic(config, event.button, "/state"@), event))
    } else {
        None
    }
}

/// The states of some buttons and the topics that they go to.
pub open spec fn buttons_out(config: Config, states: Seq<EventView>) -> Seq<
    Option<(Seq<char>, EventView)>,
> {
    states.map_values(|event: EventView| button_out(config, event))
}

/// The state of a button and the topic that it goes to, if the button exists.
pub fn publish_button(config: &Config, event: &ButtonEvent) -> (step: Option<ButtonStep>)
    requires
        config.mqtt is Some,
    ensures
        button_step(step) == button_out(*config, event@),
{
    if button_index(event.button.as_str()).is_none() {
        return None;
    }
    let topic = button_under_base(config, event.button.as_str(), "/state");
    let copy = ButtonEvent {
        button: event.button.clone(),
        pressed: event.pressed,
        count: event.count,
    };
    assert(copy@ =~= event@);
    Some(ButtonStep { topic, event: copy })
}

fn button_plan(config: &Config, board: &ButtonBoard) -> (steps: Vec<Option<ButtonStep>>)
    requires
        config.mqtt is Some,
    ensures
        button_steps(steps@) == buttons_out(*config, board@),
{
    let mut steps: Vec<Option<ButtonStep>> = Vec::new();
    let ghost wanted = buttons_out(*config, board@);
    assert(button_steps(steps@) =~= wanted.take(0));
    let mut i: usize = 0;
    while i < board.len()
        invariant
            config.mqtt is Some,
            i <= board@.len(),
            wanted == buttons_out(*config, board@),
            button_steps(steps@) == wanted.take(i as int),
        decreases board@.len() - i,
    {
        let ghost before = button_steps(steps@);
        steps.push(publish_button(config, board.at(i)));
        proof {
            assert(button_steps(steps@) =~= before.push(wanted[i as int]));
            assert(wanted.take(i + 1) =~= wanted.take(i as int).push(wanted[i as int]));
        }
        i += 1;
    }
    assert(wanted.take(i as int) =~= wanted);
    steps
}

/// Where an incoming message belongs.
pub enum Route {
    /// Home Assistant has started.
    Birth,
    Display,
    Pump,
    /// A press from elsewhere of the button of a name.
    Press(String),
    Nowhere,
}

/// Where an incoming message belongs, in characters.
pub enum RouteView {
    Birth,
    Display,
    Pump,
    Press(Seq<char>),
    Nowhere,
}

impl View for Route {
    type V = RouteView;

    open spec fn view(&self) -> RouteView {
        match *self {
            Route::Birth => RouteView::Birth,
            Route::Display => RouteView::Display,
            Route::Pump => RouteView::Pump,
            Route::Press(button) => RouteView::Press(button@),
            Route::Nowhere => RouteView::Nowhere,
        }
    }
}

/// Where an incoming message belongs.
pub open spec fn route_of(config: Config, topic: Seq<char>, payload: Seq<u8>) -> RouteView {
    let press_head = crate::topic::base_topic(config) + "/buttons/"@;
    if topic == crate::topic::birth_topic(config) && payload == crate::discovery::online_payload() {
        RouteView::Birth
    } else if topic == crate::topic::base_topic(config) + "/display/set"@ {
        RouteView::Display
    } else if topic == crate::topic::base_topic(config) + "/pump/set"@ {
        RouteView::Pump
    } else if crate::topic::begins_with(topic, press_head) && crate::topic::ends_with(
        topic,
        "/press/set"@,
    ) {
        RouteView::Press(crate::topic::between(topic, press_head, "/press/set"@))
    } else {
        RouteView::Nowhere
    }
}

/// Where an incoming message belongs.
pub fn route(config: &Config, topic: &str, payload: &[u8]) -> (route: Route)
    requires
        config.mqtt is Some,
    ensures
        route@ == route_of(*config, topic@, payload@),
{
    let online: [u8; 6] = [111, 110, 108, 105, 110, 101];
    assert(online@ =~= crate::discovery::online_payload());
    if same_text(topic, birth(config).as_str()) && same_bytes(payload, &online) {
        return Route::Birth;
    }
    if same_text(topic, under_base(config, "/display/set").as_str()) {
        return Route::Display;
    }
    if same_text(topic, under_base(config, "/pump/set").as_str()) {
        return Route::Pump;
    }
    match text_between(topic, under_base(config, "/buttons/").as_str(), "/press/set") {
        Some(button) => Route::Press(button),
        None => Route::Nowhere,
    }
}

/// A controller's conversation with the broker.
pub struct Session {
    pub connected: bool,
    pub last_health: Vec<ReadingStatus>,
    pub board: ButtonBoard,
    pub events_open: bool,
}

/// A controller's conversation with the broker, as sequences.
#[verifier::ext_equal]
pub struct SessionView {
    pub connected: bool,
    pub last_health: Seq<ReadingStatus>,
    pub board: Seq<EventView>,
    pub events_open: bool,
}

impl View for Session {
    type V = SessionView;

    open spec fn view(&self) -> SessionView {
        SessionView {
            connected: self.connected,
            last_health: self.last_health@,
            board: self.board@,
            events_open: self.events_open,
        }
    }
}

/// Nothing to send.
pub open spec fn no_plan() -> PlanView {
    PlanView {
        subscriptions: Seq::empty(),
        messages: Seq::empty(),
        readings: Seq::empty(),
        buttons: Seq::empty(),
        health: Seq::empty(),
    }
}

/// The readings of a sample as they are at a time.
pub open spec fn readings_at(config: Config, batch: Batch, now_ns: u128) -> Seq<ReadingView> {
    crate::batch::current(batch, now_ns, config.stale_after_ms)
}

/// The readings and nothing else.
pub open spec fn reading_view_plan(config: Config, readings: Seq<ReadingView>) -> PlanView {
    PlanView {
        readings: readings_out(config, readings),
        health: crate::batch::health_of(readings),
        ..no_plan()
    }
}

/// All that is known of a controller.
pub open spec fn full_plan(
    config: Config,
    readings: Seq<ReadingView>,
    board: Seq<EventView>,
) -> PlanView {
    PlanView {
        messages: crate::discovery::announcement_messages(config),
        buttons: buttons_out(config, board),
        ..reading_view_plan(config, readings)
    }
}

/// What is sent once the broker has answered: the subscriptions and all that is known.
pub open spec fn first_plan(
    config: Config,
    readings: Seq<ReadingView>,
    board: Seq<EventView>,
) -> PlanView {
    PlanView {
        subscriptions: subscriptions(config),
        ..full_plan(config, readings, board)
    }
}

/// A conversation after its connection is gone.
pub open spec fn after_disconnect(session: SessionView) -> SessionView {
    SessionView { connected: false, last_health: Seq::empty(), ..session }
}

/// A conversation once the broker has answered, with the states of buttons that piled up.
pub open spec fn after_connect(
    session: SessionView,
    config: Config,
    backlog: Seq<EventView>,
    backlog_open: bool,
) -> SessionView {
    if config.panel_enabled {
        SessionView {
            connected: true,
            board: crate::board::with_states(session.board, backlog),
            events_open: session.events_open && backlog_open,
            ..session
        }
    } else {
        SessionView { connected: true, ..session }
    }
}

/// A conversation after the state of a button came in, or the news that no more will.
pub open spec fn after_button(
    session: SessionView,
    config: Config,
    event: Option<EventView>,
) -> SessionView {
    match event {
        Some(event) => if config.panel_enabled {
            SessionView { board: crate::board::with_state(session.board, event), ..session }
        } else {
            session
        },
        None => SessionView { events_open: false, ..session },
    }
}

/// What is sent after the state of a button came in.
pub open spec fn button_view_plan(
    session: SessionView,
    config: Config,
    event: Option<EventView>,
) -> PlanView {
    match event {
        Some(event) => if config.panel_enabled && session.connected {
            PlanView { buttons: seq![button_out(config, event)], ..no_plan() }
        } else {
            no_plan()
        },
        None => no_plan(),
    }
}

fn empty_plan() -> (plan: Plan)
    ensures
        plan@ == no_plan(),
{
    let plan = Plan {
        subscriptions: Vec::new(),
        messages: Vec::new(),
        readings: Vec::new(),
        buttons: Vec::new(),
        health: Vec::new(),
    };
    assert(plan@ =~= no_plan());
    plan
}

/// The readings of a sample, to be sent.
pub fn publish_readings(config: &Config, batch: &Batch, now_ns: u128) -> (plan: Plan)
    requires
        config.mqtt is Some,
    ensures
        plan@ == reading_view_plan(*config, readings_at(*config, *batch, now_ns)),
{
    let (readings, statuses) = reading_plan(config, batch, now_ns);
    let mut plan = empty_plan();
    plan.readings = readings;
    plan.health = statuses;
    plan
}

impl Session {
    /// A conversation that has not begun.
    pub fn new() -> (session: Session)
        ensures
            session@ == (SessionView {
                connected: false,
                last_health: Seq::empty(),
                board: Seq::empty(),
                events_open: true,
            }),
    {
        let session = Session {
            connected: false,
            last_health: Vec::new(),
            board: ButtonBoard::new(),
            events_open: true,
        };
        assert(session@.last_health =~= Seq::<ReadingStatus>::empty());
        session
    }

    /// All that is known of the controller, to be sent.
    pub fn refresh(&self, config: &Config, batch: &Batch, now_ns: u128) -> (plan: Plan)
        requires
            config.mqtt is Some,
        ensures
            plan@ == full_plan(*config, readings_at(*config, *batch, now_ns), self@.board),
    {
        let mut plan = publish_readings(config, batch, now_ns);
        plan.messages = announce(config);
        plan.buttons = button_plan(config, &self.board);
        plan
    }

    /// The broker has answered: subscribes, and sends all that is known. The states of buttons
    /// that piled up meanwhile are given, and whether more can come; they count where the
    /// panel is enabled.
    pub fn connect(
        &mut self,
        config: &Config,
        backlog: Vec<ButtonEvent>,
        backlog_open: bool,
        batch: &Batch,
        now_ns: u128,
    ) -> (plan: Plan)
        requires
            config.mqtt is Some,
        ensures
            final(self)@ == after_connect(
                old(self)@,
                *config,
                crate::button::event_views(backlog@),
                backlog_open,
            ),
            plan@ == (PlanView {
                subscriptions: subscriptions(*config),
                ..full_plan(*config, readings_at(*config, *batch, now_ns), final(self)@.board)
            }),
            plan@ == first_plan(*config, readings_at(*config, *batch, now_ns), final(self)@.board),
    {
        self.connected = true;
        if config.panel_enabled {
            self.board.drain_button_events(backlog);
            if !backlog_open {
                self.events_open = false;
            }
        }
        let mut plan = self.refresh(config, batch, now_ns);
        plan.subscriptions = subscription_topics(config);
        plan
    }

    /// The readings have been sent.
    pub fn sent(&mut self, health: Vec<ReadingStatus>)
        ensures
            final(self)@ == (SessionView { last_health: health@, ..old(self)@ }),
    {
        self.last_health = health;
    }

    /// The readings, to be sent because how far they can be relied on has changed; none if it
    /// has not, or if there is no connection.
    pub fn tick(&self, config: &Config, batch: &Batch, now_ns: u128) -> (plan: Option<Plan>)
        requires
            config.mqtt is Some,
        ensures
            plan is Some <==> self@.connected && crate::batch::health_of(
                readings_at(*config, *batch, now_ns),
            ) != self@.last_health,
            plan matches Some(plan) ==> plan@ == reading_view_plan(
                *config,
                readings_at(*config, *batch, now_ns),
            ),
    {
        if !self.connected {
            return None;
        }
        let plan = publish_readings(config, batch, now_ns);
        if same_health(&plan.health, &self.last_health) {
            None
        } else {
            Some(plan)
        }
    }

    /// The state of a button came in, or the news that no more will.
    pub fn button(&mut self, config: &Config, event: Option<ButtonEvent>) -> (plan: Plan)
        requires
            config.mqtt is Some,
        ensures
            final(self)@ == after_button(
                old(self)@,
                *config,
                crate::button::event_view(event),
            ),
            plan@ == button_view_plan(old(self)@, *config, crate::button::event_view(event)),
    {
        let mut plan = empty_plan();
        match event {
            Some(event) => {
                if config.panel_enabled {
                    if self.connected {
                        plan.buttons.push(publish_button(config, &event));
                        assert(plan@.buttons =~= seq![button_out(*config, event@)]);
                    }
                    self.board.insert(event);
                }
            },
            None => {
                self.events_open = false;
            },
        }
        plan
    }

    /// The connection is gone. What was sent over it no longer counts; what is known does.
    pub fn disconnect(&mut self)
        ensures
            final(self)@ == (SessionView {
                connected: false,
                last_health: Seq::empty(),
                ..old(self)@
            }),
            final(self)@ == after_disconnect(old(self)@),
    {
        self.connected = false;
        self.last_health = Vec::new();
        assert(self@.last_health =~= Seq::<ReadingStatus>::empty());
    }

    /// What to tell the broker before leaving on purpose, if there is a connection.
    pub fn farewell(&self, config: &Config) -> (message: Option<Message>)
        requires
            config.mqtt is Some,
        ensures
            message is Some <==> self@.connected,
            message matches Some(message) ==> message@ == crate::topic::kept(
                crate::discovery::availability_topic(*config),
                crate::discovery::offline_payload(),
            ),
    {
        if self.connected {
            Some(availability_message(config, false))
        } else {
            None
        }
    }
}

/// The states of the buttons stay in the order of their names, each name once, whatever comes
/// in, and an outage loses none of them.
pub proof fn law_button_states_stay_in_order(
    session: SessionView,
    config: Config,
    backlog: Seq<EventView>,
    backlog_open: bool,
    event: Option<EventView>,
)
    requires
        crate::board::in_name_order(session.board),
    ensures
        crate::board::in_name_order(after_connect(session, config, backlog, backlog_open).board),
        crate::board::in_name_order(after_button(session, config, event).board),
        backlog.len() == 0 ==> after_connect(session, config, backlog, backlog_open).board
            == session.board,
{
    crate::board::law_backlog_leaves_the_latest_states(session.board, backlog, Seq::empty());
    if let Some(event) = event {
        crate::board::law_board_stays_in_order(session.board, event);
    }
}

/// Coming back after an outage tells the latest state of each button and nothing older, and
/// every known state is told again.
pub proof fn law_reconnect_tells_the_latest_states(
    session: SessionView,
    config: Config,
    backlog: Seq<EventView>,
    backlog_open: bool,
    name: Seq<char>,
)
    requires
        config.panel_enabled,
        crate::board::in_name_order(session.board),
    ensures
        ({
            let after = after_connect(session, config, backlog, backlog_open);
            &&& crate::board::in_name_order(after.board)
            &&& crate::board::state_of(after.board, name) == match crate::board::last_of(
                backlog,
                name,
            ) {
                Some(event) => Some(event),
                None => crate::board::state_of(session.board, name),
            }
        }),
{
    crate::board::law_backlog_leaves_the_latest_states(session.board, backlog, name);
}

/// A request is routed by its topic alone, whatever it holds: to the display, to the pump or
/// to the button that the topic names. The controller's own answers are taken for none.
pub proof fn law_requests_are_routed_by_topic(config: Config, payload: Seq<u8>, name: Seq<char>)
    requires
        crate::button::index_of(name) is Some,
    ensures
        route_of(config, crate::topic::base_topic(config) + "/display/set"@, payload) is Display,
        route_of(config, crate::topic::base_topic(config) + "/pump/set"@, payload) is Pump,
        route_of(config, crate::topic::button_topic(config, name, "/press/set"@), payload)
            == RouteView::Press(name),
        route_of(config, crate::topic::base_topic(config) + "/display/ack"@, payload) !is Display,
        route_of(config, crate::topic::base_topic(config) + "/pump/ack"@, payload) !is Pump,
{
    reveal_strlit("/status");
    reveal_strlit("/buttons/");
    reveal_strlit("/press/set");
    reveal_strlit("/display/ack");
    reveal_strlit("/display/set");
    reveal_strlit("/pump/ack");
    reveal_strlit("/pump/set");
    let base = crate::topic::base_topic(config);
    let topic = crate::topic::button_topic(config, name, "/press/set"@);
    let head = base + "/buttons/"@;
    let n = base.len() as int;
    assert(crate::topic::birth_topic(config).last() == 's');
    assert(topic.last() == 't');
    assert(topic[n + 1] == 'b');
    assert((base + "/display/set"@).last() == 't');
    assert((base + "/display/set"@)[n + 1] == 'd');
    assert((base + "/pump/set"@).last() == 't');
    assert((base + "/pump/set"@)[n + 1] == 'p');
    assert((base + "/display/ack"@)[n + 9] == 'a');
    assert((base + "/display/set"@)[n + 9] == 's');
    assert((base + "/pump/ack"@)[n + 6] == 'a');
    assert((base + "/pump/set"@)[n + 6] == 's');
    assert(topic.take(head.len() as int) =~= head);
    assert(topic.skip(topic.len() - "/press/set"@.len()) =~= "/press/set"@);
    assert(crate::topic::between(topic, head, "/press/set"@) =~= name);
}

/// What a controller listens on: the start of Home Assistant, messages for the display, requests
/// for the pump and presses of any button.
pub proof fn law_controller_listens_for_requests(config: Config)
    ensures
        ({
            let base = config.mqtt->Some_0.topic_prefix@ + "/"@ + config.device_id@;
            let topics = subscriptions(config);
            &&& topics.len() == 4
            &&& topics[0] == config.mqtt->Some_0.discovery_prefix@ + "/status"@
            &&& topics[1] == base + "/display/set"@
            &&& topics[2] == base + "/pump/set"@
            &&& topics[3] == base + "/buttons/+/press/set"@
        }),
{
}

/// Home Assistant has started exactly if the word `online` comes in on its topic; any other word
/// there is nothing, wherever the topic is none of the controller's own.
pub proof fn law_birth_is_the_word_online(config: Config, topic: Seq<char>, payload: Seq<u8>)
    ensures
        route_of(config, topic, payload) is Birth <==> topic
            == config.mqtt->Some_0.discovery_prefix@ + "/status"@ && crate::discovery::spells(
            payload,
            "online"@,
        ),
{
    crate::discovery::law_availability_is_told_in_words(payload);
}

/// Where each topic leads: to the display, to the pump or to a button exactly the topics below
/// the controller's own that are for it, and every other one nowhere, but for the start of Home
/// Assistant.
pub proof fn law_each_topic_leads_to_one_place(config: Config, topic: Seq<char>, payload: Seq<u8>)
    requires
        route_of(config, topic, payload) !is Birth,
    ensures
        ({
            let base = config.mqtt->Some_0.topic_prefix@ + "/"@ + config.device_id@;
            let route = route_of(config, topic, payload);
            &&& route is Display <==> topic == base + "/display/set"@
            &&& route is Pump <==> topic == base + "/pump/set"@
            &&& route is Press ==> crate::topic::begins_with(topic, base + "/buttons/"@)
                && crate::topic::ends_with(topic, "/press/set"@)
            &&& route is Nowhere ==> !(crate::topic::begins_with(topic, base + "/buttons/"@)
                && crate::topic::ends_with(topic, "/press/set"@))
        }),
{
    reveal_strlit("/display/set");
    reveal_strlit("/pump/set");
    let base = crate::topic::base_topic(config);
    let n = base.len() as int;
    assert((base + "/display/set"@)[n + 1] == 'd');
    assert((base + "/pump/set"@)[n + 1] == 'p');
}

/// How a broker is reached: under the controller's own name, with the configured credentials and
/// a testament that the controller is gone, which the broker keeps.
pub proof fn law_connection_follows_the_configuration(
    config: Config,
    stored: Option<String>,
    result: Result<Connection, ConnectionError>,
)
    requires
        call_ensures(options, (&config, &stored), result),
    ensures
        result is Ok <==> config.mqtt is Some && (config.mqtt->Some_0.password_file is Some
            ==> config.mqtt->Some_0.username is Some && stored is Some),
        config.mqtt is None ==> result matches Err(ConnectionError::NotConfigured),
        result matches Ok(connection) ==> {
            let mqtt = config.mqtt->Some_0;
            &&& connection.client_id@ == "growhat_"@ + config.device_id@
            &&& connection.host@ == mqtt.host@
            &&& connection.port == mqtt.port
            &&& connection.keep_alive_seconds == 5
            &&& connection.clean_session
            &&& connection.last_will@.topic == mqtt.topic_prefix@ + "/"@ + config.device_id@
                + "/availability"@
            &&& crate::discovery::spells(connection.last_will@.body, "offline"@)
            &&& connection.last_will@.retain
            &&& connection.credentials is Some <==> mqtt.username is Some
            &&& connection.credentials is Some ==> connection.credentials->Some_0.0@
                == mqtt.username->Some_0@
            &&& connection.credentials is Some && mqtt.password_file is None
                ==> connection.credentials->Some_0.1@.len() == 0
            &&& connection.credentials is Some && mqtt.password_file is Some
                ==> crate::request::holds_token(
                stored->Some_0@,
                connection.credentials->Some_0.1@,
            )
        },
{
    if let Ok(connection) = result {
        crate::discovery::law_availability_is_told_in_words(connection.last_will@.body);
        if connection.credentials is Some && config.mqtt->Some_0.password_file is Some {
            crate::request::lemma_without_line_end(
                stored->Some_0@,
                connection.credentials->Some_0.1@,
            );
        }
    }
}

/// A reading goes to the topic of its own channel, as it is.
pub proof fn law_readings_go_to_their_channel(config: Config, readings: Seq<ReadingView>, i: int)
    requires
        0 <= i < readings.len(),
    ensures
        readings_out(config, readings).len() == readings.len(),
        readings_out(config, readings)[i].0 == config.mqtt->Some_0.topic_prefix@ + "/"@
            + config.device_id@ + "/"@ + crate::text::decimal(readings[i].channel as nat)
            + "/state"@,
        readings_out(config, readings)[i].1 == readings[i],
{
}

/// The state of one of the four buttons goes to the topic of that button, as it is; of any other
/// name nothing is sent.
pub proof fn law_button_states_go_to_their_button(config: Config, event: EventView)
    ensures
        button_out(config, event) is Some <==> event.button == "A"@ || event.button == "B"@
            || event.button == "X"@ || event.button == "Y"@,
        button_out(config, event) matches Some(step) ==> step.1 == event && step.0
            == config.mqtt->Some_0.topic_prefix@ + "/"@ + config.device_id@ + "/buttons/"@
            + event.button + "/state"@,
{
}

/// All that is known is told at once: the announcements, a reading for every channel and the
/// state of every button. What is told of the readings alone is that and no more.
pub proof fn law_full_plan_tells_everything(
    config: Config,
    readings: Seq<ReadingView>,
    board: Seq<EventView>,
    i: int,
)
    requires
        0 <= i < board.len(),
    ensures
        ({
            let full = full_plan(config, readings, board);
            let some = reading_view_plan(config, readings);
            &&& full.messages == crate::discovery::announcement_messages(config)
            &&& full.readings == readings_out(config, readings)
            &&& full.health == crate::batch::health_of(readings)
            &&& full.buttons.len() == board.len()
            &&& full.buttons[i] == button_out(config, board[i])
            &&& full.subscriptions.len() == 0
            &&& some.readings == full.readings
            &&& some.health == full.health
            &&& some.messages.len() == 0
            &&& some.buttons.len() == 0
            &&& some.subscriptions.len() == 0
        }),
{
}

/// The state of a button is sent as it comes in, where there is a connection and a panel, and
/// remembered for later where there is a panel; without a panel it is neither. Nothing else of
/// the conversation changes.
pub proof fn law_button_states_are_sent_and_remembered(
    session: SessionView,
    config: Config,
    event: EventView,
)
    requires
        crate::board::in_name_order(session.board),
    ensures
        ({
            let after = after_button(session, config, Some(event));
            let plan = button_view_plan(session, config, Some(event));
            &&& after.connected == session.connected
            &&& after.last_health == session.last_health
            &&& after.events_open == session.events_open
            &&& config.panel_enabled ==> crate::board::state_of(after.board, event.button) == Some(
                event,
            )
            &&& !config.panel_enabled ==> after.board == session.board
            &&& plan.buttons == if config.panel_enabled && session.connected {
                seq![button_out(config, event)]
            } else {
                Seq::empty()
            }
            &&& plan.messages.len() == 0 && plan.readings.len() == 0
        }),
        !after_button(session, config, None).events_open,
        after_button(session, config, None).board == session.board,
        button_view_plan(session, config, None).buttons.len() == 0,
{
    crate::board::law_latest_state_remains(session.board, event, event.button);
}

/// Connecting keeps what is known of the buttons and of the readings that were sent.
pub proof fn law_connecting_loses_nothing(
    session: SessionView,
    config: Config,
    backlog: Seq<EventView>,
    backlog_open: bool,
)
    ensures
        ({
            let after = after_connect(session, config, backlog, backlog_open);
            &&& after.connected
            &&& after.last_health == session.last_health
            &&& !config.panel_enabled ==> after.board == session.board && after.events_open
                == session.events_open
            &&& config.panel_enabled ==> after.events_open == (session.events_open && backlog_open)
        }),
{
}

/// The readings are sent again exactly when there is a connection and their health is not what
/// was last sent; and leaving on purpose is told exactly over a connection, as being gone.
pub proof fn law_changes_of_health_are_sent(
    session: Session,
    config: Config,
    batch: Batch,
    now_ns: u128,
    plan: Option<Plan>,
    farewell: Option<Message>,
)
    requires
        config.mqtt is Some,
        call_ensures(Session::tick, (&session, &config, &batch, now_ns), plan),
        call_ensures(Session::farewell, (&session, &config), farewell),
    ensures
        ({
            let readings = crate::batch::current(batch, now_ns, config.stale_after_ms);
            &&& plan is Some <==> session.connected && crate::batch::health_of(readings)
                != session.last_health@
            &&& plan matches Some(plan) ==> plan@.readings == readings_out(config, readings)
                && plan.health@ == crate::batch::health_of(readings) && plan.messages@.len() == 0
                && plan.subscriptions@.len() == 0
        }),
        farewell is Some <==> session.connected,
        farewell matches Some(message) ==> message.topic@ == config.mqtt->Some_0.topic_prefix@
            + "/"@ + config.device_id@ + "/availability"@ && crate::discovery::spells(
            message.body@,
            "offline"@,
        ) && message.retain,
{
    if let Some(plan) = plan {
        assert(plan@.messages.len() == plan.messages@.len());
        assert(plan@.subscriptions.len() == plan.subscriptions@.len());
    }
    if let Some(message) = farewell {
        crate::discovery::law_availability_is_told_in_words(message.body@);
        assert(message@.retain == message.retain);
    }
}

/// All that is known, told anew: the announcements, the readings as they are at the time, and the
/// states of the buttons on the board, in their order.
pub proof fn law_refresh_tells_all_that_is_known(
    session: Session,
    config: Config,
    batch: Batch,
    now_ns: u128,
    plan: Plan,
)
    requires
        config.mqtt is Some,
        call_ensures(Session::refresh, (&session, &config, &batch, now_ns), plan),
    ensures
        ({
            let readings = crate::batch::current(batch, now_ns, config.stale_after_ms);
            &&& plan@.messages == crate::discovery::announcement_messages(config)
            &&& plan@.readings == readings_out(config, readings)
            &&& plan@.buttons == buttons_out(config, session.board@)
            &&& plan@.health == crate::batch::health_of(readings)
            &&& plan@.subscriptions.len() == 0
        }),
{
}

/// What is measured and what is pressed is told as it passes: such messages go to the topic of
/// their step, hold what was written down, and are neither kept nor repeated.
pub proof fn law_states_pass(
    reading: ReadingStep,
    button: ButtonStep,
    body: Vec<u8>,
    reading_sent: Message,
    button_sent: Message,
)
    requires
        call_ensures(ReadingStep::message, (reading, body), reading_sent),
        call_ensures(ButtonStep::message, (button, body), button_sent),
    ensures
        reading_sent.topic@ == reading.topic@ && reading_sent.body@ == body@,
        button_sent.topic@ == button.topic@ && button_sent.body@ == body@,
        !reading_sent.retain && !button_sent.retain,
        reading_sent.delivery is AtMostOnce && button_sent.delivery is AtMostOnce,
{
    assert(reading_sent@.retain == reading_sent.retain);
    assert(button_sent@.retain == button_sent.retain);
}

/// A conversation begins without a connection, without anything sent and without the state of a
/// button, and states can come in.
pub proof fn law_conversation_begins_empty(session: Session)
    requires
        call_ensures(Session::new, (), session),
    ensures
        !session.connected,
        session.last_health@.len() == 0,
        session.board@.len() == 0,
        session.events_open,
{
    assert(session@.connected == session.connected);
}

/// What is read when the broker cannot be used.
pub proof fn law_words_for_an_unusable_broker()
    ensures
        connection_message(ConnectionError::NotConfigured)
            == "run requires an [mqtt] section; use diagnose for readings without MQTT"@,
        connection_message(ConnectionError::PasswordUnreadable)
            == "cannot read MQTT password_file; check its path and permissions"@,
        connection_message(ConnectionError::PasswordWithoutUsername)
            == "MQTT password_file requires username"@,
{
}

/// A controller that has connected listens for its requests and tells all that it knows.
pub proof fn law_connecting_subscribes_and_tells_everything(
    config: Config,
    readings: Seq<ReadingView>,
    board: Seq<EventView>,
    i: int,
)
    requires
        0 <= i < board.len(),
    ensures
        ({
            let plan = first_plan(config, readings, board);
            let base = config.mqtt->Some_0.topic_prefix@ + "/"@ + config.device_id@;
            &&& plan.subscriptions.len() == 4
            &&& plan.subscriptions.contains(
                config.mqtt->Some_0.discovery_prefix@ + "/status"@,
            )
            &&& plan.subscriptions.contains(base + "/display/set"@)
            &&& plan.subscriptions.contains(base + "/pump/set"@)
            &&& plan.subscriptions.contains(base + "/buttons/+/press/set"@)
            &&& plan.messages == crate::discovery::announcement_messages(config)
            &&& plan.readings == readings_out(config, readings)
            &&& plan.health == crate::batch::health_of(readings)
            &&& plan.buttons.len() == board.len()
            &&& plan.buttons[i] == button_out(config, board[i])
        }),
{
    let topics = first_plan(config, readings, board).subscriptions;
    assert(topics[0] == config.mqtt->Some_0.discovery_prefix@ + "/status"@);
    assert(topics[1] == crate::topic::base_topic(config) + "/display/set"@);
    assert(topics[2] == crate::topic::base_topic(config) + "/pump/set"@);
    assert(topics[3] == crate::topic::base_topic(config) + "/buttons/+/press/set"@);
}

/// An outage forgets what was sent and no more: the states of the buttons stay known.
pub proof fn law_outage_keeps_the_button_states(session: SessionView)
    ensures
        !after_disconnect(session).connected,
        after_disconnect(session).last_health.len() == 0,
        after_disconnect(session).board == session.board,
        after_disconnect(session).events_open == session.events_open,
{
}

} // verus!
