//! One measurement of the moisture inputs, step by step.
use vstd::prelude::*;
use vstd::string::*;

use crate::config::{Config, ConfigError};
use crate::hardware::{sensor_pin, Capture, Edge, ErrorView, PulseRate, MAX_DRAIN_EVENTS};
use crate::hardware::MAX_DRAIN_NS;
use crate::sensor::SensorError;

verus! {

/// Why the inputs cannot be used.
#[derive(Clone, Copy, Debug, PartialEq, Eq, Structural)]
pub enum SourceError {
    Config(ConfigError),
    Unconfirmed,
}

/// The words for unusable inputs.
pub open spec fn source_message(error: SourceError) -> Seq<char> {
    match error {
        SourceError::Config(error) => crate::config::config_message(error),
        SourceError::Unconfirmed =>
            "hardware backend and explicit hardware confirmation required"@,
    }
}

impl SourceError {
    /// The words for unusable inputs.
    pub fn message(&self) -> (text: String)
        ensures
            text@ == source_message(*self),
    {
        match self {
            SourceError::Config(error) => error.message(),
            SourceError::Unconfirmed =>
                "hardware backend and explicit hardware confirmation required".to_owned(),
        }
    }
}

/// The channels to measure and the line of each.
pub struct SensorLines {
    pub channels: Vec<u8>,
    pub pins: Vec<u32>,
}

/// Why a configuration's inputs cannot be used, if they cannot.
pub open spec fn source_fault(config: Config) -> Option<SourceError> {
    match crate::config::config_fault(config) {
        Some(error) => Some(SourceError::Config(error)),
        None => if crate::config::confirmed_hardware(config) {
            None
        } else {
            Some(SourceError::Unconfirmed)
        },
    }
}

/// The channels of a configuration's sensors.
pub open spec fn channels_of(config: Config) -> Seq<u8> {
    config.sensors@.map_values(|sensor: crate::config::SensorConfig| sensor.channel)
}

/// The lines of some channels.
pub open spec fn pins_of(channels: Seq<u8>) -> Seq<u32> {
    channels.map_values(|channel: u8| crate::hardware::pin_of_sensor(channel))
}

/// The lines to watch for a configuration: those of its sensors, in their order.
pub fn sensor_lines(config: &Config) -> (result: Result<SensorLines, SourceError>)
    ensures
        match result {
            Ok(lines) => {
                &&& source_fault(*config) is None
                &&& lines.channels@ == channels_of(*config)
                &&& lines.pins@ == pins_of(channels_of(*config))
                &&& crate::config::distinct_board_channels(lines.channels@)
            },
            Err(error) => source_fault(*config) == Some(error),
        },
{
    match config.validate() {
        Ok(_) => {},
        Err(error) => return Err(SourceError::Config(error)),
    }
    if !config.has_confirmed_hardware() {
        return Err(SourceError::Unconfirmed);
    }
    proof {
        crate::config::law_accepted_configuration(*config);
    }
    let mut channels: Vec<u8> = Vec::new();
    let mut pins: Vec<u32> = Vec::new();
    let mut i: usize = 0;
    while i < config.sensors.len()
        invariant
            i <= config.sensors@.len(),
            forall|j: int|
                0 <= j < config.sensors@.len() ==> crate::config::board_channel(
                    (#[trigger] config.sensors@[j]).channel,
                ),
            channels@ == channels_of(*config).take(i as int),
            pins@ == pins_of(channels_of(*config)).take(i as int),
        decreases config.sensors.len() - i,
    {
        let channel: u8 = config.sensors[i].channel;
        assert(crate::config::board_channel(config.sensors@[i as int].channel));
        channels.push(channel);
        pins.push(sensor_pin(channel));
        assert(channels@ =~= channels_of(*config).take(i + 1));
        assert(pins@ =~= pins_of(channels_of(*config)).take(i + 1));
        i += 1;
    }
    assert(channels@ =~= channels_of(*config));
    assert(pins@ =~= pins_of(channels_of(*config)));
    Ok(SensorLines { channels, pins })
}

/// A time of the monotonic clock in nanoseconds, where it fits.
pub open spec fn nanoseconds(seconds: i64, nanos: i64) -> Option<u64> {
    if seconds >= 0 && nanos >= 0 && seconds * 1_000_000_000 + nanos <= u64::MAX {
        Some((seconds * 1_000_000_000 + nanos) as u64)
    } else {
        None
    }
}

/// A time of the monotonic clock in nanoseconds, where it fits.
pub fn monotonic_ns(seconds: i64, nanos: i64) -> (ns: Option<u64>)
    ensures
        ns == nanoseconds(seconds, nanos),
{
    if seconds < 0 || nanos < 0 {
        return None;
    }
    let total: u128 = (seconds as u128) * 1_000_000_000 + nanos as u128;
    if total <= u64::MAX as u128 {
        Some(total as u64)
    } else {
        None
    }
}

/// One channel's rate, or why it has none.
pub type RateSample = (u8, Result<PulseRate, SensorError>);

/// One channel's rate, or why it has none, in characters.
pub type RateSampleView = (u8, Result<PulseRate, ErrorView>);

/// The views of some channels' rates.
pub open spec fn sample_views(samples: Seq<RateSample>) -> Seq<RateSampleView> {
    samples.map_values(
        |sample: RateSample| (sample.0, crate::hardware::rate_view(sample.1)),
    )
}

/// One and the same failure on every channel.
pub open spec fn failures(channels: Seq<u8>, words: Seq<char>) -> Seq<RateSampleView> {
    channels.map_values(
        |channel: u8| (channel, Err::<PulseRate, ErrorView>(ErrorView::Other(words))),
    )
}

/// Whether every channel has a rate or a reason for having none.
pub open spec fn rates_defined(channels: Seq<u8>, capture: Capture) -> bool {
    forall|i: int|
        0 <= i < channels.len() ==> crate::hardware::measurable(
            crate::hardware::pulses_on(capture, #[trigger] channels[i]),
            capture.overflow,
        )
}

/// The rates of the channels of a capture.
pub open spec fn rates(channels: Seq<u8>, capture: Capture) -> Seq<RateSampleView> {
    channels.map_values(
        |channel: u8|
            (
                channel,
                crate::hardware::rate_of(
                    crate::hardware::pulses_on(capture, channel),
                    capture.overflow,
                ),
            ),
    )
}

/// One and the same failure on every channel.
pub fn error_samples(channels: &Vec<u8>, words: &str) -> (samples: Vec<RateSample>)
    ensures
        sample_views(samples@) == failures(channels@, words@),
{
    let mut samples: Vec<RateSample> = Vec::new();
    let mut i: usize = 0;
    while i < channels.len()
        invariant
            i <= channels@.len(),
            sample_views(samples@) == failures(channels@, words@).take(i as int),
        decreases channels.len() - i,
    {
        let ghost before = samples@;
        samples.push((channels[i], Err(SensorError::Other(words.to_owned()))));
        assert(sample_views(samples@) =~= sample_views(before).push(
            failures(channels@, words@)[i as int],
        ));
        assert(failures(channels@, words@).take(i + 1) =~= failures(channels@, words@).take(
            i as int,
        ).push(failures(channels@, words@)[i as int]));
        i += 1;
    }
    assert(failures(channels@, words@).take(i as int) =~= failures(channels@, words@));
    samples
}

fn can_rate_all(channels: &Vec<u8>, capture: &Capture) -> (yes: bool)
    requires
        crate::config::distinct_board_channels(channels@),
    ensures
        yes == rates_defined(channels@, *capture),
{
    let mut i: usize = 0;
    while i < channels.len()
        invariant
            crate::config::distinct_board_channels(channels@),
            i <= channels@.len(),
            forall|j: int|
                0 <= j < i ==> crate::hardware::measurable(
                    crate::hardware::pulses_on(*capture, #[trigger] channels@[j]),
                    capture.overflow,
                ),
        decreases channels.len() - i,
    {
        assert(crate::config::board_channel(channels@[i as int]));
        if !capture.can_rate(channels[i]) {
            return false;
        }
        i += 1;
    }
    true
}

fn rate_samples(channels: &Vec<u8>, capture: &Capture) -> (samples: Vec<RateSample>)
    requires
        crate::config::distinct_board_channels(channels@),
        rates_defined(channels@, *capture),
    ensures
        sample_views(samples@) == rates(channels@, *capture),
{
    let mut samples: Vec<RateSample> = Vec::new();
    let mut i: usize = 0;
    while i < channels.len()
        invariant
            crate::config::distinct_board_channels(channels@),
            rates_defined(channels@, *capture),
            i <= channels@.len(),
            sample_views(samples@) == rates(channels@, *capture).take(i as int),
        decreases channels.len() - i,
    {
        let ghost before = samples@;
        let channel: u8 = channels[i];
        assert(crate::config::board_channel(channels@[i as int]));
        samples.push((channel, capture.rate(channel)));
        assert(sample_views(samples@) =~= sample_views(before).push(
            rates(channels@, *capture)[i as int],
        ));
        assert(rates(channels@, *capture).take(i + 1) =~= rates(channels@, *capture).take(
            i as int,
        ).push(rates(channels@, *capture)[i as int]));
        i += 1;
    }
    assert(rates(channels@, *capture).take(i as int) =~= rates(channels@, *capture));
    samples
}

/// What a measurement waits for.
pub enum Stage {
    /// How long the drain has taken so far.
    DrainTime { events: u64 },
    /// Whether an old edge is pending.
    DrainReady { events: u64 },
    /// The pending old edge.
    DrainEdge { events: u64 },
    /// The monotonic clock.
    Clock,
    /// How long the window has been open.
    CollectTime { capture: Capture },
    /// Whether an edge comes within a time.
    CollectReady { capture: Capture, wait_ns: u128 },
    /// The edge that came.
    CollectEdge { capture: Capture },
    /// Nothing more.
    Done { samples: Vec<RateSample> },
}

/// What a measurement waits for, with its result in characters.
pub enum StageView {
    DrainTime(u64),
    DrainReady(u64),
    DrainEdge(u64),
    Clock,
    CollectTime(Capture),
    CollectReady(Capture, u128),
    CollectEdge(Capture),
    Done(Seq<RateSampleView>),
}

impl View for Stage {
    type V = StageView;

    open spec fn view(&self) -> StageView {
        match *self {
            Stage::DrainTime { events } => StageView::DrainTime(events),
            Stage::DrainReady { events } => StageView::DrainReady(events),
            Stage::DrainEdge { events } => StageView::DrainEdge(events),
            Stage::Clock => StageView::Clock,
            Stage::CollectTime { capture } => StageView::CollectTime(capture),
            Stage::CollectReady { capture, wait_ns } => StageView::CollectReady(capture, wait_ns),
            Stage::CollectEdge { capture } => StageView::CollectEdge(capture),
            Stage::Done { samples } => StageView::Done(sample_views(samples@)),
        }
    }
}

/// What a measurement is told.
pub enum Observation {
    /// Nanoseconds since the drain began, or since the window was opened.
    Elapsed(u128),
    /// Whether an edge is there, or why that cannot be told.
    Ready(Result<bool, String>),
    /// An edge, or why it cannot be read.
    Edge(Result<Edge, String>),
    /// Seconds and nanoseconds of the monotonic clock, or why it cannot be read.
    Clock(Result<(i64, i64), String>),
}

/// A measurement: its channels, the length of its window and what it waits for.
pub struct Measurement {
    channels: Vec<u8>,
    window_ms: u64,
    stage: Stage,
}

/// A measurement: its channels, the length of its window and what it waits for.
pub struct MeasurementView {
    pub channels: Seq<u8>,
    pub window_ms: u64,
    pub stage: StageView,
}

impl View for Measurement {
    type V = MeasurementView;

    closed spec fn view(&self) -> MeasurementView {
        MeasurementView {
            channels: self.channels@,
            window_ms: self.window_ms,
            stage: self.stage@,
        }
    }
}

/// The end of a window that begins at a time.
pub open spec fn window_end(start_ns: u64, window_ms: u64) -> u64 {
    if start_ns + window_ms * 1_000_000 <= u64::MAX {
        (start_ns + window_ms * 1_000_000) as u64
    } else {
        u64::MAX
    }
}

/// What a measurement waits for after an observation. One that is not waited for changes
/// nothing, and the first failure ends the measurement with that failure on every channel.
pub open spec fn next_stage(measurement: MeasurementView, observation: Observation) -> StageView {
    let channels = measurement.channels;
    match (measurement.stage, observation) {
        (StageView::DrainTime(events), Observation::Elapsed(elapsed)) => if events
            >= MAX_DRAIN_EVENTS {
            StageView::Done(failures(channels, "GPIO old-event drain exceeded 4096 events"@))
        } else if elapsed >= MAX_DRAIN_NS {
            StageView::Done(failures(channels, "GPIO old-event drain exceeded 100 ms"@))
        } else {
            StageView::DrainReady(events)
        },
        (StageView::DrainReady(events), Observation::Ready(ready)) => match ready {
            Ok(pending) => if pending {
                StageView::DrainEdge(events)
            } else {
                StageView::Clock
            },
            Err(words) => StageView::Done(
                failures(channels, "GPIO old-event drain failed: "@ + words@),
            ),
        },
        (StageView::DrainEdge(events), Observation::Edge(edge)) => match edge {
            Ok(_) => StageView::DrainTime((events + 1) as u64),
            Err(words) => StageView::Done(
                failures(channels, "GPIO old-event drain failed: "@ + words@),
            ),
        },
        (StageView::Clock, Observation::Clock(time)) => match time {
            Ok((seconds, nanos)) => match nanoseconds(seconds, nanos) {
                Some(start_ns) => StageView::CollectTime(
                    crate::hardware::opened(start_ns, window_end(start_ns, measurement.window_ms)),
                ),
                None => StageView::Done(
                    failures(channels, "invalid CLOCK_MONOTONIC timestamp"@),
                ),
            },
            Err(words) => StageView::Done(
                failures(channels, "CLOCK_MONOTONIC failed: "@ + words@),
            ),
        },
        (StageView::CollectTime(capture), Observation::Elapsed(elapsed)) => if elapsed
            >= measurement.window_ms * 1_000_000 {
            StageView::Done(rates(channels, capture))
        } else {
            StageView::CollectReady(
                capture,
                (measurement.window_ms * 1_000_000 - elapsed) as u128,
            )
        },
        (StageView::CollectReady(capture, _), Observation::Ready(ready)) => match ready {
            Ok(came) => if came {
                StageView::CollectEdge(capture)
            } else {
                StageView::Done(rates(channels, capture))
            },
            Err(words) => StageView::Done(failures(channels, "GPIO edge read failed: "@ + words@)),
        },
        (StageView::CollectEdge(capture), Observation::Edge(edge)) => match edge {
            Ok(edge) => StageView::CollectTime(crate::hardware::recorded(capture, edge)),
            Err(words) => StageView::Done(failures(channels, "GPIO edge read failed: "@ + words@)),
        },
        (stage, _) => stage,
    }
}

/// A measurement after an observation.
pub open spec fn observed(
    measurement: MeasurementView,
    observation: Observation,
) -> MeasurementView {
    MeasurementView { stage: next_stage(measurement, observation), ..measurement }
}

/// Whether a measurement can take an observation: an edge in the window can still be counted,
/// and where the window ends, no channel that gives a rate has its last edge before its first.
pub open spec fn accepts(measurement: MeasurementView, observation: Observation) -> bool {
    match (measurement.stage, observation) {
        (StageView::CollectEdge(capture), Observation::Edge(Ok(edge))) => crate::hardware::admits(
            capture,
            edge,
        ),
        (StageView::CollectTime(capture), Observation::Elapsed(elapsed)) => elapsed
            >= measurement.window_ms * 1_000_000 ==> rates_defined(measurement.channels, capture),
        (StageView::CollectReady(capture, _), Observation::Ready(Ok(came))) => !came
            ==> rates_defined(measurement.channels, capture),
        _ => true,
    }
}

/// Whether a measurement stands in a state that can come up.
pub open spec fn proper(measurement: MeasurementView) -> bool {
    &&& crate::config::distinct_board_channels(measurement.channels)
    &&& match measurement.stage {
        StageView::DrainTime(events) => events <= MAX_DRAIN_EVENTS,
        StageView::DrainReady(events) => events < MAX_DRAIN_EVENTS,
        StageView::DrainEdge(events) => events < MAX_DRAIN_EVENTS,
        StageView::CollectTime(capture) => crate::hardware::consistent_capture(capture),
        StageView::CollectReady(capture, _) => crate::hardware::consistent_capture(capture),
        StageView::CollectEdge(capture) => crate::hardware::consistent_capture(capture),
        _ => true,
    }
}

impl Measurement {
    /// A measurement of some channels, about to begin.
    pub fn begin(channels: Vec<u8>, window_ms: u64) -> (measurement: Measurement)
        requires
            crate::config::distinct_board_channels(channels@),
        ensures
            measurement@ == (MeasurementView {
                channels: channels@,
                window_ms,
                stage: StageView::DrainTime(0),
            }),
            proper(measurement@),
    {
        Measurement { channels, window_ms, stage: Stage::DrainTime { events: 0 } }
    }

    /// What the measurement waits for.
    pub fn stage(&self) -> (stage: &Stage)
        ensures
            stage@ == self@.stage,
    {
        &self.stage
    }

    /// Whether the measurement can take an observation.
    pub fn can_observe(&self, observation: &Observation) -> (yes: bool)
        requires
            proper(self@),
        ensures
            yes == accepts(self@, *observation),
    {
        match (&self.stage, observation) {
            (Stage::CollectEdge { capture }, Observation::Edge(Ok(edge))) => capture.can_record(
                edge,
            ),
            (Stage::CollectTime { capture }, Observation::Elapsed(elapsed)) => *elapsed < (
            self.window_ms as u128) * 1_000_000 || can_rate_all(&self.channels, capture),
            (Stage::CollectReady { capture, .. }, Observation::Ready(Ok(came))) => *came
                || can_rate_all(&self.channels, capture),
            _ => true,
        }
    }

    fn failed(&self, words: &str) -> (stage: Stage)
        ensures
            stage@ == StageView::Done(failures(self@.channels, words@)),
    {
        Stage::Done { samples: error_samples(&self.channels, words) }
    }

    fn failed_because(&self, what: &str, words: &String) -> (stage: Stage)
        ensures
            stage@ == StageView::Done(failures(self@.channels, what@ + words@)),
    {
        let text = crate::text::after_each_other(what, words.as_str());
        self.failed(text.as_str())
    }

    fn measured(&self, capture: &Capture) -> (stage: Stage)
        requires
            crate::config::distinct_board_channels(self@.channels),
            rates_defined(self@.channels, *capture),
        ensures
            stage@ == StageView::Done(rates(self@.channels, *capture)),
    {
        Stage::Done { samples: rate_samples(&self.channels, capture) }
    }

    fn window_opened(&self, seconds: i64, nanos: i64) -> (stage: Stage)
        ensures
            stage@ == next_stage(
                MeasurementView { stage: StageView::Clock, ..self@ },
                Observation::Clock(Ok((seconds, nanos))),
            ),
            stage@ matches StageView::CollectTime(capture) ==> crate::hardware::consistent_capture(
                capture,
            ),
    {
        match monotonic_ns(seconds, nanos) {
            Some(start_ns) => {
                let window_ns: u128 = (self.window_ms as u128) * 1_000_000;
                let end: u128 = start_ns as u128 + window_ns;
                let end_ns: u64 = if end <= u64::MAX as u128 {
                    end as u64
                } else {
                    u64::MAX
                };
                Stage::CollectTime { capture: Capture::open(start_ns, end_ns) }
            },
            None => self.failed("invalid CLOCK_MONOTONIC timestamp"),
        }
    }

    fn drained_for(&self, events: u64, elapsed: u128) -> (stage: Stage)
        ensures
            stage@ == next_stage(
                MeasurementView { stage: StageView::DrainTime(events), ..self@ },
                Observation::Elapsed(elapsed),
            ),
    {
        if events >= MAX_DRAIN_EVENTS {
            self.failed("GPIO old-event drain exceeded 4096 events")
        } else if elapsed >= MAX_DRAIN_NS {
            self.failed("GPIO old-event drain exceeded 100 ms")
        } else {
            Stage::DrainReady { events }
        }
    }

    fn open_for(&self, capture: &Capture, elapsed: u128) -> (stage: Stage)
        requires
            crate::config::distinct_board_channels(self@.channels),
            elapsed >= self@.window_ms * 1_000_000 ==> rates_defined(self@.channels, *capture),
        ensures
            stage@ == next_stage(
                MeasurementView { stage: StageView::CollectTime(*capture), ..self@ },
                Observation::Elapsed(elapsed),
            ),
    {
        let window_ns: u128 = (self.window_ms as u128) * 1_000_000;
        if elapsed >= window_ns {
            self.measured(capture)
        } else {
            Stage::CollectReady { capture: *capture, wait_ns: window_ns - elapsed }
        }
    }

    /// Takes the measurement past an observation.
    pub fn observe(&mut self, observation: Observation)
        requires
            proper(old(self)@),
            accepts(old(self)@, observation),
        ensures
            final(self)@ == observed(old(self)@, observation),
            proper(final(self)@),
    {
        let next: Option<Stage> = match (&self.stage, &observation) {
            (Stage::DrainTime { events }, Observation::Elapsed(elapsed)) => Some(
                self.drained_for(*events, *elapsed),
            ),
            (Stage::DrainReady { events }, Observation::Ready(ready)) => match ready {
                Ok(pending) => if *pending {
                    Some(Stage::DrainEdge { events: *events })
                } else {
                    Some(Stage::Clock)
                },
                Err(words) => Some(self.failed_because("GPIO old-event drain failed: ", words)),
            },
            (Stage::DrainEdge { events }, Observation::Edge(edge)) => match edge {
                Ok(_) => Some(Stage::DrainTime { events: *events + 1 }),
                Err(words) => Some(self.failed_because("GPIO old-event drain failed: ", words)),
            },
            (Stage::Clock, Observation::Clock(time)) => match time {
                Ok((seconds, nanos)) => Some(self.window_opened(*seconds, *nanos)),
                Err(words) => Some(self.failed_because("CLOCK_MONOTONIC failed: ", words)),
            },
            (Stage::CollectTime { capture }, Observation::Elapsed(elapsed)) => Some(
                self.open_for(capture, *elapsed),
            ),
            (Stage::CollectReady { capture, .. }, Observation::Ready(ready)) => match ready {
                Ok(came) => if *came {
                    Some(Stage::CollectEdge { capture: *capture })
                } else {
                    Some(self.measured(capture))
                },
                Err(words) => Some(self.failed_because("GPIO edge read failed: ", words)),
            },
            (Stage::CollectEdge { capture }, Observation::Edge(edge)) => match edge {
                Ok(edge) => {
                    let mut next = *capture;
                    next.record(edge);
                    Some(Stage::CollectTime { capture: next })
                },
                Err(words) => Some(self.failed_because("GPIO edge read failed: ", words)),
            },
            _ => None,
        };
        if let Some(stage) = next {
            self.stage = stage;
        }
    }

    /// The samples of a finished measurement.
    pub fn into_samples(self) -> (samples: Option<Vec<RateSample>>)
        ensures
            match samples {
                Some(samples) => self@.stage == StageView::Done(sample_views(samples@)),
                None => self@.stage !is Done,
            },
    {
        match self.stage {
            Stage::Done { samples } => Some(samples),
            _ => None,
        }
    }
}

/// A measurement after several observations.
pub open spec fn observed_all(
    measurement: MeasurementView,
    observations: Seq<Observation>,
) -> MeasurementView
    decreases observations.len(),
{
    if observations.len() == 0 {
        measurement
    } else {
        observed(observed_all(measurement, observations.drop_last()), observations.last())
    }
}

/// How many old edges were drained in the course of several observations.
pub open spec fn drained_in(measurement: MeasurementView, observations: Seq<Observation>) -> nat
    decreases observations.len(),
{
    if observations.len() == 0 {
        0
    } else {
        drained_in(measurement, observations.drop_last()) + if observed_all(
            measurement,
            observations.drop_last(),
        ).stage is DrainEdge && observations.last() is Edge {
            1
        } else {
            0nat
        }
    }
}

/// A drain takes a bounded number of old edges, whatever the inputs do.
pub proof fn law_drain_is_bounded(measurement: MeasurementView, observations: Seq<Observation>)
    requires
        measurement.stage == StageView::DrainTime(0),
    ensures
        drained_in(measurement, observations) <= MAX_DRAIN_EVENTS,
        ({
            let stage = observed_all(measurement, observations).stage;
            &&& stage matches StageView::DrainTime(events) ==> events == drained_in(
                measurement,
                observations,
            )
            &&& stage matches StageView::DrainReady(events) ==> events == drained_in(
                measurement,
                observations,
            ) && events < MAX_DRAIN_EVENTS
            &&& stage matches StageView::DrainEdge(events) ==> events == drained_in(
                measurement,
                observations,
            ) && events < MAX_DRAIN_EVENTS
        }),
    decreases observations.len(),
{
    if observations.len() > 0 {
        law_drain_is_bounded(measurement, observations.drop_last());
    }
}

/// Whatever the outcome, a finished measurement reports every channel once, in order.
pub proof fn law_every_channel_is_reported(
    measurement: MeasurementView,
    observations: Seq<Observation>,
)
    requires
        measurement.stage !is Done,
    ensures
        observed_all(measurement, observations).channels == measurement.channels,
        observed_all(measurement, observations).stage matches StageView::Done(samples) ==> {
            &&& samples.len() == measurement.channels.len()
            &&& forall|i: int|
                0 <= i < samples.len() ==> (#[trigger] samples[i]).0 == measurement.channels[i]
        },
    decreases observations.len(),
{
    if observations.len() > 0 {
        law_every_channel_is_reported(measurement, observations.drop_last());
    }
}

/// A finished measurement stays as it ended.
pub proof fn law_finished_measurement_stays(
    measurement: MeasurementView,
    observations: Seq<Observation>,
)
    requires
        measurement.stage is Done,
    ensures
        observed_all(measurement, observations) == measurement,
    decreases observations.len(),
{
    if observations.len() > 0 {
        law_finished_measurement_stays(measurement, observations.drop_last());
    }
}

/// An edge that was missed within the window leaves no channel with a frequency.
pub proof fn law_missed_edges_spoil_every_channel(channels: Seq<u8>, capture: Capture, i: int)
    requires
        capture.overflow,
        0 <= i < channels.len(),
    ensures
        rates(channels, capture)[i].1 is Err,
{
}

/// What a window tells of a channel once it has ended: with a gap in the sequence numbers
/// nothing on any channel, and otherwise the rate of the edges of the channel's own line that
/// lie in the window, whatever their order, or that there were none or only one.
pub proof fn law_rate_comes_from_own_edges_in_the_window(
    channels: Seq<u8>,
    start_ns: u64,
    end_ns: u64,
    edges: Seq<Edge>,
    i: int,
)
    requires
        crate::config::distinct_board_channels(channels),
        edges.len() <= u64::MAX,
        0 <= i < channels.len(),
    ensures
        ({
            let capture = crate::hardware::recorded_all(
                crate::hardware::opened(start_ns, end_ns),
                edges,
            );
            let times = crate::hardware::times_on(
                edges,
                crate::hardware::pin_of_sensor(channels[i]),
                start_ns,
                end_ns,
            );
            let told = rates(channels, capture);
            &&& told.len() == channels.len()
            &&& told[i].0 == channels[i]
            &&& capture.overflow ==> told[i].1 is Err && told[i].1->Err_0 is Other
            &&& !capture.overflow && times.len() == 0 ==> told[i].1 == Err::<
                PulseRate,
                ErrorView,
            >(ErrorView::NoPulses)
            &&& !capture.overflow && times.len() == 1 ==> told[i].1 == Err::<
                PulseRate,
                ErrorView,
            >(ErrorView::InsufficientPulses)
            &&& !capture.overflow && times.len() >= 2 && times.first() < times.last()
                ==> told[i].1 == Ok::<PulseRate, ErrorView>(
                PulseRate {
                    pulses: (times.len() - 1) as u64,
                    span_ns: (times.last() - times.first()) as u64,
                },
            )
        }),
{
    assert(crate::config::board_channel(channels[i]));
    crate::hardware::law_only_edges_in_the_window_count(start_ns, end_ns, edges, channels[i]);
}

/// The beginning of the window that was opened in the course of several observations.
pub open spec fn window_start(
    measurement: MeasurementView,
    observations: Seq<Observation>,
) -> Option<u64>
    decreases observations.len(),
{
    if observations.len() == 0 {
        None
    } else {
        match (
            observed_all(measurement, observations.drop_last()).stage,
            observations.last(),
        ) {
            (StageView::Clock, Observation::Clock(Ok((seconds, nanos)))) => nanoseconds(
                seconds,
                nanos,
            ),
            _ => window_start(measurement, observations.drop_last()),
        }
    }
}

/// The edges that were read since the window was opened, in their order.
pub open spec fn edges_in(measurement: MeasurementView, observations: Seq<Observation>) -> Seq<Edge>
    decreases observations.len(),
{
    if observations.len() == 0 {
        Seq::empty()
    } else {
        let earlier = edges_in(measurement, observations.drop_last());
        match (
            observed_all(measurement, observations.drop_last()).stage,
            observations.last(),
        ) {
            (StageView::CollectEdge(_), Observation::Edge(Ok(edge))) => earlier.push(edge),
            _ => earlier,
        }
    }
}

/// What the window of a measurement holds after several observations.
pub open spec fn captured(
    measurement: MeasurementView,
    observations: Seq<Observation>,
) -> Capture {
    let start_ns = window_start(measurement, observations)->Some_0;
    crate::hardware::recorded_all(
        crate::hardware::opened(start_ns, window_end(start_ns, measurement.window_ms)),
        edges_in(measurement, observations),
    )
}

/// Whether every channel fails for an outside reason.
pub open spec fn all_failed(samples: Seq<RateSampleView>) -> bool {
    forall|i: int|
        0 <= i < samples.len() ==> (#[trigger] samples[i]).1 is Err && samples[i].1->Err_0 is Other
}

/// A finished measurement either failed on every channel, or tells the rates of exactly the
/// edges that were read since its window was opened; before the window is opened no edge
/// counts.
pub proof fn law_result_follows_the_observations(
    measurement: MeasurementView,
    observations: Seq<Observation>,
)
    requires
        measurement.stage == StageView::DrainTime(0),
    ensures
        ({
            let after = observed_all(measurement, observations);
            let open = window_start(measurement, observations) is Some;
            let capture = captured(measurement, observations);
            &&& after.channels == measurement.channels
            &&& after.window_ms == measurement.window_ms
            &&& match after.stage {
                StageView::CollectTime(held) => open && held == capture,
                StageView::CollectReady(held, _) => open && held == capture,
                StageView::CollectEdge(held) => open && held == capture,
                StageView::Done(samples) => all_failed(samples) || (open && samples == rates(
                    measurement.channels,
                    capture,
                )),
                _ => !open && edges_in(measurement, observations).len() == 0,
            }
        }),
    decreases observations.len(),
{
    if observations.len() > 0 {
        let earlier = observations.drop_last();
        law_result_follows_the_observations(measurement, earlier);
        let edges = edges_in(measurement, earlier);
        if let Observation::Edge(Ok(edge)) = observations.last() {
            assert(edges.push(edge).drop_last() =~= edges);
        }
    }
}

/// Whether an observation reports no failure: everything could be read, and the clock shows a
/// time that fits.
pub open spec fn reports_no_failure(observation: Observation) -> bool {
    match observation {
        Observation::Elapsed(_) => true,
        Observation::Ready(ready) => ready is Ok,
        Observation::Edge(edge) => edge is Ok,
        Observation::Clock(time) => time is Ok && time->Ok_0.0 >= 0 && time->Ok_0.1 >= 0
            && time->Ok_0.0 * 1_000_000_000 + time->Ok_0.1 <= u64::MAX,
    }
}

/// Whether a measurement goes well: nothing fails, fewer than 4096 old edges are read, and as
/// long as the window is not open, less than 100 milliseconds have passed whenever that is
/// told.
pub open spec fn goes_well(measurement: MeasurementView, observations: Seq<Observation>) -> bool {
    &&& forall|k: int|
        0 <= k < observations.len() ==> reports_no_failure(#[trigger] observations[k])
    &&& forall|k: int|
        0 <= k < observations.len() && window_start(measurement, observations.take(k)) is None ==> (
        #[trigger] observations[k] matches Observation::Elapsed(elapsed) ==> elapsed < 100_000_000)
    &&& drained_in(measurement, observations) < 4096
}

proof fn lemma_went_well_before(measurement: MeasurementView, observations: Seq<Observation>)
    requires
        observations.len() > 0,
        goes_well(measurement, observations),
    ensures
        goes_well(measurement, observations.drop_last()),
{
    let earlier = observations.drop_last();
    assert forall|k: int| 0 <= k < earlier.len() implies reports_no_failure(
        #[trigger] earlier[k],
    ) by {
        assert(reports_no_failure(observations[k]));
    }
    assert forall|k: int|
        0 <= k < earlier.len() && window_start(measurement, earlier.take(k)) is None implies (
    #[trigger] earlier[k] matches Observation::Elapsed(elapsed) ==> elapsed < 100_000_000) by {
        assert(earlier.take(k) =~= observations.take(k));
        assert(earlier[k] == observations[k]);
    }
}

/// A measurement fails only for its reasons: as long as it goes well, it does not end before
/// its window is open, and when it ends it tells the rates of what it captured.
pub proof fn law_measurement_fails_only_for_its_reasons(
    measurement: MeasurementView,
    observations: Seq<Observation>,
)
    requires
        measurement.stage == StageView::DrainTime(0),
        goes_well(measurement, observations),
    ensures
        ({
            let after = observed_all(measurement, observations);
            &&& window_start(measurement, observations) is None ==> after.stage !is Done
            &&& after.stage matches StageView::Done(samples) ==> samples == rates(
                measurement.channels,
                captured(measurement, observations),
            )
        }),
    decreases observations.len(),
{
    law_result_follows_the_observations(measurement, observations);
    if observations.len() > 0 {
        let earlier = observations.drop_last();
        let last = observations.last();
        let before = observed_all(measurement, earlier);
        lemma_went_well_before(measurement, observations);
        law_measurement_fails_only_for_its_reasons(measurement, earlier);
        law_result_follows_the_observations(measurement, earlier);
        law_drain_is_bounded(measurement, earlier);
        let n = observations.len() - 1;
        assert(observations.take(n) =~= earlier);
        assert(reports_no_failure(observations[n]));
        assert(observations[n] == last);
    }
}

/// A drain goes on until no old edge is pending: each edge that is read is followed by another
/// look, and the first time that none is pending the clock is read.
pub proof fn law_drain_ends_when_nothing_is_pending(
    measurement: MeasurementView,
    observations: Seq<Observation>,
    elapsed: u128,
    edge: Edge,
)
    requires
        measurement.stage == StageView::DrainTime(0),
        goes_well(measurement, observations),
        elapsed < 100_000_000,
    ensures
        ({
            let after = observed_all(measurement, observations);
            &&& after.stage is DrainTime ==> observed(
                after,
                Observation::Elapsed(elapsed),
            ).stage is DrainReady
            &&& after.stage is DrainReady ==> observed(
                after,
                Observation::Ready(Ok(false)),
            ).stage is Clock && observed(after, Observation::Ready(Ok(true))).stage is DrainEdge
            &&& after.stage is DrainEdge ==> observed(
                after,
                Observation::Edge(Ok(edge)),
            ).stage is DrainTime
        }),
{
    law_drain_is_bounded(measurement, observations);
}

/// A drain that takes too long fails: after 4096 old edges, or once 100 milliseconds have
/// passed, nothing is measured.
pub proof fn law_long_drain_fails(
    measurement: MeasurementView,
    observations: Seq<Observation>,
    elapsed: u128,
)
    requires
        measurement.stage == StageView::DrainTime(0),
        observed_all(measurement, observations).stage is DrainTime,
        drained_in(measurement, observations) >= 4096 || elapsed >= 100_000_000,
    ensures
        observed(
            observed_all(measurement, observations),
            Observation::Elapsed(elapsed),
        ).stage matches StageView::Done(samples) && all_failed(samples),
{
    law_drain_is_bounded(measurement, observations);
}

/// A failure that is reported where it is waited for ends the measurement, and every channel
/// tells it.
pub proof fn law_reported_failure_ends_the_measurement(
    measurement: MeasurementView,
    words: String,
    i: int,
)
    requires
        0 <= i < measurement.channels.len(),
    ensures
        ({
            let ready = observed(measurement, Observation::Ready(Err(words))).stage;
            let edge = observed(measurement, Observation::Edge(Err(words))).stage;
            let clock = observed(measurement, Observation::Clock(Err(words))).stage;
            &&& measurement.stage is DrainReady ==> ready is Done && ready->Done_0[i].1 == Err::<
                PulseRate,
                ErrorView,
            >(ErrorView::Other("GPIO old-event drain failed: "@ + words@))
            &&& measurement.stage is DrainEdge ==> edge is Done && edge->Done_0[i].1 == Err::<
                PulseRate,
                ErrorView,
            >(ErrorView::Other("GPIO old-event drain failed: "@ + words@))
            &&& measurement.stage is Clock ==> clock is Done && clock->Done_0[i].1 == Err::<
                PulseRate,
                ErrorView,
            >(ErrorView::Other("CLOCK_MONOTONIC failed: "@ + words@))
            &&& measurement.stage is CollectReady ==> ready is Done && ready->Done_0[i].1 == Err::<
                PulseRate,
                ErrorView,
            >(ErrorView::Other("GPIO edge read failed: "@ + words@))
            &&& measurement.stage is CollectEdge ==> edge is Done && edge->Done_0[i].1 == Err::<
                PulseRate,
                ErrorView,
            >(ErrorView::Other("GPIO edge read failed: "@ + words@))
        }),
{
}

/// The window begins at the time that the clock showed and lasts as long as it was asked to:
/// until then edges are waited for, each time for what is left of it, and no longer.
pub proof fn law_window_lasts_its_time(
    measurement: MeasurementView,
    seconds: i64,
    nanos: i64,
    elapsed: u128,
)
    requires
        seconds >= 0,
        nanos >= 0,
        seconds * 1_000_000_000 + nanos + measurement.window_ms * 1_000_000 <= u64::MAX,
    ensures
        ({
            let opened = observed(measurement, Observation::Clock(Ok((seconds, nanos)))).stage;
            let later = observed(measurement, Observation::Elapsed(elapsed)).stage;
            let quiet = observed(measurement, Observation::Ready(Ok(false))).stage;
            let window_ns = measurement.window_ms * 1_000_000;
            &&& measurement.stage is Clock ==> {
                &&& opened is CollectTime
                &&& opened->CollectTime_0.start_ns == seconds * 1_000_000_000 + nanos
                &&& opened->CollectTime_0.end_ns == opened->CollectTime_0.start_ns + window_ns
            }
            &&& measurement.stage is CollectTime && elapsed < window_ns ==> later is CollectReady
                && later->CollectReady_1 == window_ns - elapsed && later->CollectReady_0
                == measurement.stage->CollectTime_0
            &&& measurement.stage is CollectTime && elapsed >= window_ns ==> later is Done
            &&& measurement.stage is CollectReady ==> quiet is Done
        }),
{
}

/// What a measurement that goes well tells of a channel, from the edges that were read in its
/// window. Channels 1, 2 and 3 are the lines 23, 8 and 25.
pub proof fn law_measured_frequency(
    measurement: MeasurementView,
    observations: Seq<Observation>,
    i: int,
)
    requires
        measurement.stage == StageView::DrainTime(0),
        crate::config::distinct_board_channels(measurement.channels),
        goes_well(measurement, observations),
        observed_all(measurement, observations).stage is Done,
        edges_in(measurement, observations).len() <= u64::MAX,
        window_start(measurement, observations)->Some_0 + measurement.window_ms * 1_000_000
            <= u64::MAX,
        0 <= i < measurement.channels.len(),
    ensures
        ({
            let told = observed_all(measurement, observations).stage->Done_0[i];
            let start_ns = window_start(measurement, observations)->Some_0;
            let end_ns = (start_ns + measurement.window_ms * 1_000_000) as u64;
            let edges = edges_in(measurement, observations);
            let line = seq![23u32, 8, 25][measurement.channels[i] - 1];
            let own = crate::hardware::edges_of(edges, line, start_ns, end_ns);
            let missing = crate::hardware::numbers_missing(
                crate::hardware::edges_between(edges, start_ns, end_ns),
            );
            &&& told.0 == measurement.channels[i]
            &&& missing ==> told.1 is Err && told.1->Err_0 is Other
            &&& !missing && own.len() == 0 ==> told.1 is Err && told.1->Err_0 is NoPulses
            &&& !missing && own.len() == 1 ==> told.1 is Err && told.1->Err_0 is InsufficientPulses
            &&& !missing && own.len() >= 2 && own.first().timestamp_ns < own.last().timestamp_ns
                ==> told.1 is Ok && told.1->Ok_0.pulses == own.len() - 1 && told.1->Ok_0.span_ns
                == own.last().timestamp_ns - own.first().timestamp_ns
        }),
{
    assert(crate::config::board_channel(measurement.channels[i]));
    law_measurement_fails_only_for_its_reasons(measurement, observations);
    let start_ns = window_start(measurement, observations)->Some_0;
    crate::hardware::law_frequency_of_the_edges(
        start_ns,
        window_end(start_ns, measurement.window_ms),
        edges_in(measurement, observations),
        measurement.channels[i],
    );
}

/// The lines that are watched are those of the configured channels, in their order: 23, 8 and 25
/// for channels 1, 2 and 3. They are watched exactly for an accepted configuration of confirmed
/// hardware.
pub proof fn law_configured_lines_are_watched(config: Config, i: int)
    ensures
        source_fault(config) is None <==> crate::config::config_fault(config) is None
            && config.hardware_confirmed && config.backend is Hardware,
        crate::config::config_fault(config) is Some ==> source_fault(config) == Some(
            SourceError::Config(crate::config::config_fault(config)->Some_0),
        ),
        channels_of(config).len() == config.sensors@.len(),
        pins_of(channels_of(config)).len() == config.sensors@.len(),
        source_fault(config) is None && 0 <= i < config.sensors@.len() ==> channels_of(config)[i]
            == config.sensors@[i].channel && pins_of(channels_of(config))[i] == seq![
            23u32,
            8,
            25,
        ][config.sensors@[i].channel - 1],
{
    if source_fault(config) is None && 0 <= i < config.sensors@.len() {
        crate::config::law_accepted_configuration(config);
        assert(crate::config::board_channel(config.sensors@[i].channel));
    }
}

/// What is read when the inputs cannot be used.
pub proof fn law_words_for_unusable_inputs()
    ensures
        source_message(SourceError::Unconfirmed)
            == "hardware backend and explicit hardware confirmation required"@,
{
}

} // verus!
