//! Moisture samples and the readings that are made of them.
use std::collections::HashMap;
use vstd::prelude::*;

use crate::config::{Calibration, Config, Hertz, SensorConfig};

verus! {

/// The nanoseconds of a millisecond.
pub const MS_NS: u128 = 1_000_000;

/// A source of one sample per configured channel.
pub trait SensorSource: Send {
    fn read(&mut self) -> Vec<(u8, Result<Hertz, SensorError>)>;
}

/// Why a channel has no frequency.
#[derive(Clone, Debug, PartialEq, Eq)]
pub enum SensorError {
    NoPulses,
    InsufficientPulses,
    Other(String),
}

/// The words for a missing frequency.
pub open spec fn sensor_message(error: SensorError) -> Seq<char> {
    match error {
        SensorError::NoPulses => "no moisture pulses in measurement window"@,
        SensorError::InsufficientPulses => "insufficient pulses to determine frequency"@,
        SensorError::Other(words) => words@,
    }
}

impl SensorError {
    /// The words for a missing frequency.
    pub fn message(&self) -> (text: String)
        ensures
            text@ == sensor_message(*self),
    {
        match self {
            SensorError::NoPulses => "no moisture pulses in measurement window".to_owned(),
            SensorError::InsufficientPulses =>
                "insufficient pulses to determine frequency".to_owned(),
            SensorError::Other(words) => words.clone(),
        }
    }
}

/// How far a reading can be relied on.
#[derive(Clone, Copy, Debug, PartialEq, Eq, Structural)]
pub enum ReadingStatus {
    Valid,
    Uncalibrated,
    NoSignal,
    Invalid,
    Stale,
}

impl ReadingStatus {
    /// Whether a reading of this status holds a current frequency.
    pub open spec fn healthy(self) -> bool {
        self == ReadingStatus::Valid || self == ReadingStatus::Uncalibrated
    }

    /// Whether a reading of this status holds a current frequency.
    pub fn is_healthy(&self) -> (yes: bool)
        ensures
            yes == self.healthy(),
    {
        match self {
            ReadingStatus::Valid | ReadingStatus::Uncalibrated => true,
            _ => false,
        }
    }
}

/// The moisture percentage that a calibration gives for a frequency.
#[derive(Clone, Copy, Debug, PartialEq, Eq, Structural)]
pub struct Moisture {
    pub hz: Hertz,
    pub calibration: Calibration,
}

/// What is known of one channel.
#[derive(Clone, Debug)]
pub struct SensorReading {
    pub channel: u8,
    pub raw_hz: Option<Hertz>,
    pub moisture_percent: Option<Moisture>,
    pub status: ReadingStatus,
    pub age_ms: Option<u64>,
    pub error: Option<String>,
}

/// A reading, with its error as characters.
#[verifier::ext_equal]
pub struct ReadingView {
    pub channel: u8,
    pub raw_hz: Option<Hertz>,
    pub moisture_percent: Option<Moisture>,
    pub status: ReadingStatus,
    pub age_ms: Option<u64>,
    pub error: Option<Seq<char>>,
}

/// The characters of an optional text.
pub open spec fn words(text: Option<String>) -> Option<Seq<char>> {
    match text {
        Some(s) => Some(s@),
        None => None,
    }
}

impl View for SensorReading {
    type V = ReadingView;

    open spec fn view(&self) -> ReadingView {
        ReadingView {
            channel: self.channel,
            raw_hz: self.raw_hz,
            moisture_percent: self.moisture_percent,
            status: self.status,
            age_ms: self.age_ms,
            error: words(self.error),
        }
    }
}

/// The views of a list of readings.
pub open spec fn reading_views(readings: Seq<SensorReading>) -> Seq<ReadingView> {
    readings.map_values(|reading: SensorReading| reading@)
}

/// One channel's sample.
pub type Sample = (u8, Result<Hertz, SensorError>);

/// Nanoseconds as whole milliseconds that fit into 64 bits.
pub open spec fn whole_ms(ns: int) -> u64 {
    if ns / 1_000_000 <= u64::MAX {
        (ns / 1_000_000) as u64
    } else {
        u64::MAX
    }
}

/// Nanoseconds as whole milliseconds that fit into 64 bits.
pub fn millis(ns: u128) -> (ms: u64)
    ensures
        ms == whole_ms(ns as int),
{
    let ms: u128 = ns / MS_NS;
    if ms <= u64::MAX as u128 {
        ms as u64
    } else {
        u64::MAX
    }
}

/// The last sample of a channel among the first `n`.
pub open spec fn last_sample(samples: Seq<Sample>, channel: u8, n: int) -> Option<
    Result<Hertz, SensorError>,
>
    decreases n,
{
    if n <= 0 {
        None
    } else if samples[n - 1].0 == channel {
        Some(samples[n - 1].1)
    } else {
        last_sample(samples, channel, n - 1)
    }
}

/// The channels to report on, each with its calibration.
pub type Channels = Seq<(u8, Option<Calibration>)>;

/// Whether the `i`th channel was listed before.
pub open spec fn channel_repeated(channels: Channels, i: int) -> bool {
    exists|j: int| 0 <= j < i && (#[trigger] channels[j]).0 == channels[i].0
}

/// The sample that the `i`th channel reports on: the last one for it, unless an earlier
/// entry for the same channel has taken it.
pub open spec fn sample_for(channels: Channels, samples: Seq<Sample>, i: int) -> Option<
    Result<Hertz, SensorError>,
> {
    if channel_repeated(channels, i) {
        None
    } else {
        last_sample(samples, channels[i].0, samples.len() as int)
    }
}

/// The frequency of a sample, if the sample has a usable one.
pub open spec fn usable_frequency(sample: Option<Result<Hertz, SensorError>>) -> Option<Hertz> {
    match sample {
        Some(Ok(hz)) => if hz.usable() {
            Some(hz)
        } else {
            None
        },
        _ => None,
    }
}

/// The last usable frequencies, by channel, each with the time it was taken at.
pub type LastGood = Map<u8, (u128, Hertz)>;

/// The last usable frequencies once a sample has come in.
pub open spec fn remembered(
    last: LastGood,
    channel: u8,
    sample: Option<Result<Hertz, SensorError>>,
    now_ns: u128,
) -> LastGood {
    match usable_frequency(sample) {
        Some(hz) => last.insert(channel, (now_ns, hz)),
        None => last,
    }
}

/// The age of a channel's last usable frequency.
pub open spec fn age_ns(last: LastGood, channel: u8, now_ns: u128) -> Option<int> {
    if !last.dom().contains(channel) {
        None
    } else if now_ns >= last[channel].0 {
        Some(now_ns - last[channel].0)
    } else {
        Some(0)
    }
}

/// The reading of a channel for a sample.
pub open spec fn reading_for(
    last: LastGood,
    channel: u8,
    calibration: Option<Calibration>,
    sample: Option<Result<Hertz, SensorError>>,
    stale_after_ns: int,
    now_ns: u128,
) -> ReadingView {
    match usable_frequency(sample) {
        Some(hz) => ReadingView {
            channel,
            raw_hz: Some(hz),
            moisture_percent: match calibration {
                Some(calibration) => Some(Moisture { hz, calibration }),
                None => None,
            },
            status: if calibration is Some {
                ReadingStatus::Valid
            } else {
                ReadingStatus::Uncalibrated
            },
            age_ms: Some(0),
            error: None,
        },
        None => ReadingView {
            channel,
            raw_hz: if last.dom().contains(channel) {
                Some(last[channel].1)
            } else {
                None
            },
            moisture_percent: None,
            status: match sample {
                Some(Err(SensorError::NoPulses)) => ReadingStatus::NoSignal,
                None => if age_ns(last, channel, now_ns) matches Some(age) && age
                    >= stale_after_ns {
                    ReadingStatus::Stale
                } else {
                    ReadingStatus::Invalid
                },
                _ => ReadingStatus::Invalid,
            },
            age_ms: match age_ns(last, channel, now_ns) {
                Some(age) => Some(whole_ms(age)),
                None => None,
            },
            error: Some(
                match sample {
                    Some(Err(error)) => sensor_message(error),
                    Some(Ok(_)) => "nonpositive or nonfinite frequency"@,
                    None => "missing sample"@,
                },
            ),
        },
    }
}

/// A tracker's channels, staleness limit and memory.
pub struct TrackerView {
    pub channels: Channels,
    pub stale_after_ns: int,
    pub last: LastGood,
}

/// What a tracker remembers once the first `n` channels have been read.
pub open spec fn memory_after(
    tracker: TrackerView,
    samples: Seq<Sample>,
    now_ns: u128,
    n: int,
) -> LastGood
    decreases n,
{
    if n <= 0 {
        tracker.last
    } else {
        remembered(
            memory_after(tracker, samples, now_ns, n - 1),
            tracker.channels[n - 1].0,
            sample_for(tracker.channels, samples, n - 1),
            now_ns,
        )
    }
}

/// The reading of the `i`th channel.
pub open spec fn reading_at(
    tracker: TrackerView,
    samples: Seq<Sample>,
    now_ns: u128,
    i: int,
) -> ReadingView {
    reading_for(
        memory_after(tracker, samples, now_ns, i),
        tracker.channels[i].0,
        tracker.channels[i].1,
        sample_for(tracker.channels, samples, i),
        tracker.stale_after_ns,
        now_ns,
    )
}

/// The readings of all channels, in their order.
pub open spec fn readings_of(
    tracker: TrackerView,
    samples: Seq<Sample>,
    now_ns: u128,
) -> Seq<ReadingView> {
    Seq::new(tracker.channels.len(), |i: int| reading_at(tracker, samples, now_ns, i))
}

/// Turns samples into readings and remembers each channel's last usable frequency.
pub struct SensorTracker {
    channels: Vec<(u8, Option<Calibration>)>,
    stale_after_ns: u128,
    last: HashMap<u8, (u128, Hertz)>,
}

impl View for SensorTracker {
    type V = TrackerView;

    closed spec fn view(&self) -> TrackerView {
        TrackerView {
            channels: self.channels@,
            stale_after_ns: self.stale_after_ns as int,
            last: self.last@,
        }
    }
}

/// The channels of the configured sensors.
pub open spec fn configured_channels(sensors: Seq<SensorConfig>) -> Channels {
    sensors.map_values(|sensor: SensorConfig| (sensor.channel, sensor.calibration))
}

fn find_sample(samples: &Vec<Sample>, channel: u8) -> (found: Option<usize>)
    ensures
        match found {
            Some(k) => k < samples@.len() && last_sample(
                samples@,
                channel,
                samples@.len() as int,
            ) == Some(samples@[k as int].1),
            None => last_sample(samples@, channel, samples@.len() as int) is None,
        },
{
    let mut n: usize = samples.len();
    while n > 0
        invariant
            n <= samples@.len(),
            last_sample(samples@, channel, samples@.len() as int) == last_sample(
                samples@,
                channel,
                n as int,
            ),
        decreases n,
    {
        if samples[n - 1].0 == channel {
            return Some(n - 1);
        }
        n -= 1;
    }
    None
}

impl SensorTracker {
    /// A tracker for the configured sensors that has seen nothing yet.
    pub fn new(config: &Config) -> (tracker: SensorTracker)
        ensures
            tracker@ == (TrackerView {
                channels: configured_channels(config.sensors@),
                stale_after_ns: config.stale_after_ms * 1_000_000,
                last: Map::empty(),
            }),
    {
        broadcast use vstd::std_specs::hash::group_hash_axioms;

        let mut channels: Vec<(u8, Option<Calibration>)> = Vec::new();
        let mut i: usize = 0;
        while i < config.sensors.len()
            invariant
                i <= config.sensors@.len(),
                channels@ =~= configured_channels(config.sensors@).take(i as int),
            decreases config.sensors.len() - i,
        {
            channels.push((config.sensors[i].channel, config.sensors[i].calibration));
            i += 1;
        }
        let tracker = SensorTracker {
            channels,
            stale_after_ns: config.stale_after_ms as u128 * MS_NS,
            last: HashMap::new(),
        };
        assert(tracker@.channels =~= configured_channels(config.sensors@));
        assert(tracker@.last =~= Map::empty());
        tracker
    }

    fn listed_before(&self, i: usize) -> (yes: bool)
        requires
            i < self@.channels.len(),
        ensures
            yes == channel_repeated(self@.channels, i as int),
    {
        let mut j: usize = 0;
        while j < i
            invariant
                j <= i < self.channels@.len(),
                forall|k: int|
                    0 <= k < j ==> (#[trigger] self.channels@[k]).0 != self.channels@[i as int].0,
            decreases i - j,
        {
            if self.channels[j].0 == self.channels[i].0 {
                return true;
            }
            j += 1;
        }
        false
    }

    fn take(&mut self, i: usize, samples: &Vec<Sample>, now_ns: u128) -> (reading: SensorReading)
        requires
            i < old(self)@.channels.len(),
        ensures
            reading@ == reading_for(
                old(self)@.last,
                old(self)@.channels[i as int].0,
                old(self)@.channels[i as int].1,
                sample_for(old(self)@.channels, samples@, i as int),
                old(self)@.stale_after_ns,
                now_ns,
            ),
            final(self)@.last == remembered(
                old(self)@.last,
                old(self)@.channels[i as int].0,
                sample_for(old(self)@.channels, samples@, i as int),
                now_ns,
            ),
            final(self)@.channels == old(self)@.channels,
            final(self)@.stale_after_ns == old(self)@.stale_after_ns,
    {
        broadcast use vstd::std_specs::hash::group_hash_axioms;

        let channel: u8 = self.channels[i].0;
        let calibration = self.channels[i].1;
        let found: Option<usize> = if self.listed_before(i) {
            None
        } else {
            find_sample(samples, channel)
        };
        if let Some(k) = found {
            if let Ok(hz) = &samples[k].1 {
                if hz.is_usable() {
                    self.last.insert(channel, (now_ns, *hz));
                    return SensorReading {
                        channel,
                        raw_hz: Some(*hz),
                        moisture_percent: match calibration {
                            Some(calibration) => Some(Moisture { hz: *hz, calibration }),
                            None => None,
                        },
                        status: if calibration.is_some() {
                            ReadingStatus::Valid
                        } else {
                            ReadingStatus::Uncalibrated
                        },
                        age_ms: Some(0),
                        error: None,
                    };
                }
            }
        }
        let known: Option<(u128, Hertz)> = match self.last.get(&channel) {
            Some(pair) => Some(*pair),
            None => None,
        };
        let age: Option<u128> = match known {
            Some(pair) => Some(now_ns.saturating_sub(pair.0)),
            None => None,
        };
        let stale: bool = match age {
            Some(age) => age >= self.stale_after_ns,
            None => false,
        };
        let status = match found {
            Some(k) => match &samples[k].1 {
                Err(SensorError::NoPulses) => ReadingStatus::NoSignal,
                _ => ReadingStatus::Invalid,
            },
            None => if stale {
                ReadingStatus::Stale
            } else {
                ReadingStatus::Invalid
            },
        };
        let error = match found {
            Some(k) => match &samples[k].1 {
                Err(error) => error.message(),
                Ok(_) => "nonpositive or nonfinite frequency".to_owned(),
            },
            None => "missing sample".to_owned(),
        };
        SensorReading {
            channel,
            raw_hz: match known {
                Some(pair) => Some(pair.1),
                None => None,
            },
            moisture_percent: None,
            status,
            age_ms: match age {
                Some(age) => Some(millis(age)),
                None => None,
            },
            error: Some(error),
        }
    }

    /// Turns the samples of one cycle into one reading per channel.
    pub fn update(&mut self, samples: Vec<Sample>, now_ns: u128) -> (readings: Vec<SensorReading>)
        ensures
            reading_views(readings@) == readings_of(old(self)@, samples@, now_ns),
            final(self)@ == (TrackerView {
                last: memory_after(
                    old(self)@,
                    samples@,
                    now_ns,
                    old(self)@.channels.len() as int,
                ),
                ..old(self)@
            }),
    {
        let mut readings: Vec<SensorReading> = Vec::new();
        let ghost before = self@;
        let mut i: usize = 0;
        while i < self.channels.len()
            invariant
                i <= self@.channels.len(),
                self@.channels == before.channels,
                self.channels@ == before.channels,
                self@.stale_after_ns == before.stale_after_ns,
                self@.last == memory_after(before, samples@, now_ns, i as int),
                reading_views(readings@) =~= readings_of(before, samples@, now_ns).take(i as int),
            decreases self.channels.len() - i,
        {
            let reading = self.take(i, &samples, now_ns);
            assert(reading@ == reading_at(before, samples@, now_ns, i as int));
            let ghost earlier = readings@;
            readings.push(reading);
            proof {
                let all = readings_of(before, samples@, now_ns);
                assert(reading_views(readings@) =~= reading_views(earlier).push(reading@));
                assert(all.take(i + 1) =~= all.take(i as int).push(all[i as int]));
            }
            i += 1;
        }
        assert(reading_views(readings@) =~= readings_of(before, samples@, now_ns));
        readings
    }
}

/// A source that gives each sensor's configured frequency.
pub struct SimulatedSource {
    samples: Vec<(u8, Hertz)>,
}

impl View for SimulatedSource {
    type V = Seq<(u8, Hertz)>;

    closed spec fn view(&self) -> Seq<(u8, Hertz)> {
        self.samples@
    }
}

impl SimulatedSource {
    /// A source for the configured sensors.
    pub fn new(config: &Config) -> (source: SimulatedSource)
        ensures
            source@ == config.sensors@.map_values(
                |sensor: SensorConfig| (sensor.channel, sensor.simulated_hz),
            ),
    {
        let ghost all = config.sensors@.map_values(
            |sensor: SensorConfig| (sensor.channel, sensor.simulated_hz),
        );
        let mut samples: Vec<(u8, Hertz)> = Vec::new();
        let mut i: usize = 0;
        while i < config.sensors.len()
            invariant
                i <= config.sensors@.len(),
                all == config.sensors@.map_values(
                    |sensor: SensorConfig| (sensor.channel, sensor.simulated_hz),
                ),
                samples@ =~= all.take(i as int),
            decreases config.sensors.len() - i,
        {
            samples.push((config.sensors[i].channel, config.sensors[i].simulated_hz));
            i += 1;
        }
        assert(samples@ =~= all);
        SimulatedSource { samples }
    }
}

impl SensorSource for SimulatedSource {
    fn read(&mut self) -> (samples: Vec<(u8, Result<Hertz, SensorError>)>)
        ensures
            samples@ == old(self)@.map_values(
                |sample: (u8, Hertz)| (sample.0, Ok::<Hertz, SensorError>(sample.1)),
            ),
            final(self)@ == old(self)@,
    {
        let ghost all = self@.map_values(
            |sample: (u8, Hertz)| (sample.0, Ok::<Hertz, SensorError>(sample.1)),
        );
        let mut samples: Vec<(u8, Result<Hertz, SensorError>)> = Vec::new();
        let mut i: usize = 0;
        while i < self.samples.len()
            invariant
                i <= self.samples@.len(),
                self@ == self.samples@,
                self@ == old(self)@,
                all == self@.map_values(
                    |sample: (u8, Hertz)| (sample.0, Ok::<Hertz, SensorError>(sample.1)),
                ),
                samples@ =~= all.take(i as int),
            decreases self.samples.len() - i,
        {
            samples.push((self.samples[i].0, Ok(self.samples[i].1)));
            i += 1;
        }
        assert(samples@ =~= all);
        samples
    }
}

/// Each cycle gives exactly one reading per configured channel, in the configured order.
pub proof fn law_one_reading_per_channel(tracker: TrackerView, samples: Seq<Sample>, now_ns: u128)
    ensures
        readings_of(tracker, samples, now_ns).len() == tracker.channels.len(),
        forall|i: int|
            0 <= i < tracker.channels.len() ==> (#[trigger] readings_of(
                tracker,
                samples,
                now_ns,
            )[i]).channel == tracker.channels[i].0,
{
}

/// A moisture percentage is reported exactly with a valid reading, and then it is the one
/// that the channel's calibration gives for the frequency of this very cycle. A channel
/// without calibration never has one.
pub proof fn law_moisture_only_from_fresh_calibrated_frequency(
    tracker: TrackerView,
    samples: Seq<Sample>,
    now_ns: u128,
    i: int,
)
    requires
        0 <= i < tracker.channels.len(),
    ensures
        ({
            let reading = reading_at(tracker, samples, now_ns, i);
            let fresh = usable_frequency(sample_for(tracker.channels, samples, i));
            &&& reading.moisture_percent is Some <==> reading.status == ReadingStatus::Valid
            &&& reading.moisture_percent matches Some(moisture) ==> fresh == Some(moisture.hz)
                && tracker.channels[i].1 == Some(moisture.calibration) && reading.raw_hz == fresh
            &&& tracker.channels[i].1 is None ==> reading.moisture_percent is None
        }),
{
}

/// A reading is healthy exactly when its sample held a usable frequency. A healthy one is
/// of age zero and carries no error; any other one carries an error.
pub proof fn law_healthy_means_usable_sample(
    tracker: TrackerView,
    samples: Seq<Sample>,
    now_ns: u128,
    i: int,
)
    requires
        0 <= i < tracker.channels.len(),
    ensures
        ({
            let reading = reading_at(tracker, samples, now_ns, i);
            let fresh = usable_frequency(sample_for(tracker.channels, samples, i));
            &&& reading.status.healthy() <==> fresh is Some
            &&& fresh is Some ==> reading.age_ms == Some(0u64) && reading.error is None
            &&& fresh is None ==> reading.error is Some
        }),
{
}

/// Zero pulses, and nothing else, report no signal, whatever the channel's history is.
pub proof fn law_no_signal_means_no_pulses(
    tracker: TrackerView,
    samples: Seq<Sample>,
    now_ns: u128,
    i: int,
)
    requires
        0 <= i < tracker.channels.len(),
    ensures
        reading_at(tracker, samples, now_ns, i).status == ReadingStatus::NoSignal <==> sample_for(
            tracker.channels,
            samples,
            i,
        ) == Some(Err::<Hertz, SensorError>(SensorError::NoPulses)),
{
}

/// Updating touches the memory of no channel but those that are listed, and of a listed
/// one only if it had a usable sample.
pub proof fn law_memory_of_other_channels_is_kept(
    tracker: TrackerView,
    samples: Seq<Sample>,
    now_ns: u128,
    n: int,
    channel: u8,
)
    requires
        0 <= n <= tracker.channels.len(),
        forall|i: int|
            0 <= i < n && (#[trigger] tracker.channels[i]).0 == channel ==> usable_frequency(
                sample_for(tracker.channels, samples, i),
            ) is None,
    ensures
        memory_after(tracker, samples, now_ns, n).dom().contains(channel)
            == tracker.last.dom().contains(channel),
        tracker.last.dom().contains(channel) ==> memory_after(tracker, samples, now_ns, n)[channel]
            == tracker.last[channel],
    decreases n,
{
    if n > 0 {
        law_memory_of_other_channels_is_kept(tracker, samples, now_ns, n - 1, channel);
        assert(tracker.channels[n - 1].0 == channel ==> usable_frequency(
            sample_for(tracker.channels, samples, n - 1),
        ) is None);
    }
}

/// Among channels listed once each, a reading without a usable frequency shows the
/// frequency and the age of the last usable one, as remembered from earlier cycles.
pub proof fn law_unusable_sample_shows_the_last_frequency(
    tracker: TrackerView,
    samples: Seq<Sample>,
    now_ns: u128,
    i: int,
)
    requires
        0 <= i < tracker.channels.len(),
        !channel_repeated(tracker.channels, i),
        usable_frequency(sample_for(tracker.channels, samples, i)) is None,
    ensures
        ({
            let channel = tracker.channels[i].0;
            let reading = reading_at(tracker, samples, now_ns, i);
            if tracker.last.dom().contains(channel) {
                &&& reading.raw_hz == Some(tracker.last[channel].1)
                &&& reading.age_ms == Some(whole_ms(age_ns(tracker.last, channel, now_ns)->0))
            } else {
                reading.raw_hz is None && reading.age_ms is None
            }
        }),
{
    law_memory_of_other_channels_is_kept(tracker, samples, now_ns, i, tracker.channels[i].0);
}

/// A usable sample is what the next cycles remember of its channel: it is shown, aged from
/// the time it was taken at, until another usable sample replaces it.
pub proof fn law_usable_sample_is_remembered(
    tracker: TrackerView,
    samples: Seq<Sample>,
    now_ns: u128,
    n: int,
    i: int,
)
    requires
        0 <= i < n <= tracker.channels.len(),
        forall|j: int| 0 <= j < n ==> !#[trigger] channel_repeated(tracker.channels, j),
        usable_frequency(sample_for(tracker.channels, samples, i)) is Some,
    ensures
        memory_after(tracker, samples, now_ns, n).dom().contains(tracker.channels[i].0),
        memory_after(tracker, samples, now_ns, n)[tracker.channels[i].0] == (
            now_ns,
            usable_frequency(sample_for(tracker.channels, samples, i))->0,
        ),
    decreases n,
{
    if i < n - 1 {
        law_usable_sample_is_remembered(tracker, samples, now_ns, n - 1, i);
        assert(!channel_repeated(tracker.channels, n - 1));
        assert(tracker.channels[i].0 != tracker.channels[n - 1].0);
    }
}

/// The word for a status wherever a reading is written down.
pub open spec fn status_name(status: ReadingStatus) -> Seq<char> {
    match status {
        ReadingStatus::Valid => "valid"@,
        ReadingStatus::Uncalibrated => "uncalibrated"@,
        ReadingStatus::NoSignal => "no_signal"@,
        ReadingStatus::Invalid => "invalid"@,
        ReadingStatus::Stale => "stale"@,
    }
}

/// No two statuses go by the same word.
pub proof fn lemma_status_names_differ()
    ensures
        forall|one: ReadingStatus, other: ReadingStatus|
            one != other ==> #[trigger] status_name(one) != #[trigger] status_name(other),
{
    reveal_strlit("valid");
    reveal_strlit("uncalibrated");
    reveal_strlit("no_signal");
    reveal_strlit("invalid");
    reveal_strlit("stale");
    assert("valid"@.len() == 5);
    assert("uncalibrated"@.len() == 12);
    assert("no_signal"@.len() == 9);
    assert("invalid"@.len() == 7);
    assert("stale"@.len() == 5);
    assert("valid"@[0] == 'v');
    assert("stale"@[0] == 's');
}

/// Which frequencies are usable: the positive finite ones. As binary64 numbers they have no sign,
/// are not zero, and their exponent is not the one of infinities and of what is no number.
pub proof fn law_usable_means_positive_and_finite(hz: Hertz)
    ensures
        hz.usable() <==> hz.bits != 0 && hz.bits >> 63u64 == 0 && (hz.bits >> 52u64) & 0x7ff
            != 0x7ff,
{
    let bits = hz.bits;
    assert((0 < bits && bits < 0x7ff0_0000_0000_0000u64) <==> (bits != 0 && bits >> 63u64 == 0 && (
    bits >> 52u64) & 0x7ff != 0x7ff)) by (bit_vector);
}

proof fn lemma_last_sample(samples: Seq<Sample>, channel: u8, n: int, k: int)
    requires
        0 <= k < n <= samples.len(),
        samples[k].0 == channel,
        forall|j: int| k < j < n ==> (#[trigger] samples[j]).0 != channel,
    ensures
        last_sample(samples, channel, n) == Some(samples[k].1),
    decreases n,
{
    if k < n - 1 {
        assert(samples[n - 1].0 != channel);
        lemma_last_sample(samples, channel, n - 1, k);
    }
}

proof fn lemma_no_sample(samples: Seq<Sample>, channel: u8, n: int)
    requires
        0 <= n <= samples.len(),
        forall|j: int| 0 <= j < n ==> (#[trigger] samples[j]).0 != channel,
    ensures
        last_sample(samples, channel, n) is None,
    decreases n,
{
    if n > 0 {
        assert(samples[n - 1].0 != channel);
        lemma_no_sample(samples, channel, n - 1);
    }
}

/// A usable frequency is told as it is, at once: with a calibration as valid, along with the
/// moisture that the calibration gives for it, and without one as uncalibrated. Of several
/// samples of a channel the last one counts.
pub proof fn law_usable_frequency_is_told(
    tracker: TrackerView,
    samples: Seq<Sample>,
    now_ns: u128,
    i: int,
    k: int,
    hz: Hertz,
)
    requires
        0 <= i < tracker.channels.len(),
        forall|j: int| 0 <= j < i ==> (#[trigger] tracker.channels[j]).0 != tracker.channels[i].0,
        0 <= k < samples.len(),
        samples[k].0 == tracker.channels[i].0,
        forall|j: int|
            k < j < samples.len() ==> (#[trigger] samples[j]).0 != tracker.channels[i].0,
        samples[k].1 == Ok::<Hertz, SensorError>(hz),
        0 < hz.bits < 0x7ff0_0000_0000_0000,
    ensures
        ({
            let reading = readings_of(tracker, samples, now_ns)[i];
            &&& reading.channel == tracker.channels[i].0
            &&& reading.raw_hz == Some(hz)
            &&& reading.age_ms == Some(0u64)
            &&& reading.error is None
            &&& tracker.channels[i].1 is None ==> reading.status is Uncalibrated
                && reading.moisture_percent is None
            &&& tracker.channels[i].1 matches Some(calibration) ==> reading.status is Valid
                && reading.moisture_percent == Some(Moisture { hz, calibration })
        }),
{
    lemma_last_sample(samples, tracker.channels[i].0, samples.len() as int, k);
    assert(!channel_repeated(tracker.channels, i));
}

/// Why a channel without a usable frequency has none: no pulses are no signal, any other failure
/// and any unusable number is invalid, and where no sample came at all the reading is stale once
/// the last usable one is old enough. The error says the same in words.
pub proof fn law_unusable_samples_tell_why(
    tracker: TrackerView,
    samples: Seq<Sample>,
    now_ns: u128,
    i: int,
    k: int,
)
    requires
        0 <= i < tracker.channels.len(),
        forall|j: int| 0 <= j < i ==> (#[trigger] tracker.channels[j]).0 != tracker.channels[i].0,
        forall|j: int|
            k < j < samples.len() ==> (#[trigger] samples[j]).0 != tracker.channels[i].0,
        k == -1 || 0 <= k < samples.len() && samples[k].0 == tracker.channels[i].0,
    ensures
        ({
            let reading = readings_of(tracker, samples, now_ns)[i];
            let channel = tracker.channels[i].0;
            let known = tracker.last.dom().contains(channel);
            let old = known && now_ns >= tracker.last[channel].0 && now_ns - tracker.last[channel].0
                >= tracker.stale_after_ns;
            &&& k >= 0 && samples[k].1 is Err && samples[k].1->Err_0 is NoPulses
                ==> reading.status is NoSignal && reading.error == Some(
                "no moisture pulses in measurement window"@,
            )
            &&& k >= 0 && samples[k].1 is Err && samples[k].1->Err_0 is InsufficientPulses
                ==> reading.status is Invalid && reading.error == Some(
                "insufficient pulses to determine frequency"@,
            )
            &&& k >= 0 && samples[k].1 is Err && samples[k].1->Err_0 is Other
                ==> reading.status is Invalid && reading.error == Some(
                samples[k].1->Err_0->Other_0@,
            )
            &&& k >= 0 && samples[k].1 is Ok && !(0 < samples[k].1->Ok_0.bits
                < 0x7ff0_0000_0000_0000) ==> reading.status is Invalid && reading.error == Some(
                "nonpositive or nonfinite frequency"@,
            )
            &&& k == -1 ==> reading.error == Some("missing sample"@)
            &&& k == -1 && old ==> reading.status is Stale
            &&& k == -1 && !old && tracker.stale_after_ns > 0 ==> reading.status is Invalid
        }),
{
    let channel = tracker.channels[i].0;
    assert(!channel_repeated(tracker.channels, i));
    if k >= 0 {
        lemma_last_sample(samples, channel, samples.len() as int, k);
    } else {
        lemma_no_sample(samples, channel, samples.len() as int);
        law_memory_of_other_channels_is_kept(tracker, samples, now_ns, i, channel);
    }
}

/// Times are told in whole milliseconds, rounded down.
pub proof fn law_milliseconds_are_rounded_down(ns: int)
    requires
        0 <= ns < 1_000_000 * u64::MAX,
    ensures
        whole_ms(ns) * 1_000_000 <= ns < whole_ms(ns) * 1_000_000 + 1_000_000,
{
}

/// A tracker begins with the configured channels and calibrations, in their order, and with the
/// configured limit; it remembers nothing.
pub proof fn law_tracker_follows_the_configuration(config: Config, tracker: SensorTracker, i: int)
    requires
        call_ensures(SensorTracker::new, (&config,), tracker),
        0 <= i < config.sensors@.len(),
    ensures
        tracker@.channels.len() == config.sensors@.len(),
        tracker@.channels[i].0 == config.sensors@[i].channel,
        tracker@.channels[i].1 == config.sensors@[i].calibration,
        tracker@.stale_after_ns == config.stale_after_ms * 1_000_000,
        forall|channel: u8| !tracker@.last.dom().contains(channel),
{
}

/// The simulated source gives each configured sensor its own simulated frequency.
pub proof fn law_simulated_source_follows_the_configuration(
    config: Config,
    source: SimulatedSource,
    i: int,
)
    requires
        call_ensures(SimulatedSource::new, (&config,), source),
        0 <= i < config.sensors@.len(),
    ensures
        source@.len() == config.sensors@.len(),
        source@[i] == (config.sensors@[i].channel, config.sensors@[i].simulated_hz),
{
}

/// What is read when a channel has no frequency.
pub proof fn law_words_for_a_missing_frequency()
    ensures
        sensor_message(SensorError::NoPulses) == "no moisture pulses in measurement window"@,
        sensor_message(SensorError::InsufficientPulses)
            == "insufficient pulses to determine frequency"@,
{
}

/// A channel that had a usable frequency shows it on in the next cycle where it has none, with
/// the whole milliseconds since it was taken; a channel that never had one shows nothing.
pub proof fn law_last_frequency_is_shown_with_its_age(
    tracker: TrackerView,
    samples: Seq<Sample>,
    taken_ns: u128,
    later_samples: Seq<Sample>,
    later_ns: u128,
    i: int,
    k: int,
    hz: Hertz,
)
    requires
        0 <= i < tracker.channels.len(),
        forall|a: int, b: int|
            0 <= a < b < tracker.channels.len() ==> (#[trigger] tracker.channels[a]).0 != (
            #[trigger] tracker.channels[b]).0,
        0 <= k < samples.len(),
        samples[k] == (tracker.channels[i].0, Ok::<Hertz, SensorError>(hz)),
        forall|j: int|
            k < j < samples.len() ==> (#[trigger] samples[j]).0 != tracker.channels[i].0,
        0 < hz.bits < 0x7ff0_0000_0000_0000,
        forall|j: int|
            0 <= j < later_samples.len() && (#[trigger] later_samples[j]).0
                == tracker.channels[i].0 ==> later_samples[j].1 is Err,
        taken_ns <= later_ns,
        later_ns - taken_ns < 1_000_000 * u64::MAX,
    ensures
        ({
            let n = tracker.channels.len() as int;
            let after = TrackerView {
                last: memory_after(tracker, samples, taken_ns, n),
                ..tracker
            };
            let reading = readings_of(after, later_samples, later_ns)[i];
            &&& reading.raw_hz == Some(hz)
            &&& reading.age_ms is Some
            &&& reading.age_ms->Some_0 == (later_ns - taken_ns) / 1_000_000
            &&& reading.moisture_percent is None
            &&& reading.error is Some
        }),
{
    let n = tracker.channels.len() as int;
    let channel = tracker.channels[i].0;
    lemma_last_sample(samples, channel, samples.len() as int, k);
    assert forall|j: int| 0 <= j < n implies !#[trigger] channel_repeated(tracker.channels, j) by {
        if channel_repeated(tracker.channels, j) {
            let a = choose|a: int|
                0 <= a < j && (#[trigger] tracker.channels[a]).0 == tracker.channels[j].0;
            assert(tracker.channels[a].0 != tracker.channels[j].0);
        }
    }
    law_usable_sample_is_remembered(tracker, samples, taken_ns, n, i);
    let after = TrackerView { last: memory_after(tracker, samples, taken_ns, n), ..tracker };
    lemma_only_failures(later_samples, channel, later_samples.len() as int);
    assert(usable_frequency(sample_for(after.channels, later_samples, i)) is None);
    law_unusable_sample_shows_the_last_frequency(after, later_samples, later_ns, i);
}

proof fn lemma_only_failures(samples: Seq<Sample>, channel: u8, n: int)
    requires
        0 <= n <= samples.len(),
        forall|j: int|
            0 <= j < samples.len() && (#[trigger] samples[j]).0 == channel ==> samples[j].1 is Err,
    ensures
        last_sample(samples, channel, n) matches Some(sample) ==> sample is Err,
    decreases n,
{
    if n > 0 {
        assert(samples[n - 1].0 == channel ==> samples[n - 1].1 is Err);
        lemma_only_failures(samples, channel, n - 1);
    }
}

} // verus!
