//! Frequencies from the edges of the moisture inputs.
//!
//! A measurement first drains the edges that piled up while nobody looked, then opens a
//! window on the monotonic clock and counts the edges of each input that fall into it.
//! [`crate::measurement::Measurement`] decides what comes next; the caller looks at clocks and
//! lines.
use vstd::prelude::*;
use vstd::string::*;

use crate::sensor::SensorError;

verus! {

/// How many old edges a drain takes at most.
pub const MAX_DRAIN_EVENTS: u64 = 4096;

/// How long a drain may take, in nanoseconds.
pub const MAX_DRAIN_NS: u128 = 100_000_000;

/// The input line of each moisture channel.
pub open spec fn pin_of_sensor(channel: u8) -> u32 {
    if channel == 1 {
        23
    } else if channel == 2 {
        8
    } else {
        25
    }
}

/// The input line of a moisture channel.
pub fn sensor_pin(channel: u8) -> (pin: u32)
    requires
        1 <= channel <= 3,
    ensures
        pin == pin_of_sensor(channel),
{
    if channel == 1 {
        23
    } else if channel == 2 {
        8
    } else {
        25
    }
}

/// So many pulses in such a time: the frequency is their quotient.
#[derive(Clone, Copy, Debug, PartialEq, Eq, Structural)]
pub struct PulseRate {
    pub pulses: u64,
    pub span_ns: u64,
}

/// The edges of one input within a window.
#[derive(Clone, Copy, Debug, PartialEq, Eq, Structural)]
pub struct PulseWindow {
    pub first_ns: Option<u64>,
    pub last_ns: Option<u64>,
    pub count: u64,
}

/// Whether a time lies in a window.
pub open spec fn within(timestamp_ns: u64, start_ns: u64, end_ns: u64) -> bool {
    start_ns <= timestamp_ns < end_ns
}

/// No edges.
pub open spec fn no_pulses() -> PulseWindow {
    PulseWindow { first_ns: None, last_ns: None, count: 0 }
}

/// The edges of an input with one more.
pub open spec fn pushed(
    pulses: PulseWindow,
    timestamp_ns: u64,
    start_ns: u64,
    end_ns: u64,
) -> PulseWindow {
    if within(timestamp_ns, start_ns, end_ns) {
        PulseWindow {
            first_ns: if pulses.first_ns is Some {
                pulses.first_ns
            } else {
                Some(timestamp_ns)
            },
            last_ns: Some(timestamp_ns),
            count: (pulses.count + 1) as u64,
        }
    } else {
        pulses
    }
}

/// A missing frequency, with its words as characters.
pub enum ErrorView {
    NoPulses,
    InsufficientPulses,
    Other(Seq<char>),
}

/// A missing frequency, with its words as characters.
pub open spec fn error_view(error: SensorError) -> ErrorView {
    match error {
        SensorError::NoPulses => ErrorView::NoPulses,
        SensorError::InsufficientPulses => ErrorView::InsufficientPulses,
        SensorError::Other(words) => ErrorView::Other(words@),
    }
}

/// A rate or a reason, with its words as characters.
pub open spec fn rate_view(rate: Result<PulseRate, SensorError>) -> Result<PulseRate, ErrorView> {
    match rate {
        Ok(rate) => Ok(rate),
        Err(error) => Err(error_view(error)),
    }
}

/// The rate of an input: one period less than edges, over the time from the first to the
/// last of them.
pub open spec fn rate_of(pulses: PulseWindow, overflow: bool) -> Result<PulseRate, ErrorView> {
    if overflow {
        Err(ErrorView::Other("GPIO edge sequence gap; possible overflow"@))
    } else if pulses.count == 0 {
        Err(ErrorView::NoPulses)
    } else if pulses.count < 2 {
        Err(ErrorView::InsufficientPulses)
    } else if pulses.last_ns == pulses.first_ns {
        Err(ErrorView::Other("duplicate pulse timestamps"@))
    } else {
        Ok(
            PulseRate {
                pulses: (pulses.count - 1) as u64,
                span_ns: (pulses.last_ns->Some_0 - pulses.first_ns->Some_0) as u64,
            },
        )
    }
}

/// Whether a window has its times exactly if it has edges.
pub open spec fn consistent(pulses: PulseWindow) -> bool {
    &&& pulses.count == 0 <==> pulses.first_ns is None
    &&& pulses.count == 0 <==> pulses.last_ns is None
}

/// Whether a window has a rate or a reason for having none: where a rate is taken, the last
/// edge is not before the first.
pub open spec fn measurable(pulses: PulseWindow, overflow: bool) -> bool {
    !overflow && pulses.count >= 2 ==> {
        &&& pulses.first_ns is Some
        &&& pulses.last_ns is Some
        &&& pulses.first_ns->Some_0 <= pulses.last_ns->Some_0
    }
}

impl Default for PulseWindow {
    /// No edges.
    fn default() -> (pulses: PulseWindow)
        ensures
            pulses == no_pulses(),
    {
        PulseWindow { first_ns: None, last_ns: None, count: 0 }
    }
}

impl PulseWindow {
    /// Counts an edge, if it lies in the window.
    pub fn push(&mut self, timestamp_ns: u64, start_ns: u64, end_ns: u64)
        requires
            within(timestamp_ns, start_ns, end_ns) ==> old(self).count < u64::MAX,
        ensures
            *final(self) == pushed(*old(self), timestamp_ns, start_ns, end_ns),
    {
        if timestamp_ns < start_ns || timestamp_ns >= end_ns {
            return;
        }
        if self.first_ns.is_none() {
            self.first_ns = Some(timestamp_ns);
        }
        self.last_ns = Some(timestamp_ns);
        self.count = self.count + 1;
    }

    /// Whether the edges have a rate or a reason for having none.
    pub fn is_measurable(&self, overflow: bool) -> (yes: bool)
        ensures
            yes == measurable(*self, overflow),
    {
        if overflow || self.count < 2 {
            return true;
        }
        match (self.first_ns, self.last_ns) {
            (Some(first), Some(last)) => first <= last,
            _ => false,
        }
    }

    /// The rate of the edges, or why there is none.
    pub fn frequency(&self, overflow: bool) -> (rate: Result<PulseRate, SensorError>)
        requires
            measurable(*self, overflow),
        ensures
            rate_view(rate) == rate_of(*self, overflow),
    {
        if overflow {
            return Err(SensorError::Other("GPIO edge sequence gap; possible overflow".to_owned()));
        }
        if self.count == 0 {
            return Err(SensorError::NoPulses);
        }
        if self.count < 2 {
            return Err(SensorError::InsufficientPulses);
        }
        match (self.first_ns, self.last_ns) {
            (Some(first), Some(last)) => {
                let span_ns: u64 = last - first;
                if span_ns == 0 {
                    return Err(SensorError::Other("duplicate pulse timestamps".to_owned()));
                }
                Ok(PulseRate { pulses: self.count - 1, span_ns })
            },
            _ => Err(SensorError::NoPulses),
        }
    }
}

/// The sequence number after a given one.
pub open spec fn next_number(number: u32) -> u32 {
    if number == u32::MAX {
        0
    } else {
        (number + 1) as u32
    }
}

/// Whether edges are missing before one with a number, within a window.
pub open spec fn gap_before(previous: Option<u32>, current: u32, in_window: bool) -> bool {
    in_window && (current == 0 || (previous matches Some(number) && current != next_number(number)))
}

/// Takes note of the sequence number of an edge, and tells whether edges are missing before
/// it. Line events without sequence numbers carry a zero, which counts as missing.
pub fn sequence_gap(previous: &mut Option<u32>, current: u32, in_window: bool) -> (gap: bool)
    ensures
        gap == gap_before(*old(previous), current, in_window),
        *final(previous) == (if in_window {
            Some(current)
        } else {
            *old(previous)
        }),
{
    if !in_window {
        return false;
    }
    let follows: bool = match *previous {
        Some(number) => current == number.wrapping_add(1),
        None => true,
    };
    *previous = Some(current);
    current == 0 || !follows
}

/// A rising edge of a line.
#[derive(Clone, Copy, Debug, PartialEq, Eq, Structural)]
pub struct Edge {
    pub timestamp_ns: u64,
    pub seqno: u32,
    pub offset: u32,
}

/// The edges of the three inputs within a window.
#[derive(Clone, Copy, Debug, PartialEq, Eq, Structural)]
pub struct Capture {
    pub start_ns: u64,
    pub end_ns: u64,
    pub sequence: Option<u32>,
    pub overflow: bool,
    pub one: PulseWindow,
    pub two: PulseWindow,
    pub three: PulseWindow,
}

/// An empty capture of a window.
pub open spec fn opened(start_ns: u64, end_ns: u64) -> Capture {
    Capture {
        start_ns,
        end_ns,
        sequence: None,
        overflow: false,
        one: no_pulses(),
        two: no_pulses(),
        three: no_pulses(),
    }
}

/// The edges of one channel.
pub open spec fn pulses_on(capture: Capture, channel: u8) -> PulseWindow {
    if channel == 1 {
        capture.one
    } else if channel == 2 {
        capture.two
    } else {
        capture.three
    }
}

/// The edges of a channel once an edge of some line has come in.
pub open spec fn pulses_after(capture: Capture, channel: u8, edge: Edge) -> PulseWindow {
    if edge.offset == pin_of_sensor(channel) {
        pushed(pulses_on(capture, channel), edge.timestamp_ns, capture.start_ns, capture.end_ns)
    } else {
        pulses_on(capture, channel)
    }
}

/// A capture once an edge has come in.
pub open spec fn recorded(capture: Capture, edge: Edge) -> Capture {
    let in_window = within(edge.timestamp_ns, capture.start_ns, capture.end_ns);
    Capture {
        sequence: if in_window {
            Some(edge.seqno)
        } else {
            capture.sequence
        },
        overflow: capture.overflow || gap_before(capture.sequence, edge.seqno, in_window),
        one: pulses_after(capture, 1, edge),
        two: pulses_after(capture, 2, edge),
        three: pulses_after(capture, 3, edge),
        ..capture
    }
}

/// A capture after several edges.
pub open spec fn recorded_all(capture: Capture, edges: Seq<Edge>) -> Capture
    decreases edges.len(),
{
    if edges.len() == 0 {
        capture
    } else {
        recorded(recorded_all(capture, edges.drop_last()), edges.last())
    }
}

/// Whether an input has room to count another edge.
pub open spec fn takes(pulses: PulseWindow) -> bool {
    pulses.count < u64::MAX
}

/// Whether a capture can take an edge.
pub open spec fn admits(capture: Capture, edge: Edge) -> bool {
    within(edge.timestamp_ns, capture.start_ns, capture.end_ns) ==> {
        &&& edge.offset == pin_of_sensor(1) ==> takes(capture.one)
        &&& edge.offset == pin_of_sensor(2) ==> takes(capture.two)
        &&& edge.offset == pin_of_sensor(3) ==> takes(capture.three)
    }
}

/// Whether the windows of a capture have their times exactly if they have edges.
pub open spec fn consistent_capture(capture: Capture) -> bool {
    consistent(capture.one) && consistent(capture.two) && consistent(capture.three)
}

impl Capture {
    /// An empty capture of a window.
    pub fn open(start_ns: u64, end_ns: u64) -> (capture: Capture)
        ensures
            capture == opened(start_ns, end_ns),
            consistent_capture(capture),
    {
        Capture {
            start_ns,
            end_ns,
            sequence: None,
            overflow: false,
            one: PulseWindow::default(),
            two: PulseWindow::default(),
            three: PulseWindow::default(),
        }
    }

    /// Whether the capture can take an edge.
    pub fn can_record(&self, edge: &Edge) -> (yes: bool)
        ensures
            yes == admits(*self, *edge),
    {
        if edge.timestamp_ns < self.start_ns || edge.timestamp_ns >= self.end_ns {
            return true;
        }
        if edge.offset == 23 {
            self.one.count < u64::MAX
        } else if edge.offset == 8 {
            self.two.count < u64::MAX
        } else if edge.offset == 25 {
            self.three.count < u64::MAX
        } else {
            true
        }
    }

    /// Takes in an edge.
    pub fn record(&mut self, edge: &Edge)
        requires
            admits(*old(self), *edge),
            consistent_capture(*old(self)),
        ensures
            *final(self) == recorded(*old(self), *edge),
            consistent_capture(*final(self)),
    {
        let in_window: bool = edge.timestamp_ns >= self.start_ns && edge.timestamp_ns < self.end_ns;
        let mut sequence = self.sequence;
        let gap: bool = sequence_gap(&mut sequence, edge.seqno, in_window);
        self.sequence = sequence;
        self.overflow = self.overflow || gap;
        let start_ns: u64 = self.start_ns;
        let end_ns: u64 = self.end_ns;
        if edge.offset == 23 {
            self.one.push(edge.timestamp_ns, start_ns, end_ns);
        } else if edge.offset == 8 {
            self.two.push(edge.timestamp_ns, start_ns, end_ns);
        } else if edge.offset == 25 {
            self.three.push(edge.timestamp_ns, start_ns, end_ns);
        }
    }

    /// Whether a channel has a rate or a reason for having none.
    pub fn can_rate(&self, channel: u8) -> (yes: bool)
        requires
            1 <= channel <= 3,
        ensures
            yes == measurable(pulses_on(*self, channel), self.overflow),
    {
        if channel == 1 {
            self.one.is_measurable(self.overflow)
        } else if channel == 2 {
            self.two.is_measurable(self.overflow)
        } else {
            self.three.is_measurable(self.overflow)
        }
    }

    /// The rate of a channel.
    pub fn rate(&self, channel: u8) -> (rate: Result<PulseRate, SensorError>)
        requires
            1 <= channel <= 3,
            measurable(pulses_on(*self, channel), self.overflow),
        ensures
            rate_view(rate) == rate_of(pulses_on(*self, channel), self.overflow),
    {
        if channel == 1 {
            self.one.frequency(self.overflow)
        } else if channel == 2 {
            self.two.frequency(self.overflow)
        } else {
            self.three.frequency(self.overflow)
        }
    }
}

/// The times of the edges of a line within a window, in their order.
pub open spec fn times_on(edges: Seq<Edge>, pin: u32, start_ns: u64, end_ns: u64) -> Seq<u64>
    decreases edges.len(),
{
    if edges.len() == 0 {
        Seq::empty()
    } else {
        let times = times_on(edges.drop_last(), pin, start_ns, end_ns);
        if edges.last().offset == pin && within(edges.last().timestamp_ns, start_ns, end_ns) {
            times.push(edges.last().timestamp_ns)
        } else {
            times
        }
    }
}

/// A capture counts exactly the edges of a channel's own line that lie in the window, from
/// the first of them to the last: old and late edges, and those of other lines, do not count.
pub proof fn law_only_edges_in_the_window_count(
    start_ns: u64,
    end_ns: u64,
    edges: Seq<Edge>,
    channel: u8,
)
    requires
        1 <= channel <= 3,
        edges.len() <= u64::MAX,
    ensures
        ({
            let pulses = pulses_on(recorded_all(opened(start_ns, end_ns), edges), channel);
            let times = times_on(edges, pin_of_sensor(channel), start_ns, end_ns);
            &&& times.len() <= edges.len()
            &&& pulses.count == times.len()
            &&& times.len() == 0 ==> pulses == no_pulses()
            &&& times.len() > 0 ==> pulses.first_ns == Some(times.first()) && pulses.last_ns
                == Some(times.last())
        }),
    decreases edges.len(),
{
    if edges.len() > 0 {
        law_only_edges_in_the_window_count(start_ns, end_ns, edges.drop_last(), channel);
        lemma_window_is_fixed(opened(start_ns, end_ns), edges.drop_last());
    }
}

proof fn lemma_window_is_fixed(capture: Capture, edges: Seq<Edge>)
    ensures
        recorded_all(capture, edges).start_ns == capture.start_ns,
        recorded_all(capture, edges).end_ns == capture.end_ns,
    decreases edges.len(),
{
    if edges.len() > 0 {
        lemma_window_is_fixed(capture, edges.drop_last());
    }
}

/// An edge outside the window changes nothing, so a jump of the sequence numbers from an
/// old edge to the first one in the window is not taken for a gap.
pub proof fn law_edges_outside_the_window_change_nothing(capture: Capture, edge: Edge)
    requires
        !within(edge.timestamp_ns, capture.start_ns, capture.end_ns),
    ensures
        recorded(capture, edge) == capture,
{
}

/// The first edge in the window is never a gap if it carries a sequence number, and once a
/// gap was seen it stays seen.
pub proof fn law_gaps_stay_seen(capture: Capture, edge: Edge)
    ensures
        capture.overflow ==> recorded(capture, edge).overflow,
        capture.sequence is None && !capture.overflow && edge.seqno != 0 ==> !recorded(
            capture,
            edge,
        ).overflow,
{
}

/// A rate has a positive span and at least one period, and is only given without a gap.
pub proof fn law_rate_is_well_defined(pulses: PulseWindow, overflow: bool)
    requires
        measurable(pulses, overflow),
        rate_of(pulses, overflow) is Ok,
    ensures
        !overflow,
        rate_of(pulses, overflow)->Ok_0.pulses >= 1,
        rate_of(pulses, overflow)->Ok_0.span_ns >= 1,
        rate_of(pulses, overflow)->Ok_0.pulses + 1 == pulses.count,
{
}

/// The edges of a line from one time until another.
pub open spec fn edges_of(edges: Seq<Edge>, line: u32, from_ns: u64, until_ns: u64) -> Seq<Edge> {
    edges.filter(|edge: Edge| edge.offset == line && from_ns <= edge.timestamp_ns < until_ns)
}

/// The edges of all lines from one time until another.
pub open spec fn edges_between(edges: Seq<Edge>, from_ns: u64, until_ns: u64) -> Seq<Edge> {
    edges.filter(|edge: Edge| from_ns <= edge.timestamp_ns < until_ns)
}

/// Whether sequence numbers are missing: an edge has none, or one that does not follow that of
/// the edge before it. After the largest number comes zero, which is none.
pub open spec fn numbers_missing(edges: Seq<Edge>) -> bool {
    exists|k: int|
        0 <= k < edges.len() && ((#[trigger] edges[k]).seqno == 0 || k > 0 && edges[k].seqno != (
        edges[k - 1].seqno + 1) % 0x1_0000_0000)
}

proof fn lemma_own_times(edges: Seq<Edge>, line: u32, start_ns: u64, end_ns: u64)
    ensures
        times_on(edges, line, start_ns, end_ns) == edges_of(
            edges,
            line,
            start_ns,
            end_ns,
        ).map_values(|edge: Edge| edge.timestamp_ns),
    decreases edges.len(),
{
    reveal(Seq::filter);
    if edges.len() > 0 {
        lemma_own_times(edges.drop_last(), line, start_ns, end_ns);
    }
    assert(times_on(edges, line, start_ns, end_ns) =~= edges_of(
        edges,
        line,
        start_ns,
        end_ns,
    ).map_values(|edge: Edge| edge.timestamp_ns));
}

proof fn lemma_gaps(start_ns: u64, end_ns: u64, edges: Seq<Edge>)
    ensures
        ({
            let capture = recorded_all(opened(start_ns, end_ns), edges);
            let seen = edges_between(edges, start_ns, end_ns);
            &&& capture.overflow <==> numbers_missing(seen)
            &&& capture.sequence == if seen.len() > 0 {
                Some(seen.last().seqno)
            } else {
                None
            }
        }),
    decreases edges.len(),
{
    reveal(Seq::filter);
    if edges.len() > 0 {
        let earlier = edges.drop_last();
        lemma_gaps(start_ns, end_ns, earlier);
        lemma_window_is_fixed(opened(start_ns, end_ns), earlier);
        let before = edges_between(earlier, start_ns, end_ns);
        let seen = edges_between(edges, start_ns, end_ns);
        let last = edges.last();
        if start_ns <= last.timestamp_ns < end_ns {
            assert(seen == before.push(last));
            let n = before.len() as int;
            if numbers_missing(before) {
                let k = choose|k: int|
                    0 <= k < before.len() && ((#[trigger] before[k]).seqno == 0 || k > 0
                        && before[k].seqno != (before[k - 1].seqno + 1) % 0x1_0000_0000);
                assert(seen[k] == before[k]);
                assert(numbers_missing(seen));
            }
            assert(seen[n] == last);
            if n > 0 {
                assert(seen[n - 1] == before.last());
                assert(next_number(before.last().seqno) == (before.last().seqno + 1)
                    % 0x1_0000_0000);
            }
            if numbers_missing(seen) && !numbers_missing(before) {
                let k = choose|k: int|
                    0 <= k < seen.len() && ((#[trigger] seen[k]).seqno == 0 || k > 0
                        && seen[k].seqno != (seen[k - 1].seqno + 1) % 0x1_0000_0000);
                if k < n {
                    assert(before[k] == seen[k]);
                    assert(k > 0 ==> before[k - 1] == seen[k - 1]);
                }
                assert(k == n);
            }
        } else {
            assert(seen == before);
        }
    }
}

/// The frequency that a window gives for a channel, from the edges as they came in. Channels 1,
/// 2 and 3 are the lines 23, 8 and 25. Where sequence numbers are missing, on whatever line,
/// there is none; otherwise the edges of the channel's line decide.
pub proof fn law_frequency_of_the_edges(
    start_ns: u64,
    end_ns: u64,
    edges: Seq<Edge>,
    channel: u8,
)
    requires
        1 <= channel <= 3,
        edges.len() <= u64::MAX,
    ensures
        ({
            let capture = recorded_all(opened(start_ns, end_ns), edges);
            let line = seq![23u32, 8, 25][channel - 1];
            let own = edges_of(edges, line, start_ns, end_ns);
            let rate = rate_of(pulses_on(capture, channel), capture.overflow);
            &&& capture.overflow <==> numbers_missing(edges_between(edges, start_ns, end_ns))
            &&& capture.overflow ==> rate is Err && rate->Err_0 == ErrorView::Other(
                "GPIO edge sequence gap; possible overflow"@,
            )
            &&& !capture.overflow && own.len() == 0 ==> rate is Err && rate->Err_0 is NoPulses
            &&& !capture.overflow && own.len() == 1 ==> rate is Err
                && rate->Err_0 is InsufficientPulses
            &&& !capture.overflow && own.len() >= 2 && own.first().timestamp_ns
                == own.last().timestamp_ns ==> rate is Err && rate->Err_0 == ErrorView::Other(
                "duplicate pulse timestamps"@,
            )
            &&& !capture.overflow && own.len() >= 2 && own.first().timestamp_ns
                < own.last().timestamp_ns ==> rate is Ok && rate->Ok_0.pulses == own.len() - 1
                && rate->Ok_0.span_ns == own.last().timestamp_ns - own.first().timestamp_ns
        }),
{
    let line = seq![23u32, 8, 25][channel - 1];
    lemma_gaps(start_ns, end_ns, edges);
    lemma_own_times(edges, line, start_ns, end_ns);
    law_only_edges_in_the_window_count(start_ns, end_ns, edges, channel);
    assert(pin_of_sensor(channel) == line);
}

} // verus!
