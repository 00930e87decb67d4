//! Bounded, manual pump pulses. No sensor reading starts a pump.
//!
//! A pulse runs through fixed phases: the command is checked, a lock is taken, the clock
//! and the ledger are read, the duration is reserved in the ledger, and only then the
//! output is driven. [`crate::pulse`] decides what comes next; the caller performs it.
use vstd::prelude::*;

use crate::config::{confirmed_hardware, Config, PumpConfig};
use crate::text::{identifier, is_identifier, same_text};
use vstd::string::*;

verus! {

/// The milliseconds of a day.
pub const DAY_MS: u64 = 86_400_000;

/// A typo in a manual debug command must still have a finite hardware cutoff.
pub const MAX_DEBUG_PULSE_MS: u64 = 300_000;

/// A requested pulse.
#[derive(Clone, Debug)]
pub struct PumpCommand {
    pub request_id: String,
    pub channel: u8,
    pub duty_percent: u8,
    pub duration_ms: u64,
}

/// How a pulse request ended.
#[derive(Clone, Copy, Debug, PartialEq, Eq, Structural)]
pub enum PumpOutcome {
    Completed,
    Duplicate,
}

/// Why a pulse request was not carried out.
#[derive(Clone, Debug, PartialEq, Eq)]
pub enum PumpError {
    NotConfigured,
    Disabled,
    UnconfirmedHardware,
    ChannelNotEnabled,
    RequestId,
    Duty,
    Duration,
    BudgetReached,
    ClockBeforeEpoch,
    ClockOutOfRange,
    Busy,
    StateInvalid,
    StateUnreadable,
    /// A lock, a file or an output failed, in the words of whoever used it.
    Failed(String),
}

/// The words for a refused or failed request.
pub open spec fn pump_message(error: PumpError) -> Seq<char> {
    match error {
        PumpError::NotConfigured => "pump not configured"@,
        PumpError::Disabled => "pump disabled"@,
        PumpError::UnconfirmedHardware => "pump requires confirmed hardware"@,
        PumpError::ChannelNotEnabled => "pump channel not enabled"@,
        PumpError::RequestId =>
            "request_id must be 1..64 ASCII letters, digits, underscores or hyphens"@,
        PumpError::Duty => "duty_percent must be between 1 and 90"@,
        PumpError::Duration => "duration_ms exceeds configured maximum"@,
        PumpError::BudgetReached => "pump 24-hour duration limit reached"@,
        PumpError::ClockBeforeEpoch => "system clock precedes Unix epoch"@,
        PumpError::ClockOutOfRange => "system clock out of range"@,
        PumpError::Busy => "another pump pulse is running"@,
        PumpError::StateInvalid => "pump state invalid; refusing pulse"@,
        PumpError::StateUnreadable => "read pump state"@,
        PumpError::Failed(words) => words@,
    }
}

impl PumpError {
    /// The words for a refused or failed request.
    pub fn message(&self) -> (text: String)
        ensures
            text@ == pump_message(*self),
    {
        match self {
            PumpError::NotConfigured => "pump not configured".to_owned(),
            PumpError::Disabled => "pump disabled".to_owned(),
            PumpError::UnconfirmedHardware => "pump requires confirmed hardware".to_owned(),
            PumpError::ChannelNotEnabled => "pump channel not enabled".to_owned(),
            PumpError::RequestId =>
                "request_id must be 1..64 ASCII letters, digits, underscores or hyphens".to_owned(),
            PumpError::Duty => "duty_percent must be between 1 and 90".to_owned(),
            PumpError::Duration => "duration_ms exceeds configured maximum".to_owned(),
            PumpError::BudgetReached => "pump 24-hour duration limit reached".to_owned(),
            PumpError::ClockBeforeEpoch => "system clock precedes Unix epoch".to_owned(),
            PumpError::ClockOutOfRange => "system clock out of range".to_owned(),
            PumpError::Busy => "another pump pulse is running".to_owned(),
            PumpError::StateInvalid => "pump state invalid; refusing pulse".to_owned(),
            PumpError::StateUnreadable => "read pump state".to_owned(),
            PumpError::Failed(words) => words.clone(),
        }
    }
}

/// An identifier of at most 64 characters.
pub open spec fn request_id(id: Seq<char>) -> bool {
    identifier(id) && id.len() <= 64
}

/// Whether a text may identify a request.
pub fn valid_id(id: &str) -> (yes: bool)
    ensures
        yes == request_id(id@),
{
    is_identifier(id) && id.unicode_len() <= 64
}

/// The longest pulse a request may ask for.
pub open spec fn longest_pulse(pump: PumpConfig, local_debug: bool) -> u64 {
    if local_debug {
        MAX_DEBUG_PULSE_MS
    } else {
        pump.max_duration_ms
    }
}

/// Why a command is refused before anything is touched, if it is.
pub open spec fn refusal(config: Config, command: PumpCommand, local_debug: bool) -> Option<
    PumpError,
> {
    match config.pump {
        None => Some(PumpError::NotConfigured),
        Some(pump) => if !pump.enabled {
            Some(PumpError::Disabled)
        } else if !confirmed_hardware(config) {
            Some(PumpError::UnconfirmedHardware)
        } else if !pump.channels@.contains(command.channel) {
            Some(PumpError::ChannelNotEnabled)
        } else if !request_id(command.request_id@) {
            Some(PumpError::RequestId)
        } else if !(1 <= command.duty_percent <= 90) {
            Some(PumpError::Duty)
        } else if !(1 <= command.duration_ms <= longest_pulse(pump, local_debug)) {
            Some(PumpError::Duration)
        } else {
            None
        },
    }
}

fn enabled_on(channels: &Vec<u8>, channel: u8) -> (yes: bool)
    ensures
        yes == channels@.contains(channel),
{
    let mut i: usize = 0;
    while i < channels.len()
        invariant
            i <= channels@.len(),
            forall|j: int| 0 <= j < i ==> channels@[j] != channel,
        decreases channels.len() - i,
    {
        if channels[i] == channel {
            assert(channels@[i as int] == channel);
            return true;
        }
        i += 1;
    }
    false
}

/// Checks a command against the limits that hold for every requester.
pub fn validate<'a>(config: &'a Config, command: &PumpCommand) -> (result: Result<
    &'a PumpConfig,
    PumpError,
>)
    ensures
        match result {
            Ok(pump) => refusal(*config, *command, false) is None && config.pump == Some(*pump),
            Err(error) => refusal(*config, *command, false) == Some(error),
        },
{
    validate_with_duration(config, command, false)
}

/// Checks a command. A local one in debug mode has the hard cutoff in place of the
/// configured limit on one pulse.
pub fn validate_with_duration<'a>(
    config: &'a Config,
    command: &PumpCommand,
    local_debug: bool,
) -> (result: Result<&'a PumpConfig, PumpError>)
    ensures
        match result {
            Ok(pump) => refusal(*config, *command, local_debug) is None && config.pump == Some(
                *pump,
            ),
            Err(error) => refusal(*config, *command, local_debug) == Some(error),
        },
{
    let pump = match &config.pump {
        Some(pump) => pump,
        None => return Err(PumpError::NotConfigured),
    };
    if !pump.enabled {
        return Err(PumpError::Disabled);
    }
    if !config.has_confirmed_hardware() {
        return Err(PumpError::UnconfirmedHardware);
    }
    if !enabled_on(&pump.channels, command.channel) {
        return Err(PumpError::ChannelNotEnabled);
    }
    if !valid_id(command.request_id.as_str()) {
        return Err(PumpError::RequestId);
    }
    if !(1 <= command.duty_percent && command.duty_percent <= 90) {
        return Err(PumpError::Duty);
    }
    let longest: u64 = if local_debug {
        MAX_DEBUG_PULSE_MS
    } else {
        pump.max_duration_ms
    };
    if !(1 <= command.duration_ms && command.duration_ms <= longest) {
        return Err(PumpError::Duration);
    }
    Ok(pump)
}

/// The wall clock in milliseconds, from its distance to the Unix epoch; none means that
/// the clock stands before it.
pub fn now_ms(since_epoch_ms: Option<u128>) -> (result: Result<u64, PumpError>)
    ensures
        result == match since_epoch_ms {
            None => Err::<u64, PumpError>(PumpError::ClockBeforeEpoch),
            Some(ms) => if ms <= u64::MAX {
                Ok::<u64, PumpError>(ms as u64)
            } else {
                Err::<u64, PumpError>(PumpError::ClockOutOfRange)
            },
        },
{
    match since_epoch_ms {
        None => Err(PumpError::ClockBeforeEpoch),
        Some(ms) => if ms <= u64::MAX as u128 {
            Ok(ms as u64)
        } else {
            Err(PumpError::ClockOutOfRange)
        },
    }
}

/// One reserved pulse.
#[derive(Clone, Debug)]
pub struct LedgerEntry {
    pub request_id: String,
    pub at_ms: u64,
    pub duration_ms: u64,
}

/// The pulses that were reserved, oldest first, and the identifiers of those that no longer
/// count for the budget.
#[derive(Clone, Debug)]
pub struct Ledger {
    pub entries: Vec<LedgerEntry>,
    pub past_ids: Vec<String>,
}

/// A reserved pulse, with its identifier as characters.
#[verifier::ext_equal]
pub struct EntryView {
    pub request_id: Seq<char>,
    pub at_ms: u64,
    pub duration_ms: u64,
}

impl View for LedgerEntry {
    type V = EntryView;

    open spec fn view(&self) -> EntryView {
        EntryView {
            request_id: self.request_id@,
            at_ms: self.at_ms,
            duration_ms: self.duration_ms,
        }
    }
}

/// A ledger, with its identifiers as characters.
#[verifier::ext_equal]
pub struct LedgerView {
    pub entries: Seq<EntryView>,
    pub past_ids: Seq<Seq<char>>,
}

/// The views of some entries.
pub open spec fn entry_views(entries: Seq<LedgerEntry>) -> Seq<EntryView> {
    entries.map_values(|entry: LedgerEntry| entry@)
}

/// The characters of some identifiers.
pub open spec fn id_views(ids: Seq<String>) -> Seq<Seq<char>> {
    ids.map_values(|id: String| id@)
}

impl View for Ledger {
    type V = LedgerView;

    open spec fn view(&self) -> LedgerView {
        LedgerView { entries: entry_views(self.entries@), past_ids: id_views(self.past_ids@) }
    }
}

/// A ledger before the first pulse.
pub open spec fn empty_ledger() -> LedgerView {
    LedgerView { entries: Seq::empty(), past_ids: Seq::empty() }
}

impl Default for Ledger {
    /// An empty ledger, as before the first pulse.
    fn default() -> (ledger: Ledger)
        ensures
            ledger@ == empty_ledger(),
    {
        let ledger = Ledger { entries: Vec::new(), past_ids: Vec::new() };
        assert(ledger@ =~= empty_ledger());
        ledger
    }
}

/// Whether an entry was made within a day before a time, or after it.
pub open spec fn recent(entry: EntryView, now: u64) -> bool {
    if entry.at_ms + DAY_MS <= u64::MAX {
        entry.at_ms + DAY_MS > now
    } else {
        u64::MAX > now
    }
}

/// The recent entries of a ledger, in their order.
pub open spec fn recent_entries(entries: Seq<EntryView>, now: u64) -> Seq<EntryView>
    decreases entries.len(),
{
    if entries.len() == 0 {
        entries
    } else if recent(entries.last(), now) {
        recent_entries(entries.drop_last(), now).push(entries.last())
    } else {
        recent_entries(entries.drop_last(), now)
    }
}

/// The identifiers of the entries that are not recent, in their order.
pub open spec fn aged_ids(entries: Seq<EntryView>, now: u64) -> Seq<Seq<char>>
    decreases entries.len(),
{
    if entries.len() == 0 {
        Seq::empty()
    } else if recent(entries.last(), now) {
        aged_ids(entries.drop_last(), now)
    } else {
        aged_ids(entries.drop_last(), now).push(entries.last().request_id)
    }
}

/// The sum of the durations.
pub open spec fn total_ms(entries: Seq<EntryView>) -> nat
    decreases entries.len(),
{
    if entries.len() == 0 {
        0
    } else {
        total_ms(entries.drop_last()) + entries.last().duration_ms as nat
    }
}

/// Whether some entry has an identifier.
pub open spec fn has_request(entries: Seq<EntryView>, id: Seq<char>) -> bool {
    exists|i: int| 0 <= i < entries.len() && (#[trigger] entries[i]).request_id == id
}

/// Whether an identifier was ever granted, however long ago.
pub open spec fn ever_granted(ledger: LedgerView, id: Seq<char>) -> bool {
    has_request(ledger.entries, id) || ledger.past_ids.contains(id)
}

/// A sum cut off at the largest 64-bit number.
pub open spec fn saturated(n: nat) -> u64 {
    if n <= u64::MAX {
        n as u64
    } else {
        u64::MAX
    }
}

/// What a ledger says of a request.
pub enum ReservationView {
    Duplicate,
    OverBudget,
    Granted(LedgerView),
}

/// What a ledger says of a request for `entry`: an identifier that was ever granted makes it
/// a duplicate, the recent durations and its own must fit the budget unless that is bypassed,
/// and a granted one is appended to the recent ones. Of the others the identifiers are kept.
pub open spec fn reservation(
    ledger: LedgerView,
    entry: EntryView,
    limit_ms: u64,
    bypass_daily_budget: bool,
) -> ReservationView {
    let kept = recent_entries(ledger.entries, entry.at_ms);
    if ever_granted(ledger, entry.request_id) {
        ReservationView::Duplicate
    } else if !bypass_daily_budget && saturated(total_ms(kept) + entry.duration_ms as nat)
        > limit_ms {
        ReservationView::OverBudget
    } else {
        ReservationView::Granted(
            LedgerView {
                entries: kept.push(entry),
                past_ids: ledger.past_ids + aged_ids(ledger.entries, entry.at_ms),
            },
        )
    }
}

/// What a ledger says of a request.
pub enum Reservation {
    Duplicate,
    /// The ledger to store before the output is driven.
    Granted(Ledger),
}

/// The entry that a command asks for.
pub open spec fn entry_for(command: PumpCommand, at_ms: u64) -> EntryView {
    EntryView { request_id: command.request_id@, at_ms, duration_ms: command.duration_ms }
}

fn is_recent(entry: &LedgerEntry, now: u64) -> (yes: bool)
    ensures
        yes == recent(entry@, now),
{
    entry.at_ms.saturating_add(DAY_MS) > now
}

fn copy_ids(ids: &Vec<String>) -> (copy: Vec<String>)
    ensures
        id_views(copy@) == id_views(ids@),
{
    let mut copy: Vec<String> = Vec::new();
    let mut i: usize = 0;
    assert(id_views(copy@) =~= id_views(ids@).take(0));
    while i < ids.len()
        invariant
            i <= ids@.len(),
            id_views(copy@) == id_views(ids@).take(i as int),
        decreases ids.len() - i,
    {
        let ghost before = id_views(copy@);
        copy.push(ids[i].clone());
        proof {
            assert(id_views(copy@) =~= before.push(id_views(ids@)[i as int]));
            assert(id_views(ids@).take(i + 1) =~= before.push(id_views(ids@)[i as int]));
        }
        i += 1;
    }
    assert(id_views(ids@).take(i as int) =~= id_views(ids@));
    copy
}

/// The ledger as it counts at a time: its recent entries, and the identifiers of all others.
fn keep_recent(ledger: &Ledger, now: u64) -> (kept: Ledger)
    ensures
        kept@.entries == recent_entries(ledger@.entries, now),
        kept@.past_ids == ledger@.past_ids + aged_ids(ledger@.entries, now),
{
    let mut kept = Ledger { entries: Vec::new(), past_ids: copy_ids(&ledger.past_ids) };
    let ghost all = ledger@.entries;
    let mut i: usize = 0;
    proof {
        assert(all.take(0) =~= Seq::<EntryView>::empty());
        assert(kept@.entries =~= Seq::<EntryView>::empty());
        assert(kept@.past_ids =~= ledger@.past_ids + aged_ids(all.take(0), now));
    }
    while i < ledger.entries.len()
        invariant
            all == ledger@.entries,
            i <= ledger.entries@.len(),
            kept@.entries == recent_entries(all.take(i as int), now),
            kept@.past_ids == ledger@.past_ids + aged_ids(all.take(i as int), now),
        decreases ledger.entries.len() - i,
    {
        let entry = &ledger.entries[i];
        proof {
            assert(all.take(i + 1).drop_last() =~= all.take(i as int));
            assert(all.take(i + 1).last() == entry@);
        }
        let ghost before = kept@;
        if is_recent(entry, now) {
            let copy = LedgerEntry {
                request_id: entry.request_id.clone(),
                at_ms: entry.at_ms,
                duration_ms: entry.duration_ms,
            };
            kept.entries.push(copy);
            assert(kept@.entries =~= before.entries.push(entry@));
        } else {
            kept.past_ids.push(entry.request_id.clone());
            assert(kept@.past_ids =~= before.past_ids.push(entry@.request_id));
            assert(kept@.past_ids =~= ledger@.past_ids + aged_ids(all.take(i + 1), now));
        }
        i += 1;
    }
    assert(all.take(i as int) =~= all);
    kept
}

fn knows_request(ledger: &Ledger, id: &str) -> (yes: bool)
    ensures
        yes == ever_granted(ledger@, id@),
{
    let mut i: usize = 0;
    while i < ledger.entries.len()
        invariant
            i <= ledger.entries@.len(),
            forall|j: int| 0 <= j < i ==> (#[trigger] ledger@.entries[j]).request_id != id@,
        decreases ledger.entries.len() - i,
    {
        if same_text(ledger.entries[i].request_id.as_str(), id) {
            assert(ledger@.entries[i as int].request_id == id@);
            return true;
        }
        i += 1;
    }
    let mut k: usize = 0;
    while k < ledger.past_ids.len()
        invariant
            k <= ledger.past_ids@.len(),
            forall|j: int| 0 <= j < k ==> #[trigger] ledger@.past_ids[j] != id@,
        decreases ledger.past_ids.len() - k,
    {
        if same_text(ledger.past_ids[k].as_str(), id) {
            assert(ledger@.past_ids[k as int] == id@);
            return true;
        }
        k += 1;
    }
    false
}

fn used_ms(ledger: &Ledger) -> (used: u64)
    ensures
        used == saturated(total_ms(ledger@.entries)),
{
    let mut used: u64 = 0;
    let ghost all = ledger@.entries;
    let mut i: usize = 0;
    assert(all.take(0) =~= Seq::<EntryView>::empty());
    while i < ledger.entries.len()
        invariant
            all == ledger@.entries,
            i <= ledger.entries@.len(),
            used == saturated(total_ms(all.take(i as int))),
        decreases ledger.entries.len() - i,
    {
        proof {
            assert(all.take(i + 1).drop_last() =~= all.take(i as int));
            assert(all.take(i + 1).last() == ledger.entries@[i as int]@);
        }
        used = used.saturating_add(ledger.entries[i].duration_ms);
        i += 1;
    }
    assert(all.take(i as int) =~= all);
    used
}

/// Asks a ledger for a pulse at a time.
pub fn reserve(
    pump: &PumpConfig,
    command: &PumpCommand,
    ledger: &Ledger,
    at_ms: u64,
    bypass_daily_budget: bool,
) -> (result: Result<Reservation, PumpError>)
    ensures
        match reservation(
            ledger@,
            entry_for(*command, at_ms),
            pump.max_total_ms_per_24h,
            bypass_daily_budget,
        ) {
            ReservationView::Duplicate => result matches Ok(Reservation::Duplicate),
            ReservationView::OverBudget => result == Err::<Reservation, PumpError>(
                PumpError::BudgetReached,
            ),
            ReservationView::Granted(stored) => result matches Ok(Reservation::Granted(ledger))
                && ledger@ == stored,
        },
        result matches Ok(Reservation::Granted(stored)) ==> {
            &&& stored.entries@.len() > 0
            &&& stored.entries@.last().request_id@ == command.request_id@
            &&& stored.entries@.last().at_ms == at_ms
            &&& stored.entries@.last().duration_ms == command.duration_ms
        },
{
    if knows_request(ledger, command.request_id.as_str()) {
        return Ok(Reservation::Duplicate);
    }
    let mut kept = keep_recent(ledger, at_ms);
    let used: u64 = used_ms(&kept);
    if !bypass_daily_budget && used.saturating_add(command.duration_ms)
        > pump.max_total_ms_per_24h {
        return Err(PumpError::BudgetReached);
    }
    let ghost before = kept@.entries;
    let entry = LedgerEntry {
        request_id: command.request_id.clone(),
        at_ms,
        duration_ms: command.duration_ms,
    };
    kept.entries.push(entry);
    assert(kept@.entries =~= before.push(entry_for(*command, at_ms)));
    Ok(Reservation::Granted(kept))
}

/// Whether an entry was made in the day that begins at a time.
pub open spec fn in_day(entry: EntryView, start: int) -> bool {
    start <= entry.at_ms < start + DAY_MS
}

/// The durations of the entries of one day.
pub open spec fn total_of_day(entries: Seq<EntryView>, start: int) -> nat
    decreases entries.len(),
{
    if entries.len() == 0 {
        0
    } else {
        total_of_day(entries.drop_last(), start) + if in_day(entries.last(), start) {
            entries.last().duration_ms as nat
        } else {
            0
        }
    }
}

/// A request for a pulse, and whether it bypasses the budget.
pub struct RequestView {
    pub entry: EntryView,
    pub bypass: bool,
}

/// The ledger after a history of requests, each of which either changes nothing or is
/// granted and stored.
pub open spec fn ledger_after(requests: Seq<RequestView>, limit_ms: u64) -> LedgerView
    decreases requests.len(),
{
    if requests.len() == 0 {
        empty_ledger()
    } else {
        let before = ledger_after(requests.drop_last(), limit_ms);
        match reservation(before, requests.last().entry, limit_ms, requests.last().bypass) {
            ReservationView::Granted(stored) => stored,
            _ => before,
        }
    }
}

/// Whether the last request of a history is granted.
pub open spec fn last_granted(requests: Seq<RequestView>, limit_ms: u64) -> bool {
    requests.len() > 0 && reservation(
        ledger_after(requests.drop_last(), limit_ms),
        requests.last().entry,
        limit_ms,
        requests.last().bypass,
    ) is Granted
}

/// The requests of a history that were granted.
pub open spec fn granted_of(requests: Seq<RequestView>, limit_ms: u64) -> Seq<EntryView>
    decreases requests.len(),
{
    if requests.len() == 0 {
        Seq::empty()
    } else if last_granted(requests, limit_ms) {
        granted_of(requests.drop_last(), limit_ms).push(requests.last().entry)
    } else {
        granted_of(requests.drop_last(), limit_ms)
    }
}

/// A history of a clock that never goes back and stays clear of the end of its range.
pub open spec fn in_time_order(requests: Seq<RequestView>) -> bool {
    &&& forall|i: int, j: int|
        0 <= i <= j < requests.len() ==> (#[trigger] requests[i]).entry.at_ms <= (
        #[trigger] requests[j]).entry.at_ms
    &&& forall|i: int|
        0 <= i < requests.len() ==> (#[trigger] requests[i]).entry.at_ms + DAY_MS <= u64::MAX
}

proof fn lemma_earlier_in_time_order(requests: Seq<RequestView>)
    requires
        requests.len() > 0,
        in_time_order(requests),
    ensures
        in_time_order(requests.drop_last()),
        requests.len() > 1 ==> requests.drop_last().last().entry.at_ms
            <= requests.last().entry.at_ms,
        requests.last().entry.at_ms + DAY_MS <= u64::MAX,
{
    let earlier = requests.drop_last();
    assert forall|i: int, j: int| 0 <= i <= j < earlier.len() implies (
    #[trigger] earlier[i]).entry.at_ms <= (#[trigger] earlier[j]).entry.at_ms by {
        assert(requests[i].entry.at_ms <= requests[j].entry.at_ms);
    }
    assert forall|i: int| 0 <= i < earlier.len() implies (#[trigger] earlier[i]).entry.at_ms
        + DAY_MS <= u64::MAX by {
        assert(requests[i].entry.at_ms + DAY_MS <= u64::MAX);
    }
    assert(requests[requests.len() - 1].entry.at_ms + DAY_MS <= u64::MAX);
    if requests.len() > 1 {
        assert(requests[requests.len() - 2].entry.at_ms <= requests[requests.len()
            - 1].entry.at_ms);
    }
}

proof fn lemma_recent_twice(entries: Seq<EntryView>, earlier: u64, later: u64)
    requires
        earlier <= later,
    ensures
        recent_entries(recent_entries(entries, earlier), later) == recent_entries(entries, later),
    decreases entries.len(),
{
    if entries.len() > 0 {
        lemma_recent_twice(entries.drop_last(), earlier, later);
        let kept = recent_entries(entries.drop_last(), earlier);
        if recent(entries.last(), earlier) {
            assert(kept.push(entries.last()).drop_last() =~= kept);
        }
    }
}

proof fn lemma_recent_push(entries: Seq<EntryView>, entry: EntryView, now: u64)
    ensures
        recent_entries(entries.push(entry), now) == if recent(entry, now) {
            recent_entries(entries, now).push(entry)
        } else {
            recent_entries(entries, now)
        },
{
    assert(entries.push(entry).drop_last() =~= entries);
}

proof fn lemma_day_within_recent(entries: Seq<EntryView>, start: int, now: u64)
    requires
        start <= now < start + DAY_MS,
        now + DAY_MS <= u64::MAX,
    ensures
        total_of_day(entries, start) <= total_ms(recent_entries(entries, now)),
    decreases entries.len(),
{
    if entries.len() > 0 {
        lemma_day_within_recent(entries.drop_last(), start, now);
        let rest = recent_entries(entries.drop_last(), now);
        assert(rest.push(entries.last()).drop_last() =~= rest);
    }
}

/// In a history in time order, what the ledger still counts at any later time is what was
/// granted and is recent by then.
proof fn lemma_ledger_counts_granted(requests: Seq<RequestView>, limit_ms: u64, now: u64)
    requires
        in_time_order(requests),
        requests.len() > 0 ==> requests.last().entry.at_ms <= now,
    ensures
        recent_entries(ledger_after(requests, limit_ms).entries, now) == recent_entries(
            granted_of(requests, limit_ms),
            now,
        ),
    decreases requests.len(),
{
    if requests.len() > 0 {
        let earlier = requests.drop_last();
        let entry = requests.last().entry;
        lemma_earlier_in_time_order(requests);
        lemma_ledger_counts_granted(earlier, limit_ms, now);
        let entries = ledger_after(earlier, limit_ms).entries;
        if last_granted(requests, limit_ms) {
            let kept = recent_entries(entries, entry.at_ms);
            lemma_recent_twice(entries, entry.at_ms, now);
            lemma_recent_push(kept, entry, now);
            lemma_recent_push(granted_of(earlier, limit_ms), entry, now);
        }
    }
}

/// A request that keeps to the budget is granted only if, together with it, all durations
/// granted in any 24 hours that it falls into stay within the budget. Pulses that bypassed
/// the budget count too.
pub proof fn law_budget_holds_at_each_grant(
    requests: Seq<RequestView>,
    limit_ms: u64,
    start: int,
)
    requires
        in_time_order(requests),
        limit_ms < u64::MAX,
        last_granted(requests, limit_ms),
        !requests.last().bypass,
        in_day(requests.last().entry, start),
    ensures
        total_of_day(granted_of(requests, limit_ms), start) <= limit_ms,
{
    let earlier = requests.drop_last();
    let entry = requests.last().entry;
    let granted = granted_of(earlier, limit_ms);
    lemma_earlier_in_time_order(requests);
    assert(granted.push(entry).drop_last() =~= granted);
    lemma_ledger_counts_granted(earlier, limit_ms, entry.at_ms);
    lemma_day_within_recent(granted, start, entry.at_ms);
}

/// Over any stretch of 24 hours, whenever it begins, the granted durations together stay
/// within the budget: for every history of requests that keep to the budget, on a clock
/// that does not go back.
pub proof fn law_rolling_budget(requests: Seq<RequestView>, limit_ms: u64, start: int)
    requires
        in_time_order(requests),
        limit_ms < u64::MAX,
        forall|i: int| 0 <= i < requests.len() ==> !(#[trigger] requests[i]).bypass,
    ensures
        total_of_day(granted_of(requests, limit_ms), start) <= limit_ms,
    decreases requests.len(),
{
    if requests.len() > 0 {
        let earlier = requests.drop_last();
        let entry = requests.last().entry;
        lemma_earlier_in_time_order(requests);
        assert forall|i: int| 0 <= i < earlier.len() implies !(#[trigger] earlier[i]).bypass by {
            assert(!requests[i].bypass);
        }
        law_rolling_budget(earlier, limit_ms, start);
        if last_granted(requests, limit_ms) {
            let granted = granted_of(earlier, limit_ms);
            assert(granted.push(entry).drop_last() =~= granted);
            assert(!requests[requests.len() - 1].bypass);
            if in_day(entry, start) {
                law_budget_holds_at_each_grant(requests, limit_ms, start);
            }
        }
    }
}

/// A request whose identifier stands in the ledger is a duplicate, however old: it is not
/// granted again.
pub proof fn law_repeated_request_is_a_duplicate(
    ledger: LedgerView,
    entry: EntryView,
    limit_ms: u64,
    bypass_daily_budget: bool,
    i: int,
)
    requires
        0 <= i < ledger.entries.len(),
        ledger.entries[i].request_id == entry.request_id,
    ensures
        reservation(ledger, entry, limit_ms, bypass_daily_budget) is Duplicate,
{
}

proof fn lemma_entries_are_kept_or_aged(entries: Seq<EntryView>, now: u64, id: Seq<char>)
    ensures
        has_request(entries, id) <==> has_request(recent_entries(entries, now), id) || aged_ids(
            entries,
            now,
        ).contains(id),
    decreases entries.len(),
{
    if entries.len() > 0 {
        let rest = entries.drop_last();
        let last = entries.last();
        lemma_entries_are_kept_or_aged(rest, now, id);
        lemma_one_more_request(rest, last, id);
        assert(rest.push(last) =~= entries);
        if recent(last, now) {
            lemma_one_more_request(recent_entries(rest, now), last, id);
        } else {
            lemma_one_more_id(aged_ids(rest, now), last.request_id, id);
        }
    }
}

proof fn lemma_one_more_request(entries: Seq<EntryView>, entry: EntryView, id: Seq<char>)
    ensures
        has_request(entries.push(entry), id) <==> has_request(entries, id) || entry.request_id
            == id,
{
    let after = entries.push(entry);
    if has_request(entries, id) {
        let i = choose|i: int|
            0 <= i < entries.len() && (#[trigger] entries[i]).request_id == id;
        assert(after[i].request_id == id);
    }
    if entry.request_id == id {
        assert(after[entries.len() as int].request_id == id);
    }
    if has_request(after, id) && entry.request_id != id {
        let i = choose|i: int| 0 <= i < after.len() && (#[trigger] after[i]).request_id == id;
        assert(entries[i].request_id == id);
    }
}

proof fn lemma_one_more_id(ids: Seq<Seq<char>>, last: Seq<char>, id: Seq<char>)
    ensures
        ids.push(last).contains(id) <==> ids.contains(id) || last == id,
{
    let after = ids.push(last);
    if ids.contains(id) {
        let i = choose|i: int| 0 <= i < ids.len() && ids[i] == id;
        assert(after[i] == id);
    }
    if last == id {
        assert(after[ids.len() as int] == id);
    }
    if after.contains(id) && last != id {
        let i = choose|i: int| 0 <= i < after.len() && after[i] == id;
        assert(ids[i] == id);
    }
}

proof fn lemma_joined_ids(one: Seq<Seq<char>>, other: Seq<Seq<char>>, id: Seq<char>)
    ensures
        (one + other).contains(id) <==> one.contains(id) || other.contains(id),
{
    let all = one + other;
    if one.contains(id) {
        let i = choose|i: int| 0 <= i < one.len() && one[i] == id;
        assert(all[i] == id);
    }
    if other.contains(id) {
        let i = choose|i: int| 0 <= i < other.len() && other[i] == id;
        assert(all[one.len() + i] == id);
    }
    if all.contains(id) {
        let i = choose|i: int| 0 <= i < all.len() && all[i] == id;
        if i < one.len() {
            assert(one[i] == id);
        } else {
            assert(other[i - one.len()] == id);
        }
    }
}

/// Storing a granted request forgets no identifier: the stored ledger knows exactly those
/// that were known before, and the new one.
pub proof fn law_stored_ledger_forgets_no_identifier(
    ledger: LedgerView,
    entry: EntryView,
    limit_ms: u64,
    bypass_daily_budget: bool,
    id: Seq<char>,
)
    requires
        reservation(ledger, entry, limit_ms, bypass_daily_budget) is Granted,
    ensures
        ever_granted(
            reservation(ledger, entry, limit_ms, bypass_daily_budget)->Granted_0,
            id,
        ) <==> ever_granted(ledger, id) || id == entry.request_id,
{
    let kept = recent_entries(ledger.entries, entry.at_ms);
    lemma_entries_are_kept_or_aged(ledger.entries, entry.at_ms, id);
    lemma_one_more_request(kept, entry, id);
    lemma_joined_ids(ledger.past_ids, aged_ids(ledger.entries, entry.at_ms), id);
}

proof fn lemma_ledger_knows_granted(requests: Seq<RequestView>, limit_ms: u64, id: Seq<char>)
    ensures
        ever_granted(ledger_after(requests, limit_ms), id) <==> has_request(
            granted_of(requests, limit_ms),
            id,
        ),
    decreases requests.len(),
{
    if requests.len() > 0 {
        let earlier = requests.drop_last();
        let last = requests.last();
        lemma_ledger_knows_granted(earlier, limit_ms, id);
        if last_granted(requests, limit_ms) {
            law_stored_ledger_forgets_no_identifier(
                ledger_after(earlier, limit_ms),
                last.entry,
                limit_ms,
                last.bypass,
                id,
            );
            lemma_one_more_request(granted_of(earlier, limit_ms), last.entry, id);
        }
    }
}

/// After any history of requests, on any clock, a request is a duplicate exactly when its
/// identifier was granted before, at whatever time and to whichever requester.
pub proof fn law_duplicate_means_granted_before(
    requests: Seq<RequestView>,
    limit_ms: u64,
    entry: EntryView,
    bypass_daily_budget: bool,
)
    ensures
        reservation(
            ledger_after(requests, limit_ms),
            entry,
            limit_ms,
            bypass_daily_budget,
        ) is Duplicate <==> has_request(granted_of(requests, limit_ms), entry.request_id),
{
    lemma_ledger_knows_granted(requests, limit_ms, entry.request_id);
}

/// No identifier is granted twice in any history of requests.
pub proof fn law_no_identifier_is_granted_twice(
    requests: Seq<RequestView>,
    limit_ms: u64,
    i: int,
    j: int,
)
    requires
        0 <= i < j < granted_of(requests, limit_ms).len(),
    ensures
        granted_of(requests, limit_ms)[i].request_id != granted_of(
            requests,
            limit_ms,
        )[j].request_id,
    decreases requests.len(),
{
    let earlier = requests.drop_last();
    let granted = granted_of(earlier, limit_ms);
    if j < granted.len() {
        law_no_identifier_is_granted_twice(earlier, limit_ms, i, j);
    } else {
        let last = requests.last();
        law_duplicate_means_granted_before(earlier, limit_ms, last.entry, last.bypass);
        if granted[i].request_id == last.entry.request_id {
            assert(has_request(granted, last.entry.request_id));
        }
    }
}

/// A granted request is remembered by the stored ledger, so asking it once more, at any time
/// and by any requester, finds the duplicate.
pub proof fn law_granted_request_is_remembered(
    ledger: LedgerView,
    entry: EntryView,
    limit_ms: u64,
    bypass_daily_budget: bool,
    again: EntryView,
    again_limit_ms: u64,
    again_bypass: bool,
)
    requires
        reservation(ledger, entry, limit_ms, bypass_daily_budget) is Granted,
        again.request_id == entry.request_id,
    ensures
        reservation(
            reservation(ledger, entry, limit_ms, bypass_daily_budget)->Granted_0,
            again,
            again_limit_ms,
            again_bypass,
        ) is Duplicate,
{
    law_stored_ledger_forgets_no_identifier(
        ledger,
        entry,
        limit_ms,
        bypass_daily_budget,
        again.request_id,
    );
}

/// The budget is all that debug mode bypasses: a bypassed request is granted exactly when
/// it is no duplicate.
pub proof fn law_bypass_skips_only_the_budget(
    ledger: LedgerView,
    entry: EntryView,
    limit_ms: u64,
)
    ensures
        reservation(ledger, entry, limit_ms, true) is Duplicate <==> reservation(
            ledger,
            entry,
            limit_ms,
            false,
        ) is Duplicate,
        reservation(ledger, entry, limit_ms, true) !is OverBudget,
        reservation(ledger, entry, limit_ms, false) is Granted ==> reservation(
            ledger,
            entry,
            limit_ms,
            true,
        ) == reservation(ledger, entry, limit_ms, false),
{
}

/// A request for a pulse as it is made: what it asks for, the time of the wall clock when it is
/// made, and whether it bypasses the budget.
pub struct Ask {
    pub command: PumpCommand,
    pub at_ms: u64,
    pub bypass: bool,
}

/// The answer to a request, by the ledger as it was stored before.
pub open spec fn answered(ledger: LedgerView, ask: Ask, limit_ms: u64) -> ReservationView {
    reservation(ledger, entry_for(ask.command, ask.at_ms), limit_ms, ask.bypass)
}

/// The ledger as it is stored after several requests.
pub open spec fn stored_after(asks: Seq<Ask>, limit_ms: u64) -> LedgerView
    decreases asks.len(),
{
    if asks.len() == 0 {
        empty_ledger()
    } else {
        let before = stored_after(asks.drop_last(), limit_ms);
        match answered(before, asks.last(), limit_ms) {
            ReservationView::Granted(stored) => stored,
            _ => before,
        }
    }
}

/// The answer to the last of several requests.
pub open spec fn last_answer(asks: Seq<Ask>, limit_ms: u64) -> ReservationView {
    answered(stored_after(asks.drop_last(), limit_ms), asks.last(), limit_ms)
}

/// How long the pumps were granted to run by requests that were made from one time until
/// another.
pub open spec fn pumped_between(asks: Seq<Ask>, limit_ms: u64, from: int, until: int) -> nat
    decreases asks.len(),
{
    if asks.len() == 0 {
        0
    } else {
        pumped_between(asks.drop_last(), limit_ms, from, until) + if last_answer(
            asks,
            limit_ms,
        ) is Granted && from <= asks.last().at_ms < until {
            asks.last().command.duration_ms as nat
        } else {
            0
        }
    }
}

/// Whether one of several requests was granted under an identifier.
pub open spec fn id_granted(asks: Seq<Ask>, limit_ms: u64, id: Seq<char>) -> bool
    decreases asks.len(),
{
    asks.len() > 0 && (id_granted(asks.drop_last(), limit_ms, id) || last_answer(
        asks,
        limit_ms,
    ) is Granted && asks.last().command.request_id@ == id)
}

/// Whether requests are made on a clock that never goes back, and well before the end of its
/// range.
pub open spec fn asked_in_order(asks: Seq<Ask>) -> bool {
    &&& forall|i: int, j: int|
        0 <= i <= j < asks.len() ==> (#[trigger] asks[i]).at_ms <= (#[trigger] asks[j]).at_ms
    &&& forall|i: int| 0 <= i < asks.len() ==> (#[trigger] asks[i]).at_ms + 86_400_000 <= u64::MAX
}

spec fn request_of(ask: Ask) -> RequestView {
    RequestView { entry: entry_for(ask.command, ask.at_ms), bypass: ask.bypass }
}

spec fn requests_of(asks: Seq<Ask>) -> Seq<RequestView> {
    asks.map_values(|ask: Ask| request_of(ask))
}

proof fn lemma_asks_are_requests(asks: Seq<Ask>, limit_ms: u64, start: int, id: Seq<char>)
    ensures
        stored_after(asks, limit_ms) == ledger_after(requests_of(asks), limit_ms),
        asks.len() > 0 ==> (last_answer(asks, limit_ms) is Granted <==> last_granted(
            requests_of(asks),
            limit_ms,
        )),
        pumped_between(asks, limit_ms, start, start + 86_400_000) == total_of_day(
            granted_of(requests_of(asks), limit_ms),
            start,
        ),
        id_granted(asks, limit_ms, id) <==> has_request(
            granted_of(requests_of(asks), limit_ms),
            id,
        ),
    decreases asks.len(),
{
    if asks.len() > 0 {
        let earlier = asks.drop_last();
        lemma_asks_are_requests(earlier, limit_ms, start, id);
        assert(requests_of(asks).drop_last() =~= requests_of(earlier));
        let granted = granted_of(requests_of(earlier), limit_ms);
        let entry = entry_for(asks.last().command, asks.last().at_ms);
        assert(granted.push(entry).drop_last() =~= granted);
        lemma_one_more_request(granted, entry, id);
    }
}

proof fn lemma_order_of_requests(asks: Seq<Ask>)
    requires
        asked_in_order(asks),
    ensures
        in_time_order(requests_of(asks)),
        asks.len() > 0 ==> asked_in_order(asks.drop_last()),
{
    let requests = requests_of(asks);
    assert forall|i: int, j: int| 0 <= i <= j < requests.len() implies (
    #[trigger] requests[i]).entry.at_ms <= (#[trigger] requests[j]).entry.at_ms by {
        assert(asks[i].at_ms <= asks[j].at_ms);
    }
    assert forall|i: int| 0 <= i < requests.len() implies (#[trigger] requests[i]).entry.at_ms
        + DAY_MS <= u64::MAX by {
        assert(asks[i].at_ms + 86_400_000 <= u64::MAX);
    }
    if asks.len() > 0 {
        let earlier = asks.drop_last();
        assert forall|i: int, j: int| 0 <= i <= j < earlier.len() implies (
        #[trigger] earlier[i]).at_ms <= (#[trigger] earlier[j]).at_ms by {
            assert(asks[i].at_ms <= asks[j].at_ms);
        }
        assert forall|i: int| 0 <= i < earlier.len() implies (#[trigger] earlier[i]).at_ms
            + 86_400_000 <= u64::MAX by {
            assert(asks[i].at_ms + 86_400_000 <= u64::MAX);
        }
    }
}

/// In any 24 hours, wherever they begin, the pumps run for no longer than the budget. The hours
/// count by the clock that the requests were made on.
pub proof fn law_no_day_of_the_clock_exceeds_the_budget(
    asks: Seq<Ask>,
    limit_ms: u64,
    start: int,
)
    requires
        asked_in_order(asks),
        limit_ms < u64::MAX,
        forall|i: int| 0 <= i < asks.len() ==> !(#[trigger] asks[i]).bypass,
    ensures
        pumped_between(asks, limit_ms, start, start + 86_400_000) <= limit_ms,
{
    let requests = requests_of(asks);
    lemma_order_of_requests(asks);
    lemma_asks_are_requests(asks, limit_ms, start, Seq::empty());
    assert forall|i: int| 0 <= i < requests.len() implies !(#[trigger] requests[i]).bypass by {
        assert(!asks[i].bypass);
    }
    law_rolling_budget(requests, limit_ms, start);
}

proof fn lemma_recent_is_the_last_day(entries: Seq<EntryView>, now: u64)
    requires
        forall|i: int|
            0 <= i < entries.len() ==> (#[trigger] entries[i]).at_ms <= now && entries[i].at_ms
                + DAY_MS <= u64::MAX,
    ensures
        total_ms(recent_entries(entries, now)) == total_of_day(entries, now - DAY_MS + 1),
    decreases entries.len(),
{
    if entries.len() > 0 {
        let rest = entries.drop_last();
        assert forall|i: int| 0 <= i < rest.len() implies (#[trigger] rest[i]).at_ms <= now
            && rest[i].at_ms + DAY_MS <= u64::MAX by {
            assert(entries[i].at_ms <= now);
        }
        lemma_recent_is_the_last_day(rest, now);
        assert(entries[entries.len() - 1].at_ms <= now);
        let kept = recent_entries(rest, now);
        assert(kept.push(entries.last()).drop_last() =~= kept);
    }
}

proof fn lemma_granted_are_asked(requests: Seq<RequestView>, limit_ms: u64, now: u64)
    requires
        in_time_order(requests),
        requests.len() > 0 ==> requests.last().entry.at_ms <= now,
    ensures
        forall|i: int|
            0 <= i < granted_of(requests, limit_ms).len() ==> (#[trigger] granted_of(
                requests,
                limit_ms,
            )[i]).at_ms <= now && granted_of(requests, limit_ms)[i].at_ms + DAY_MS <= u64::MAX,
    decreases requests.len(),
{
    if requests.len() > 0 {
        lemma_earlier_in_time_order(requests);
        lemma_granted_are_asked(requests.drop_last(), limit_ms, now);
        let earlier = granted_of(requests.drop_last(), limit_ms);
        let granted = granted_of(requests, limit_ms);
        assert forall|i: int| 0 <= i < granted.len() implies (#[trigger] granted[i]).at_ms <= now
            && granted[i].at_ms + DAY_MS <= u64::MAX by {
            if i < earlier.len() {
                assert(granted[i] == earlier[i]);
            }
        }
    }
}

/// When a request is granted, after any requests on a clock that does not go back: exactly if
/// none was granted under its identifier before, and what was granted in the 24 hours before
/// it leaves room for its duration, unless it bypasses the budget. A request that is not
/// granted for want of room is over budget, and one that was granted before is a duplicate.
pub proof fn law_granted_exactly_if_new_and_within_budget(asks: Seq<Ask>, limit_ms: u64)
    requires
        asks.len() > 0,
        asked_in_order(asks),
        limit_ms < u64::MAX,
    ensures
        ({
            let earlier = asks.drop_last();
            let ask = asks.last();
            let known = id_granted(earlier, limit_ms, ask.command.request_id@);
            let used = pumped_between(
                earlier,
                limit_ms,
                ask.at_ms - 86_400_000 + 1,
                ask.at_ms + 1,
            );
            let room = ask.bypass || used + ask.command.duration_ms <= limit_ms;
            &&& last_answer(asks, limit_ms) is Duplicate <==> known
            &&& last_answer(asks, limit_ms) is OverBudget <==> !known && !room
            &&& last_answer(asks, limit_ms) is Granted <==> !known && room
        }),
{
    let earlier = asks.drop_last();
    let ask = asks.last();
    let now = ask.at_ms;
    let requests = requests_of(earlier);
    lemma_order_of_requests(asks);
    lemma_order_of_requests(earlier);
    lemma_asks_are_requests(earlier, limit_ms, now - 86_400_000 + 1, ask.command.request_id@);
    if earlier.len() > 0 {
        assert(asks[earlier.len() - 1].at_ms <= asks[earlier.len() as int].at_ms);
        assert(requests.last().entry.at_ms <= now);
    }
    lemma_ledger_counts_granted(requests, limit_ms, now);
    lemma_granted_are_asked(requests, limit_ms, now);
    lemma_recent_is_the_last_day(granted_of(requests, limit_ms), now);
    lemma_ledger_knows_granted(requests, limit_ms, ask.command.request_id@);
}

proof fn lemma_recent_entries_are_entries(entries: Seq<EntryView>, now: u64)
    requires
        now < u64::MAX,
    ensures
        forall|i: int|
            0 <= i < recent_entries(entries, now).len() ==> (#[trigger] recent_entries(
                entries,
                now,
            )[i]).at_ms + 86_400_000 > now && entries.contains(recent_entries(entries, now)[i]),
        forall|j: int|
            0 <= j < entries.len() && (#[trigger] entries[j]).at_ms + 86_400_000 > now
                ==> recent_entries(entries, now).contains(entries[j]),
    decreases entries.len(),
{
    if entries.len() > 0 {
        let rest = entries.drop_last();
        let last = entries.last();
        lemma_recent_entries_are_entries(rest, now);
        let kept = recent_entries(rest, now);
        let all = recent_entries(entries, now);
        assert forall|i: int| 0 <= i < all.len() implies (#[trigger] all[i]).at_ms + 86_400_000
            > now && entries.contains(all[i]) by {
            if i < kept.len() {
                assert(all[i] == kept[i]);
                let j = choose|j: int| 0 <= j < rest.len() && rest[j] == kept[i];
                assert(entries[j] == all[i]);
            } else {
                assert(entries[entries.len() - 1] == all[i]);
            }
        }
        assert forall|j: int|
            0 <= j < entries.len() && (#[trigger] entries[j]).at_ms + 86_400_000
                > now implies all.contains(entries[j]) by {
            if j < rest.len() {
                assert(rest[j] == entries[j]);
                assert(kept.contains(rest[j]));
                let i = choose|i: int| 0 <= i < kept.len() && kept[i] == rest[j];
                assert(all[i] == entries[j]);
            } else {
                assert(all[kept.len() as int] == entries[j]);
            }
        }
    }
}

/// What is stored of a granted request: its identifier, the very time that it was made at and
/// its duration stand at the end, before them the earlier entries of the last 24 hours and no
/// others.
pub proof fn law_stored_entry_is_the_request(
    ledger: LedgerView,
    command: PumpCommand,
    at_ms: u64,
    limit_ms: u64,
    bypass: bool,
)
    requires
        at_ms < u64::MAX,
        reservation(ledger, entry_for(command, at_ms), limit_ms, bypass) is Granted,
    ensures
        ({
            let stored = reservation(
                ledger,
                entry_for(command, at_ms),
                limit_ms,
                bypass,
            )->Granted_0.entries;
            let n = stored.len() - 1;
            &&& n >= 0
            &&& stored[n].request_id == command.request_id@
            &&& stored[n].at_ms == at_ms
            &&& stored[n].duration_ms == command.duration_ms
            &&& forall|i: int|
                0 <= i < n ==> (#[trigger] stored[i]).at_ms + 86_400_000 > at_ms
                    && ledger.entries.contains(stored[i])
            &&& forall|j: int|
                0 <= j < ledger.entries.len() && (#[trigger] ledger.entries[j]).at_ms + 86_400_000
                    > at_ms ==> stored.take(n).contains(ledger.entries[j])
        }),
{
    let kept = recent_entries(ledger.entries, at_ms);
    let stored = reservation(ledger, entry_for(command, at_ms), limit_ms, bypass)->Granted_0.entries;
    lemma_recent_entries_are_entries(ledger.entries, at_ms);
    assert(stored.take(stored.len() - 1) =~= kept);
    assert forall|i: int| 0 <= i < stored.len() - 1 implies (#[trigger] stored[i]).at_ms
        + 86_400_000 > at_ms && ledger.entries.contains(stored[i]) by {
        assert(stored[i] == kept[i]);
    }
}

/// Which commands are carried out: those for an enabled pump on confirmed hardware, on one of
/// its channels, under an identifier of 1 to 64 letters, digits, underscores and hyphens, at
/// 1 to 90 percent, and for at least a millisecond and at most as long as the configuration
/// allows, or five minutes where a local request bypasses that.
pub proof fn law_command_is_accepted_exactly_within_limits(
    config: Config,
    command: PumpCommand,
    local_debug: bool,
)
    ensures
        refusal(config, command, local_debug) is None <==> {
            let id = command.request_id@;
            &&& config.pump is Some
            &&& config.pump->Some_0.enabled
            &&& config.hardware_confirmed
            &&& config.backend is Hardware
            &&& exists|i: int|
                0 <= i < config.pump->Some_0.channels@.len()
                    && config.pump->Some_0.channels@[i] == command.channel
            &&& 1 <= id.len() <= 64
            &&& forall|i: int|
                0 <= i < id.len() ==> ('a' <= #[trigger] id[i] <= 'z' || 'A' <= id[i] <= 'Z' || '0'
                    <= id[i] <= '9' || id[i] == '_' || id[i] == '-')
            &&& 1 <= command.duty_percent <= 90
            &&& 1 <= command.duration_ms
            &&& local_debug ==> command.duration_ms <= 300_000
            &&& !local_debug ==> command.duration_ms <= config.pump->Some_0.max_duration_ms
        },
{
    let id = command.request_id@;
    if identifier(id) {
        assert forall|i: int| 0 <= i < id.len() implies ('a' <= #[trigger] id[i] <= 'z' || 'A'
            <= id[i] <= 'Z' || '0' <= id[i] <= '9' || id[i] == '_' || id[i] == '-') by {
            assert(crate::text::identifier_char(id[i]));
        }
    }
}

/// A refused command is refused for the limit that it breaks.
pub proof fn law_refusal_names_a_broken_limit(
    config: Config,
    command: PumpCommand,
    local_debug: bool,
)
    ensures
        match refusal(config, command, local_debug) {
            None => true,
            Some(PumpError::NotConfigured) => config.pump is None,
            Some(PumpError::Disabled) => !config.pump->Some_0.enabled,
            Some(PumpError::UnconfirmedHardware) => !config.hardware_confirmed
                || config.backend !is Hardware,
            Some(PumpError::ChannelNotEnabled) => forall|i: int|
                0 <= i < config.pump->Some_0.channels@.len()
                    ==> config.pump->Some_0.channels@[i] != command.channel,
            Some(PumpError::RequestId) => command.request_id@.len() == 0
                || command.request_id@.len() > 64 || !identifier(command.request_id@),
            Some(PumpError::Duty) => command.duty_percent == 0 || command.duty_percent > 90,
            Some(PumpError::Duration) => command.duration_ms == 0 || local_debug
                && command.duration_ms > 300_000 || !local_debug && command.duration_ms
                > config.pump->Some_0.max_duration_ms,
            Some(_) => false,
        },
{
}

/// The time of a request is that of the wall clock in milliseconds since 1970; without one, or
/// beyond 64 bits, there is none.
pub proof fn law_requests_are_timed_by_the_clock(
    since_epoch_ms: Option<u128>,
    result: Result<u64, PumpError>,
)
    requires
        call_ensures(now_ms, (since_epoch_ms,), result),
    ensures
        since_epoch_ms is None ==> result is Err && result->Err_0 is ClockBeforeEpoch,
        since_epoch_ms is Some && since_epoch_ms->Some_0 > u64::MAX ==> result is Err
            && result->Err_0 is ClockOutOfRange,
        since_epoch_ms is Some && since_epoch_ms->Some_0 <= u64::MAX ==> result is Ok
            && result->Ok_0 == since_epoch_ms->Some_0,
{
}

/// How a ledger answers a request, whatever it holds: a request of a known identifier is a
/// duplicate, one that does not fit into the budget is refused, and any other one is stored with
/// its own identifier, time and duration.
pub proof fn law_ledger_answers_a_request(
    pump: PumpConfig,
    command: PumpCommand,
    ledger: Ledger,
    at_ms: u64,
    bypass: bool,
    result: Result<Reservation, PumpError>,
)
    requires
        at_ms < u64::MAX,
        pump.max_total_ms_per_24h < u64::MAX,
        call_ensures(reserve, (&pump, &command, &ledger, at_ms, bypass), result),
    ensures
        ({
            let known = (exists|i: int|
                0 <= i < ledger.entries@.len() && (#[trigger] ledger.entries@[i]).request_id@
                    == command.request_id@) || (exists|i: int|
                0 <= i < ledger.past_ids@.len() && (#[trigger] ledger.past_ids@[i])@
                    == command.request_id@);
            let used = day_total(ledger.entries@, at_ms as int);
            let over = !bypass && used + command.duration_ms > pump.max_total_ms_per_24h;
            &&& result is Ok && result->Ok_0 is Duplicate <==> known
            &&& result is Err <==> !known && over
            &&& result is Err ==> result->Err_0 is BudgetReached
            &&& result matches Ok(Reservation::Granted(stored)) ==> !known && !over
                && stored.entries@.last().request_id@ == command.request_id@
                && stored.entries@.last().at_ms == at_ms && stored.entries@.last().duration_ms
                == command.duration_ms
        }),
{
    lemma_day_total(ledger.entries@, at_ms);
    let id = command.request_id@;
    if has_request(ledger@.entries, id) {
        let i = choose|i: int|
            0 <= i < ledger@.entries.len() && (#[trigger] ledger@.entries[i]).request_id == id;
        assert(ledger.entries@[i].request_id@ == id);
    }
    if ledger@.past_ids.contains(id) {
        let i = choose|i: int| 0 <= i < ledger@.past_ids.len() && ledger@.past_ids[i] == id;
        assert(ledger.past_ids@[i]@ == id);
    }
    if exists|i: int|
        0 <= i < ledger.entries@.len() && (#[trigger] ledger.entries@[i]).request_id@ == id {
        let i = choose|i: int|
            0 <= i < ledger.entries@.len() && (#[trigger] ledger.entries@[i]).request_id@ == id;
        assert(ledger@.entries[i].request_id == id);
    }
    if exists|i: int| 0 <= i < ledger.past_ids@.len() && (#[trigger] ledger.past_ids@[i])@ == id {
        let i = choose|i: int|
            0 <= i < ledger.past_ids@.len() && (#[trigger] ledger.past_ids@[i])@ == id;
        assert(ledger@.past_ids[i] == id);
    }
}

/// The durations of the entries of the 24 hours before a time, and of any after it.
pub open spec fn day_total(entries: Seq<LedgerEntry>, now: int) -> nat
    decreases entries.len(),
{
    if entries.len() == 0 {
        0
    } else {
        day_total(entries.drop_last(), now) + if entries.last().at_ms + 86_400_000 > now {
            entries.last().duration_ms as nat
        } else {
            0
        }
    }
}

proof fn lemma_day_total(entries: Seq<LedgerEntry>, now: u64)
    requires
        now < u64::MAX,
    ensures
        day_total(entries, now as int) == total_ms(recent_entries(entry_views(entries), now)),
    decreases entries.len(),
{
    let views = entry_views(entries);
    if entries.len() > 0 {
        lemma_day_total(entries.drop_last(), now);
        assert(views.drop_last() =~= entry_views(entries.drop_last()));
        let kept = recent_entries(views.drop_last(), now);
        assert(kept.push(views.last()).drop_last() =~= kept);
    }
}

/// What a requester reads when no pulse is run.
pub proof fn law_words_for_refused_pulses()
    ensures
        pump_message(PumpError::NotConfigured) == "pump not configured"@,
        pump_message(PumpError::Disabled) == "pump disabled"@,
        pump_message(PumpError::UnconfirmedHardware) == "pump requires confirmed hardware"@,
        pump_message(PumpError::ChannelNotEnabled) == "pump channel not enabled"@,
        pump_message(PumpError::RequestId)
            == "request_id must be 1..64 ASCII letters, digits, underscores or hyphens"@,
        pump_message(PumpError::Duty) == "duty_percent must be between 1 and 90"@,
        pump_message(PumpError::Duration) == "duration_ms exceeds configured maximum"@,
        pump_message(PumpError::BudgetReached) == "pump 24-hour duration limit reached"@,
        pump_message(PumpError::ClockBeforeEpoch) == "system clock precedes Unix epoch"@,
        pump_message(PumpError::ClockOutOfRange) == "system clock out of range"@,
        pump_message(PumpError::Busy) == "another pump pulse is running"@,
        pump_message(PumpError::StateInvalid) == "pump state invalid; refusing pulse"@,
        pump_message(PumpError::StateUnreadable) == "read pump state"@,
{
}

} // verus!
