//! The run of one pump request, from the checked command to the end of the pulse.
//!
//! A run asks for one thing at a time: the lock, the clock, the stored ledger, the write of
//! the reservation, and last the pulse itself. The caller performs what the phase names and
//! hands back how it went.
use vstd::prelude::*;

use crate::config::{Config, PumpConfig};
use crate::pump::{now_ms, reserve, validate_with_duration, Ledger, PumpCommand, PumpError};
use crate::pump::{PumpOutcome, Reservation};

verus! {

/// Drives one pump output.
pub trait PumpDriver {
    /// Runs a pump channel at a duty for a time, and leaves its output low.
    fn pulse(&self, channel: u8, duty_percent: u8, duration_ms: u64) -> Result<(), PumpError>;
}

/// What a run waits for.
pub enum PumpPhase {
    /// The lock that keeps two pulses apart.
    Lock,
    /// The wall clock.
    Clock,
    /// The stored ledger, for a request made at a time.
    ReadLedger { at_ms: u64 },
    /// That this ledger has been stored durably.
    WriteLedger { ledger: Ledger },
    /// The pulse itself.
    Pulse,
    /// Nothing more.
    Finished(Result<PumpOutcome, PumpError>),
}

/// What came of reading the stored ledger.
pub enum LedgerRead {
    /// None has been stored yet.
    Missing,
    Found(Ledger),
    /// What is stored is no ledger.
    Invalid,
    Unreadable,
}

/// How the thing that a run waited for went.
pub enum PumpEvent {
    Lock(Result<(), PumpError>),
    /// Milliseconds since the Unix epoch; none where the clock stands before it.
    Clock(Option<u128>),
    Ledger(LedgerRead),
    Write(Result<(), PumpError>),
    Pulse(Result<(), PumpError>),
}

/// A request on its way to a pulse.
pub struct PumpRun<'a> {
    command: &'a PumpCommand,
    pump: &'a PumpConfig,
    bypass_limits: bool,
    phase: PumpPhase,
}

/// What a run waits for, with a ledger as its view.
pub enum PhaseView {
    Lock,
    Clock,
    ReadLedger(u64),
    WriteLedger(crate::pump::LedgerView),
    Pulse,
    Finished(Result<PumpOutcome, PumpError>),
}

impl View for PumpPhase {
    type V = PhaseView;

    open spec fn view(&self) -> PhaseView {
        match *self {
            PumpPhase::Lock => PhaseView::Lock,
            PumpPhase::Clock => PhaseView::Clock,
            PumpPhase::ReadLedger { at_ms } => PhaseView::ReadLedger(at_ms),
            PumpPhase::WriteLedger { ledger } => PhaseView::WriteLedger(ledger@),
            PumpPhase::Pulse => PhaseView::Pulse,
            PumpPhase::Finished(result) => PhaseView::Finished(result),
        }
    }
}

/// A request, the limits it is held to and what its run waits for.
pub struct RunView {
    pub command: PumpCommand,
    pub pump: PumpConfig,
    pub bypass_limits: bool,
    pub phase: PhaseView,
}

impl<'a> View for PumpRun<'a> {
    type V = RunView;

    closed spec fn view(&self) -> RunView {
        RunView {
            command: *self.command,
            pump: *self.pump,
            bypass_limits: self.bypass_limits,
            phase: self.phase@,
        }
    }
}

/// The ledger that reading gives, where it gives one.
pub open spec fn ledger_read(read: LedgerRead) -> Result<crate::pump::LedgerView, PumpError> {
    match read {
        LedgerRead::Missing => Ok(crate::pump::empty_ledger()),
        LedgerRead::Found(ledger) => Ok(ledger@),
        LedgerRead::Invalid => Err(PumpError::StateInvalid),
        LedgerRead::Unreadable => Err(PumpError::StateUnreadable),
    }
}

/// What a run waits for once it knows the ledger at a time.
pub open spec fn phase_after_ledger(
    run: RunView,
    ledger: crate::pump::LedgerView,
    at_ms: u64,
) -> PhaseView {
    match crate::pump::reservation(
        ledger,
        crate::pump::entry_for(run.command, at_ms),
        run.pump.max_total_ms_per_24h,
        run.bypass_limits,
    ) {
        crate::pump::ReservationView::Duplicate => PhaseView::Finished(Ok(PumpOutcome::Duplicate)),
        crate::pump::ReservationView::OverBudget => PhaseView::Finished(
            Err(PumpError::BudgetReached),
        ),
        crate::pump::ReservationView::Granted(stored) => PhaseView::WriteLedger(stored),
    }
}

/// What a run waits for after an event. An event that is not waited for changes nothing,
/// and the first failure ends the run.
pub open spec fn next_phase(run: RunView, event: PumpEvent) -> PhaseView {
    match (run.phase, event) {
        (PhaseView::Lock, PumpEvent::Lock(result)) => match result {
            Ok(_) => PhaseView::Clock,
            Err(error) => PhaseView::Finished(Err(error)),
        },
        (PhaseView::Clock, PumpEvent::Clock(since_epoch_ms)) => match since_epoch_ms {
            None => PhaseView::Finished(Err(PumpError::ClockBeforeEpoch)),
            Some(ms) => if ms <= u64::MAX {
                PhaseView::ReadLedger(ms as u64)
            } else {
                PhaseView::Finished(Err(PumpError::ClockOutOfRange))
            },
        },
        (PhaseView::ReadLedger(at_ms), PumpEvent::Ledger(read)) => match ledger_read(read) {
            Ok(ledger) => phase_after_ledger(run, ledger, at_ms),
            Err(error) => PhaseView::Finished(Err(error)),
        },
        (PhaseView::WriteLedger(_), PumpEvent::Write(result)) => match result {
            Ok(_) => PhaseView::Pulse,
            Err(error) => PhaseView::Finished(Err(error)),
        },
        (PhaseView::Pulse, PumpEvent::Pulse(result)) => match result {
            Ok(_) => PhaseView::Finished(Ok(PumpOutcome::Completed)),
            Err(error) => PhaseView::Finished(Err(error)),
        },
        (phase, _) => phase,
    }
}

/// A run after an event.
pub open spec fn advanced(run: RunView, event: PumpEvent) -> RunView {
    RunView { phase: next_phase(run, event), ..run }
}

/// A run after several events.
pub open spec fn advanced_by(run: RunView, events: Seq<PumpEvent>) -> RunView
    decreases events.len(),
{
    if events.len() == 0 {
        run
    } else {
        advanced(advanced_by(run, events.drop_last()), events.last())
    }
}

/// How many pulses were run in the course of several events.
pub open spec fn pulses_in(run: RunView, events: Seq<PumpEvent>) -> nat
    decreases events.len(),
{
    if events.len() == 0 {
        0
    } else {
        pulses_in(run, events.drop_last()) + if advanced_by(run, events.drop_last()).phase is Pulse
            && events.last() is Pulse {
            1
        } else {
            0nat
        }
    }
}

/// Whether a request made on this machine is freed from the configured limits.
pub open spec fn local_debug(config: Config) -> bool {
    config.pump matches Some(pump) && pump.debug_mode
}

/// The run of a command that is not refused.
pub open spec fn begun(
    config: Config,
    command: PumpCommand,
    bypass_limits: bool,
) -> Result<RunView, PumpError> {
    match crate::pump::refusal(config, command, bypass_limits) {
        Some(error) => Err(error),
        None => Ok(
            RunView { command, pump: config.pump->Some_0, bypass_limits, phase: PhaseView::Lock },
        ),
    }
}

/// Begins the run of a request that keeps to every configured limit, as all requests from
/// elsewhere do.
pub fn execute<'a>(config: &'a Config, command: &'a PumpCommand) -> (result: Result<
    PumpRun<'a>,
    PumpError,
>)
    ensures
        match result {
            Ok(run) => begun(*config, *command, false) == Ok::<RunView, PumpError>(run@),
            Err(error) => begun(*config, *command, false) == Err::<RunView, PumpError>(error),
        },
{
    execute_with_budget(config, command, false)
}

/// Begins the run of a request made on this machine. In debug mode it bypasses the configured
/// duration and aggregate limits.
pub fn execute_local<'a>(config: &'a Config, command: &'a PumpCommand) -> (result: Result<
    PumpRun<'a>,
    PumpError,
>)
    ensures
        match result {
            Ok(run) => begun(*config, *command, local_debug(*config)) == Ok::<RunView, PumpError>(
                run@,
            ),
            Err(error) => begun(*config, *command, local_debug(*config)) == Err::<
                RunView,
                PumpError,
            >(error),
        },
{
    let debug: bool = match &config.pump {
        Some(pump) => pump.debug_mode,
        None => false,
    };
    execute_with_budget(config, command, debug)
}

/// Begins the run of a request, with or without the configured limits.
pub fn execute_with_budget<'a>(
    config: &'a Config,
    command: &'a PumpCommand,
    local_debug: bool,
) -> (result: Result<PumpRun<'a>, PumpError>)
    ensures
        match result {
            Ok(run) => begun(*config, *command, local_debug) == Ok::<RunView, PumpError>(run@),
            Err(error) => begun(*config, *command, local_debug) == Err::<RunView, PumpError>(error),
        },
{
    match validate_with_duration(config, command, local_debug) {
        Err(error) => Err(error),
        Ok(pump) => Ok(
            PumpRun { command, pump, bypass_limits: local_debug, phase: PumpPhase::Lock },
        ),
    }
}

fn after_ledger(run: &PumpRun, ledger: &Ledger, at_ms: u64) -> (phase: PumpPhase)
    ensures
        phase@ == phase_after_ledger(run@, ledger@, at_ms),
{
    match reserve(run.pump, run.command, ledger, at_ms, run.bypass_limits) {
        Ok(Reservation::Duplicate) => PumpPhase::Finished(Ok(PumpOutcome::Duplicate)),
        Ok(Reservation::Granted(ledger)) => PumpPhase::WriteLedger { ledger },
        Err(error) => PumpPhase::Finished(Err(error)),
    }
}

impl<'a> PumpRun<'a> {
    /// What the run waits for.
    pub fn phase(&self) -> (phase: &PumpPhase)
        ensures
            phase@ == self@.phase,
    {
        &self.phase
    }

    /// The request that is run.
    pub fn command(&self) -> (command: &PumpCommand)
        ensures
            *command == self@.command,
    {
        self.command
    }

    /// Takes the run past an event.
    pub fn advance(&mut self, event: PumpEvent)
        ensures
            final(self)@ == advanced(old(self)@, event),
    {
        let next: Option<PumpPhase> = match (&self.phase, event) {
            (PumpPhase::Lock, PumpEvent::Lock(result)) => match result {
                Ok(_) => Some(PumpPhase::Clock),
                Err(error) => Some(PumpPhase::Finished(Err(error))),
            },
            (PumpPhase::Clock, PumpEvent::Clock(since_epoch_ms)) => match now_ms(since_epoch_ms) {
                Ok(at_ms) => Some(PumpPhase::ReadLedger { at_ms }),
                Err(error) => Some(PumpPhase::Finished(Err(error))),
            },
            (PumpPhase::ReadLedger { at_ms }, PumpEvent::Ledger(read)) => match read {
                LedgerRead::Missing => {
                    let empty = Ledger::default();
                    Some(after_ledger(&*self, &empty, *at_ms))
                },
                LedgerRead::Found(ledger) => Some(after_ledger(&*self, &ledger, *at_ms)),
                LedgerRead::Invalid => Some(PumpPhase::Finished(Err(PumpError::StateInvalid))),
                LedgerRead::Unreadable => Some(
                    PumpPhase::Finished(Err(PumpError::StateUnreadable)),
                ),
            },
            (PumpPhase::WriteLedger { ledger }, PumpEvent::Write(result)) => match result {
                Ok(_) => Some(PumpPhase::Pulse),
                Err(error) => Some(PumpPhase::Finished(Err(error))),
            },
            (PumpPhase::Pulse, PumpEvent::Pulse(result)) => match result {
                Ok(_) => Some(PumpPhase::Finished(Ok(PumpOutcome::Completed))),
                Err(error) => Some(PumpPhase::Finished(Err(error))),
            },
            _ => None,
        };
        if let Some(phase) = next {
            self.phase = phase;
        }
    }

    /// Runs the pulse that the run waits for, on a driver. In any other phase it does not
    /// touch the driver.
    pub fn drive<D: PumpDriver>(&mut self, driver: &D)
        ensures
            old(self)@.phase !is Pulse ==> final(self)@ == old(self)@,
            old(self)@.phase is Pulse ==> exists|result: Result<(), PumpError>|
                {
                    &&& #[trigger] call_ensures(
                        D::pulse,
                        (
                            driver,
                            old(self)@.command.channel,
                            old(self)@.command.duty_percent,
                            old(self)@.command.duration_ms,
                        ),
                        result,
                    )
                    &&& final(self)@ == advanced(old(self)@, PumpEvent::Pulse(result))
                },
    {
        if let PumpPhase::Pulse = self.phase {
            let result = driver.pulse(
                self.command.channel,
                self.command.duty_percent,
                self.command.duration_ms,
            );
            self.advance(PumpEvent::Pulse(result));
        }
    }
}

/// Whether a run can pulse now or later.
pub open spec fn before_pulse(run: RunView) -> bool {
    run.phase !is Pulse && run.phase !is Finished
}

proof fn lemma_fixed_parts(run: RunView, events: Seq<PumpEvent>)
    ensures
        advanced_by(run, events).command == run.command,
        advanced_by(run, events).pump == run.pump,
        advanced_by(run, events).bypass_limits == run.bypass_limits,
    decreases events.len(),
{
    if events.len() > 0 {
        lemma_fixed_parts(run, events.drop_last());
    }
}

/// A finished run stays as it ended, whatever is reported to it.
pub proof fn law_finished_run_stays_finished(run: RunView, events: Seq<PumpEvent>)
    requires
        run.phase is Finished,
    ensures
        advanced_by(run, events) == run,
        pulses_in(run, events) == 0,
    decreases events.len(),
{
    if events.len() > 0 {
        law_finished_run_stays_finished(run, events.drop_last());
    }
}

/// A pulse is waited for only once its reservation has been stored: some event before it
/// reported that the ledger with this request at its end was written.
pub proof fn law_pulse_follows_stored_reservation(run: RunView, events: Seq<PumpEvent>)
    requires
        run.phase is Lock,
    ensures
        advanced_by(run, events).phase is Pulse ==> exists|i: int|
            0 <= i < events.len() && stores_reservation(
                advanced_by(run, #[trigger] events.take(i)),
                events[i],
            ),
    decreases events.len(),
{
    if events.len() > 0 && advanced_by(run, events).phase is Pulse {
        let earlier = events.drop_last();
        assert(events.take(events.len() - 1) =~= earlier);
        lemma_fixed_parts(run, earlier);
        if advanced_by(run, earlier).phase is Pulse {
            law_pulse_follows_stored_reservation(run, earlier);
            let i = choose|i: int|
                0 <= i < earlier.len() && stores_reservation(
                    advanced_by(run, #[trigger] earlier.take(i)),
                    earlier[i],
                );
            assert(events.take(i) =~= earlier.take(i));
            assert(stores_reservation(advanced_by(run, events.take(i)), events[i]));
        } else {
            lemma_write_phase_is_granted(run, earlier);
            assert(stores_reservation(
                advanced_by(run, events.take(events.len() - 1)),
                events[events.len() - 1],
            ));
        }
    }
}

/// Whether a ledger ends with the request of a run.
pub open spec fn ends_with_request(ledger: crate::pump::LedgerView, run: RunView) -> bool {
    &&& ledger.entries.len() > 0
    &&& ledger.entries.last().request_id == run.command.request_id@
    &&& ledger.entries.last().duration_ms == run.command.duration_ms
}

/// Whether an event reports that the reservation of a run was stored: the ledger that was
/// written ends with the request of the run.
pub open spec fn stores_reservation(run: RunView, event: PumpEvent) -> bool {
    &&& event matches PumpEvent::Write(result) && result is Ok
    &&& run.phase matches PhaseView::WriteLedger(ledger) && ends_with_request(ledger, run)
}

proof fn lemma_write_phase_is_granted(run: RunView, events: Seq<PumpEvent>)
    requires
        run.phase is Lock,
    ensures
        advanced_by(run, events).phase matches PhaseView::WriteLedger(ledger) ==> ends_with_request(
            ledger,
            run,
        ),
    decreases events.len(),
{
    if events.len() > 0 {
        lemma_write_phase_is_granted(run, events.drop_last());
        lemma_fixed_parts(run, events.drop_last());
    }
}

/// A request pulses at most once, and is over as soon as it did. A completed request pulsed
/// once, a duplicate never.
pub proof fn law_at_most_one_pulse(run: RunView, events: Seq<PumpEvent>)
    requires
        run.phase is Lock,
    ensures
        pulses_in(run, events) <= 1,
        pulses_in(run, events) == 1 ==> advanced_by(run, events).phase is Finished,
        advanced_by(run, events).phase == PhaseView::Finished(Ok(PumpOutcome::Completed))
            ==> pulses_in(run, events) == 1,
        advanced_by(run, events).phase == PhaseView::Finished(Ok(PumpOutcome::Duplicate))
            ==> pulses_in(run, events) == 0,
    decreases events.len(),
{
    if events.len() > 0 {
        law_at_most_one_pulse(run, events.drop_last());
    }
}

/// Whether an event reports a failure.
pub open spec fn failed(event: PumpEvent) -> bool {
    match event {
        PumpEvent::Lock(result) => result is Err,
        PumpEvent::Clock(since_epoch_ms) => since_epoch_ms is None,
        PumpEvent::Ledger(read) => ledger_read(read) is Err,
        PumpEvent::Write(result) => result is Err,
        PumpEvent::Pulse(result) => result is Err,
    }
}

/// Whether a run waits for what an event reports.
pub open spec fn waits_for(phase: PhaseView, event: PumpEvent) -> bool {
    match event {
        PumpEvent::Lock(_) => phase is Lock,
        PumpEvent::Clock(_) => phase is Clock,
        PumpEvent::Ledger(_) => phase is ReadLedger,
        PumpEvent::Write(_) => phase is WriteLedger,
        PumpEvent::Pulse(_) => phase is Pulse,
    }
}

/// A failure on the way to the pulse ends the run with an error, and whatever follows, no
/// pulse is run.
pub proof fn law_failure_before_the_pulse_prevents_it(
    run: RunView,
    event: PumpEvent,
    later: Seq<PumpEvent>,
)
    requires
        before_pulse(run),
        waits_for(run.phase, event),
        failed(event),
    ensures
        advanced(run, event).phase matches PhaseView::Finished(result) && result is Err,
        advanced_by(advanced(run, event), later) == advanced(run, event),
        pulses_in(advanced(run, event), later) == 0,
{
    law_finished_run_stays_finished(advanced(run, event), later);
}

/// A run that is begun keeps to the limits: an enabled pump on confirmed hardware, an
/// enabled channel, a duty of at most 90 percent, and a duration within the configured
/// maximum, or within the fixed cutoff where a local request bypasses that in debug mode.
pub proof fn law_begun_run_is_within_limits(
    config: Config,
    command: PumpCommand,
    bypass_limits: bool,
    events: Seq<PumpEvent>,
)
    requires
        begun(config, command, bypass_limits) is Ok,
    ensures
        config.pump is Some && config.pump->Some_0.enabled,
        crate::config::confirmed_hardware(config),
        ({
            let run = advanced_by(begun(config, command, bypass_limits)->Ok_0, events);
            &&& run.command == command
            &&& config.pump->Some_0.channels@.contains(run.command.channel)
            &&& 1 <= run.command.duty_percent <= 90
            &&& 1 <= run.command.duration_ms
            &&& !bypass_limits ==> run.command.duration_ms <= config.pump->Some_0.max_duration_ms
            &&& bypass_limits ==> run.command.duration_ms <= crate::pump::MAX_DEBUG_PULSE_MS
        }),
{
    lemma_fixed_parts(begun(config, command, bypass_limits)->Ok_0, events);
}

/// A request whose identifier was ever granted ends as a duplicate and never pulses, whatever
/// the time and whoever asks.
pub proof fn law_rerun_is_a_duplicate(
    run: RunView,
    ledger: crate::pump::LedgerView,
    at_ms: u64,
    later: Seq<PumpEvent>,
)
    requires
        crate::pump::ever_granted(ledger, run.command.request_id@),
    ensures
        phase_after_ledger(run, ledger, at_ms) == PhaseView::Finished(Ok(PumpOutcome::Duplicate)),
        ({
            let after = RunView { phase: phase_after_ledger(run, ledger, at_ms), ..run };
            advanced_by(after, later) == after && pulses_in(after, later) == 0
        }),
{
    let after = RunView { phase: phase_after_ledger(run, ledger, at_ms), ..run };
    law_finished_run_stays_finished(after, later);
}

/// Once a run has stored its reservation, any later run of the same identifier that reads
/// that ledger back is a duplicate, whether the pulse itself succeeded or failed.
pub proof fn law_stored_request_is_never_run_again(
    run: RunView,
    ledger: crate::pump::LedgerView,
    at_ms: u64,
    again: RunView,
    again_at_ms: u64,
)
    requires
        phase_after_ledger(run, ledger, at_ms) is WriteLedger,
        again.command.request_id@ == run.command.request_id@,
    ensures
        phase_after_ledger(
            again,
            phase_after_ledger(run, ledger, at_ms)->WriteLedger_0,
            again_at_ms,
        ) == PhaseView::Finished(Ok(PumpOutcome::Duplicate)),
{
    crate::pump::law_granted_request_is_remembered(
        ledger,
        crate::pump::entry_for(run.command, at_ms),
        run.pump.max_total_ms_per_24h,
        run.bypass_limits,
        crate::pump::entry_for(again.command, again_at_ms),
        again.pump.max_total_ms_per_24h,
        again.bypass_limits,
    );
}

/// A request that meets no obstacle is carried out: once the lock is held, the clock is read and
/// the stored ledger too; if that grants the request, it is stored with the time of the clock,
/// then the pump runs, and with that the request is completed.
pub proof fn law_unhindered_request_is_completed(
    config: Config,
    command: PumpCommand,
    bypass_limits: bool,
    ms: u128,
    ledger: Ledger,
    missing: bool,
)
    requires
        crate::pump::refusal(config, command, bypass_limits) is None,
        ms <= u64::MAX,
        crate::pump::reservation(
            if missing {
                crate::pump::empty_ledger()
            } else {
                ledger@
            },
            crate::pump::entry_for(command, ms as u64),
            config.pump->Some_0.max_total_ms_per_24h,
            bypass_limits,
        ) is Granted,
    ensures
        ({
            let begun = begun(config, command, bypass_limits);
            let locked = advanced(begun->Ok_0, PumpEvent::Lock(Ok(())));
            let timed = advanced(locked, PumpEvent::Clock(Some(ms)));
            let read = advanced(
                timed,
                PumpEvent::Ledger(
                    if missing {
                        LedgerRead::Missing
                    } else {
                        LedgerRead::Found(ledger)
                    },
                ),
            );
            let written = advanced(read, PumpEvent::Write(Ok(())));
            let pulsed = advanced(written, PumpEvent::Pulse(Ok(())));
            &&& begun is Ok
            &&& begun->Ok_0.phase is Lock
            &&& locked.phase is Clock
            &&& timed.phase == PhaseView::ReadLedger(ms as u64)
            &&& read.phase is WriteLedger
            &&& read.phase->WriteLedger_0.entries.len() > 0
            &&& read.phase->WriteLedger_0.entries.last().request_id == command.request_id@
            &&& read.phase->WriteLedger_0.entries.last().at_ms == ms
            &&& read.phase->WriteLedger_0.entries.last().duration_ms == command.duration_ms
            &&& written.phase is Pulse
            &&& written.command == command
            &&& pulsed.phase == PhaseView::Finished(Ok(PumpOutcome::Completed))
        }),
{
}

/// A request is refused, or ends, with the error that it met: that of the lock, of the write or
/// of the pulse in their own words, and one of its own for a clock or a ledger that cannot be
/// used.
pub proof fn law_request_ends_with_the_error_it_met(
    run: RunView,
    error: PumpError,
    ms: u128,
)
    ensures
        run.phase is Lock ==> advanced(run, PumpEvent::Lock(Err(error))).phase
            == PhaseView::Finished(Err(error)),
        run.phase is WriteLedger ==> advanced(run, PumpEvent::Write(Err(error))).phase
            == PhaseView::Finished(Err(error)),
        run.phase is Pulse ==> advanced(run, PumpEvent::Pulse(Err(error))).phase
            == PhaseView::Finished(Err(error)),
        run.phase is Clock ==> advanced(run, PumpEvent::Clock(None)).phase == PhaseView::Finished(
            Err(PumpError::ClockBeforeEpoch),
        ),
        run.phase is Clock && ms > u64::MAX ==> advanced(run, PumpEvent::Clock(Some(ms))).phase
            == PhaseView::Finished(Err(PumpError::ClockOutOfRange)),
        run.phase is ReadLedger ==> advanced(
            run,
            PumpEvent::Ledger(LedgerRead::Invalid),
        ).phase == PhaseView::Finished(Err(PumpError::StateInvalid)),
        run.phase is ReadLedger ==> advanced(
            run,
            PumpEvent::Ledger(LedgerRead::Unreadable),
        ).phase == PhaseView::Finished(Err(PumpError::StateUnreadable)),
{
}

/// A request that is over budget or was run before ends without a pulse, and says so.
pub proof fn law_ungranted_request_ends(run: RunView, ledger: Ledger, at_ms: u64)
    requires
        run.phase == PhaseView::ReadLedger(at_ms),
    ensures
        ({
            let after = advanced(run, PumpEvent::Ledger(LedgerRead::Found(ledger)));
            let answer = crate::pump::reservation(
                ledger@,
                crate::pump::entry_for(run.command, at_ms),
                run.pump.max_total_ms_per_24h,
                run.bypass_limits,
            );
            &&& answer is Duplicate ==> after.phase == PhaseView::Finished(
                Ok(PumpOutcome::Duplicate),
            )
            &&& answer is OverBudget ==> after.phase == PhaseView::Finished(
                Err(PumpError::BudgetReached),
            )
        }),
{
}

/// Requests from elsewhere keep to the limits, debug mode or not; a local one is freed from them
/// exactly in debug mode.
pub proof fn law_only_local_debug_is_free_of_limits(
    config: Config,
    command: PumpCommand,
    remote: Result<PumpRun<'_>, PumpError>,
    local: Result<PumpRun<'_>, PumpError>,
)
    requires
        call_ensures(execute, (&config, &command), remote),
        call_ensures(execute_local, (&config, &command), local),
    ensures
        remote matches Ok(run) ==> !run@.bypass_limits && run@.command == command
            && command.duration_ms <= config.pump->Some_0.max_duration_ms,
        local matches Ok(run) ==> run@.bypass_limits == config.pump->Some_0.debug_mode
            && run@.command == command && (command.duration_ms
            <= config.pump->Some_0.max_duration_ms || config.pump->Some_0.debug_mode
            && command.duration_ms <= 300_000),
        remote matches Err(error) ==> crate::pump::refusal(config, command, false) == Some(error),
{
}

} // verus!
