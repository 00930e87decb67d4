//! The software pulse-width modulation of a pump output.
//!
//! A pulse is a row of periods: the output is raised for the share of the period that the
//! duty gives and lowered for the rest, until the deadline. Times count in nanoseconds from
//! the start of the pulse.
use vstd::prelude::*;

verus! {

/// The length of a period.
pub const PWM_PERIOD_NS: u64 = 10_000_000;

/// The output line of each pump channel.
pub open spec fn pin_of_pump(channel: u8) -> u32 {
    if channel == 1 {
        17
    } else if channel == 2 {
        27
    } else {
        22
    }
}

/// The output line of a pump channel.
pub fn pump_pin(channel: u8) -> (pin: u32)
    requires
        1 <= channel <= 3,
    ensures
        pin == pin_of_pump(channel),
{
    if channel == 1 {
        17
    } else if channel == 2 {
        27
    } else {
        22
    }
}

/// Where in its period a modulated output stands.
#[derive(Clone, Copy, Debug, PartialEq, Eq, Structural)]
pub enum PwmStage {
    /// Low, before a period begins.
    Idle,
    /// High, and not waited for yet.
    Raised,
    /// High, after its share of the period.
    Held,
    /// Low, and not waited for yet.
    Lowered,
    Done,
}

/// What to do with the output next.
#[derive(Clone, Copy, Debug, PartialEq, Eq, Structural)]
pub enum PwmAction {
    Raise,
    Lower,
    /// Wait for so many nanoseconds.
    Wait(u128),
    Stop,
}

/// A modulated output on its way through a pulse.
#[derive(Clone, Copy, Debug)]
pub struct Pwm {
    pub high_ns: u64,
    pub low_ns: u64,
    pub deadline_ns: u128,
    pub stage: PwmStage,
}

/// The time that is left until a deadline, and none after it.
pub open spec fn time_left(deadline_ns: u128, now_ns: u128) -> u128 {
    if now_ns < deadline_ns {
        (deadline_ns - now_ns) as u128
    } else {
        0
    }
}

/// The lesser of a share of the period and the time that is left.
pub open spec fn bounded_wait(share_ns: u64, left_ns: u128) -> u128 {
    if share_ns <= left_ns {
        share_ns as u128
    } else {
        left_ns
    }
}

/// What an output does at a time, and where it stands then.
pub open spec fn pwm_step(pwm: Pwm, now_ns: u128) -> (PwmStage, PwmAction) {
    let left = time_left(pwm.deadline_ns, now_ns);
    match pwm.stage {
        PwmStage::Idle => if left > 0 {
            (PwmStage::Raised, PwmAction::Raise)
        } else {
            (PwmStage::Done, PwmAction::Stop)
        },
        PwmStage::Raised => (PwmStage::Held, PwmAction::Wait(bounded_wait(pwm.high_ns, left))),
        PwmStage::Held => (PwmStage::Lowered, PwmAction::Lower),
        PwmStage::Lowered => if left > 0 {
            (PwmStage::Idle, PwmAction::Wait(bounded_wait(pwm.low_ns, left)))
        } else {
            (PwmStage::Done, PwmAction::Stop)
        },
        PwmStage::Done => (PwmStage::Done, PwmAction::Stop),
    }
}

fn wait_at_most(share_ns: u64, left_ns: u128) -> (wait_ns: u128)
    ensures
        wait_ns == bounded_wait(share_ns, left_ns),
{
    let share: u128 = share_ns as u128;
    if share <= left_ns {
        share
    } else {
        left_ns
    }
}

impl Pwm {
    /// A pulse at a duty for a time, about to begin.
    pub fn new(duty_percent: u8, duration_ms: u64) -> (pwm: Pwm)
        requires
            duty_percent <= 100,
        ensures
            pwm.high_ns == PWM_PERIOD_NS * duty_percent / 100,
            pwm.high_ns + pwm.low_ns == PWM_PERIOD_NS,
            pwm.deadline_ns == duration_ms * 1_000_000,
            pwm.stage == PwmStage::Idle,
    {
        let high_ns: u64 = PWM_PERIOD_NS * (duty_percent as u64) / 100;
        Pwm {
            high_ns,
            low_ns: PWM_PERIOD_NS - high_ns,
            deadline_ns: (duration_ms as u128) * 1_000_000,
            stage: PwmStage::Idle,
        }
    }

    /// Decides what the output does next, at a time.
    pub fn step(&mut self, now_ns: u128) -> (action: PwmAction)
        ensures
            (final(self).stage, action) == pwm_step(*old(self), now_ns),
            final(self).high_ns == old(self).high_ns,
            final(self).low_ns == old(self).low_ns,
            final(self).deadline_ns == old(self).deadline_ns,
    {
        let left: u128 = if now_ns < self.deadline_ns {
            self.deadline_ns - now_ns
        } else {
            0
        };
        match self.stage {
            PwmStage::Idle => {
                if left > 0 {
                    self.stage = PwmStage::Raised;
                    PwmAction::Raise
                } else {
                    self.stage = PwmStage::Done;
                    PwmAction::Stop
                }
            },
            PwmStage::Raised => {
                self.stage = PwmStage::Held;
                PwmAction::Wait(wait_at_most(self.high_ns, left))
            },
            PwmStage::Held => {
                self.stage = PwmStage::Lowered;
                PwmAction::Lower
            },
            PwmStage::Lowered => {
                if left > 0 {
                    self.stage = PwmStage::Idle;
                    PwmAction::Wait(wait_at_most(self.low_ns, left))
                } else {
                    self.stage = PwmStage::Done;
                    PwmAction::Stop
                }
            },
            PwmStage::Done => PwmAction::Stop,
        }
    }

    /// Ends the pulse wherever it stands, as when a level could not be set: the output is to be
    /// low, and nothing follows.
    pub fn give_up(&mut self) -> (action: PwmAction)
        ensures
            action == PwmAction::Lower,
            final(self).stage == PwmStage::Done,
            final(self).high_ns == old(self).high_ns,
            final(self).low_ns == old(self).low_ns,
            final(self).deadline_ns == old(self).deadline_ns,
    {
        self.stage = PwmStage::Done;
        PwmAction::Lower
    }
}

/// What an output is told.
pub enum PwmEvent {
    /// To take its next step, at a time.
    Step(u128),
    /// To give up.
    GiveUp,
}

/// What an output does on an event, and where it stands then.
pub open spec fn pwm_event(pwm: Pwm, event: PwmEvent) -> (PwmStage, PwmAction) {
    match event {
        PwmEvent::Step(now_ns) => pwm_step(pwm, now_ns),
        PwmEvent::GiveUp => (PwmStage::Done, PwmAction::Lower),
    }
}

/// An output after several events.
pub open spec fn told(pwm: Pwm, events: Seq<PwmEvent>) -> Pwm
    decreases events.len(),
{
    if events.len() == 0 {
        pwm
    } else {
        let before = told(pwm, events.drop_last());
        Pwm { stage: pwm_event(before, events.last()).0, ..before }
    }
}

/// The levels that are asked of the line over several events, in order: true where it is
/// raised and false where it is lowered.
pub open spec fn levels(pwm: Pwm, events: Seq<PwmEvent>) -> Seq<bool>
    decreases events.len(),
{
    if events.len() == 0 {
        Seq::empty()
    } else {
        let before = levels(pwm, events.drop_last());
        match pwm_event(told(pwm, events.drop_last()), events.last()).1 {
            PwmAction::Raise => before.push(true),
            PwmAction::Lower => before.push(false),
            _ => before,
        }
    }
}

/// Whether the line, which is low at first, was last asked to be high.
pub open spec fn output_high(pwm: Pwm, events: Seq<PwmEvent>) -> bool {
    levels(pwm, events).len() > 0 && levels(pwm, events).last()
}

/// A pulse that begins low ends low, whether it came to its end or was given up: the output is
/// high only between a raise and the next lowering, and never when the pulse is over.
pub proof fn law_output_is_low_when_done(pwm: Pwm, events: Seq<PwmEvent>)
    requires
        pwm.stage is Idle,
    ensures
        output_high(pwm, events) <==> (told(pwm, events).stage is Raised || told(
            pwm,
            events,
        ).stage is Held),
        told(pwm, events).stage is Done ==> !output_high(pwm, events),
    decreases events.len(),
{
    if events.len() > 0 {
        law_output_is_low_when_done(pwm, events.drop_last());
    }
}

/// Giving up ends a pulse at any point: the line is asked to be low last of all, and a step
/// after that asks nothing of it.
pub proof fn law_giving_up_ends_low(pwm: Pwm, events: Seq<PwmEvent>, now_ns: u128)
    ensures
        ({
            let given_up = events.push(PwmEvent::GiveUp);
            &&& told(pwm, given_up).stage is Done
            &&& levels(pwm, given_up) == levels(pwm, events).push(false)
            &&& !output_high(pwm, given_up)
            &&& pwm_step(told(pwm, given_up), now_ns) == (PwmStage::Done, PwmAction::Stop)
        }),
{
    assert(events.push(PwmEvent::GiveUp).drop_last() =~= events);
}

/// The line is never raised twice without being lowered between.
pub proof fn law_no_raise_follows_a_raise(pwm: Pwm, events: Seq<PwmEvent>, i: int)
    requires
        pwm.stage is Idle,
        0 <= i,
        i + 1 < levels(pwm, events).len(),
    ensures
        !(levels(pwm, events)[i] && levels(pwm, events)[i + 1]),
    decreases events.len(),
{
    let before = events.drop_last();
    law_output_is_low_when_done(pwm, before);
    if i + 1 < levels(pwm, before).len() {
        law_no_raise_follows_a_raise(pwm, before, i);
    }
}

/// A pulse whose steps all come at its deadline or later never raises the line.
pub proof fn law_nothing_is_raised_without_time(pwm: Pwm, events: Seq<PwmEvent>)
    requires
        pwm.stage is Idle,
        forall|k: int|
            0 <= k < events.len() ==> (#[trigger] events[k] matches PwmEvent::Step(now_ns)
                ==> now_ns >= pwm.deadline_ns),
    ensures
        told(pwm, events).stage is Idle || told(pwm, events).stage is Done,
        told(pwm, events).deadline_ns == pwm.deadline_ns,
        !levels(pwm, events).contains(true),
    decreases events.len(),
{
    if events.len() > 0 {
        let before = events.drop_last();
        assert forall|k: int| 0 <= k < before.len() implies (#[trigger] before[k] matches
            PwmEvent::Step(now_ns) ==> now_ns >= pwm.deadline_ns) by {
            assert(before[k] == events[k]);
        }
        law_nothing_is_raised_without_time(pwm, before);
        assert(events.last() == events[events.len() - 1]);
        let now = levels(pwm, events);
        let earlier = levels(pwm, before);
        assert(now == earlier || now == earlier.push(false));
        assert forall|i: int| 0 <= i < now.len() implies !now[i] by {
            if i < earlier.len() {
                assert(now[i] == earlier[i]);
                assert(!earlier.contains(true));
            }
        }
    }
}

/// A pulse of no length never raises the line, and stops at its first step.
pub proof fn law_pulse_of_no_length(pwm: Pwm, events: Seq<PwmEvent>, now_ns: u128)
    requires
        pwm.stage is Idle,
        pwm.deadline_ns == 0,
    ensures
        pwm_step(pwm, now_ns).1 is Stop,
        !levels(pwm, events).contains(true),
{
    law_nothing_is_raised_without_time(pwm, events);
}

/// A wait never reaches past the deadline and is at most the share of the period that it is
/// for; once the deadline is reached the output is not raised again.
pub proof fn law_waits_end_by_the_deadline(pwm: Pwm, now_ns: u128)
    ensures
        pwm_step(pwm, now_ns).1 matches PwmAction::Wait(wait) ==> (wait == 0 || now_ns + wait
            <= pwm.deadline_ns) && (pwm.stage is Raised ==> wait <= pwm.high_ns) && (
        pwm.stage is Lowered ==> wait <= pwm.low_ns),
        now_ns >= pwm.deadline_ns ==> pwm_step(pwm, now_ns).1 !is Raise,
        pwm_step(pwm, now_ns).1 is Stop && pwm.stage !is Done ==> now_ns >= pwm.deadline_ns,
{
}

/// What is raised is held for one wait, of no more than its share of the period, and then
/// lowered.
pub proof fn law_what_is_raised_is_lowered(pwm: Pwm, raised_ns: u128, then_ns: u128, last_ns: u128)
    requires
        pwm_step(pwm, raised_ns).1 is Raise,
    ensures
        ({
            let events = seq![PwmEvent::Step(raised_ns), PwmEvent::Step(then_ns)];
            let raised = Pwm { stage: pwm_step(pwm, raised_ns).0, ..pwm };
            let held = told(pwm, events);
            &&& pwm_step(raised, then_ns).1 matches PwmAction::Wait(wait)
            &&& wait <= pwm.high_ns
            &&& pwm_step(held, last_ns).1 is Lower
        }),
{
    let events = seq![PwmEvent::Step(raised_ns), PwmEvent::Step(then_ns)];
    assert(events.drop_last() =~= seq![PwmEvent::Step(raised_ns)]);
    assert(events.drop_last().drop_last() =~= Seq::<PwmEvent>::empty());
    reveal_with_fuel(told, 3);
}

/// Each pump output has its own line: 17, 27 and 22 for channels 1, 2 and 3.
pub proof fn law_pump_lines(channel: u8, pin: u32)
    requires
        1 <= channel <= 3,
        call_ensures(pump_pin, (channel,), pin),
    ensures
        pin == seq![17u32, 27, 22][channel - 1],
{
}

/// A pulse begins low, ends after its duration, and is high for as many hundredths of each ten
/// milliseconds as its duty has percent.
pub proof fn law_pulse_keeps_to_its_duty(duty_percent: u8, duration_ms: u64, pwm: Pwm)
    requires
        duty_percent <= 100,
        call_ensures(Pwm::new, (duty_percent, duration_ms), pwm),
    ensures
        pwm.high_ns == 100_000 * duty_percent,
        pwm.high_ns + pwm.low_ns == 10_000_000,
        pwm.deadline_ns == duration_ms * 1_000_000,
        pwm.stage is Idle,
{
}

/// How long is waited: for the whole share of the period, or until the deadline if that comes
/// first. Before the deadline a period begins with a raise and goes on after its low share.
pub proof fn law_waits_fill_the_shares(pwm: Pwm, now_ns: u128)
    requires
        now_ns < pwm.deadline_ns,
    ensures
        ({
            let action = pwm_step(pwm, now_ns).1;
            let after = pwm_step(pwm, now_ns).0;
            let share = if pwm.stage is Raised {
                pwm.high_ns
            } else {
                pwm.low_ns
            };
            &&& pwm.stage is Idle ==> action is Raise && after is Raised
            &&& pwm.stage is Held ==> action is Lower && after is Lowered
            &&& pwm.stage is Raised ==> action is Wait && after is Held
            &&& pwm.stage is Lowered ==> action is Wait && after is Idle
            &&& action is Wait && now_ns + share <= pwm.deadline_ns ==> action->Wait_0 == share
            &&& action is Wait && now_ns + share > pwm.deadline_ns ==> now_ns + action->Wait_0
                == pwm.deadline_ns
        }),
{
}

/// From the deadline on nothing is waited for: an output that is high is lowered at once, and a
/// pulse that is low stops.
pub proof fn law_deadline_ends_the_pulse(pwm: Pwm, now_ns: u128)
    requires
        now_ns >= pwm.deadline_ns,
    ensures
        ({
            let action = pwm_step(pwm, now_ns).1;
            let after = pwm_step(pwm, now_ns).0;
            &&& pwm.stage is Idle || pwm.stage is Lowered ==> action is Stop && after is Done
            &&& pwm.stage is Raised ==> action == PwmAction::Wait(0) && after is Held
            &&& pwm.stage is Held ==> action is Lower && after is Lowered
            &&& pwm.stage is Done ==> action is Stop && after is Done
        }),
{
}

} // verus!
