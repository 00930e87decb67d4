//! Readings that wait to be told, and how they age.
use vstd::prelude::*;
use vstd::string::*;

use crate::sensor::{millis, ReadingStatus, ReadingView, SensorReading};

verus! {

/// The readings of one sample, and when they were taken, in nanoseconds.
pub struct Batch {
    pub readings: Vec<SensorReading>,
    pub captured_at_ns: u128,
}

/// A number of milliseconds and some more, cut off at the largest 64-bit number.
pub open spec fn later_age(age_ms: u64, elapsed_ms: u64) -> u64 {
    if age_ms + elapsed_ms <= u64::MAX {
        (age_ms + elapsed_ms) as u64
    } else {
        u64::MAX
    }
}

/// A reading after some time. Once the sample is too old, its reading is stale and tells no
/// moisture.
pub open spec fn aged(reading: ReadingView, elapsed_ms: u64, stale_after_ms: u64) -> ReadingView {
    let age_ms = match reading.age_ms {
        Some(age) => Some(later_age(age, elapsed_ms)),
        None => None,
    };
    if elapsed_ms >= stale_after_ms {
        ReadingView {
            age_ms,
            status: ReadingStatus::Stale,
            moisture_percent: None,
            error: Some("last sensor snapshot is stale"@),
            ..reading
        }
    } else {
        ReadingView { age_ms, ..reading }
    }
}

/// The readings of a sample after some time.
pub open spec fn aged_all(
    readings: Seq<ReadingView>,
    elapsed_ms: u64,
    stale_after_ms: u64,
) -> Seq<ReadingView> {
    readings.map_values(|reading: ReadingView| aged(reading, elapsed_ms, stale_after_ms))
}

fn age_reading(reading: &SensorReading, elapsed_ms: u64, stale_after_ms: u64) -> (later:
    SensorReading)
    ensures
        later@ == aged(reading@, elapsed_ms, stale_after_ms),
{
    let age_ms: Option<u64> = match reading.age_ms {
        Some(age) => Some(age.saturating_add(elapsed_ms)),
        None => None,
    };
    if elapsed_ms >= stale_after_ms {
        SensorReading {
            channel: reading.channel,
            raw_hz: reading.raw_hz,
            moisture_percent: None,
            status: ReadingStatus::Stale,
            age_ms,
            error: Some("last sensor snapshot is stale".to_owned()),
        }
    } else {
        let error: Option<String> = match &reading.error {
            Some(words) => Some(words.clone()),
            None => None,
        };
        SensorReading {
            channel: reading.channel,
            raw_hz: reading.raw_hz,
            moisture_percent: reading.moisture_percent,
            status: reading.status,
            age_ms,
            error,
        }
    }
}

/// The readings of a sample after some time.
pub fn age_readings(batch: &Batch, elapsed_ns: u128, stale_after_ms: u64) -> (readings: Vec<
    SensorReading,
>)
    ensures
        crate::sensor::reading_views(readings@) == aged_all(
            crate::sensor::reading_views(batch.readings@),
            crate::sensor::whole_ms(elapsed_ns as int),
            stale_after_ms,
        ),
{
    let elapsed_ms: u64 = millis(elapsed_ns);
    let mut readings: Vec<SensorReading> = Vec::new();
    let ghost wanted = aged_all(
        crate::sensor::reading_views(batch.readings@),
        elapsed_ms,
        stale_after_ms,
    );
    assert(crate::sensor::reading_views(readings@) =~= wanted.take(0));
    let mut i: usize = 0;
    while i < batch.readings.len()
        invariant
            i <= batch.readings@.len(),
            wanted == aged_all(
                crate::sensor::reading_views(batch.readings@),
                elapsed_ms,
                stale_after_ms,
            ),
            crate::sensor::reading_views(readings@) == wanted.take(i as int),
        decreases batch.readings.len() - i,
    {
        let ghost before = crate::sensor::reading_views(readings@);
        readings.push(age_reading(&batch.readings[i], elapsed_ms, stale_after_ms));
        proof {
            assert(crate::sensor::reading_views(readings@) =~= before.push(wanted[i as int]));
            assert(wanted.take(i + 1) =~= wanted.take(i as int).push(wanted[i as int]));
        }
        i += 1;
    }
    assert(wanted.take(i as int) =~= wanted);
    readings
}

/// The time since a sample was taken.
pub open spec fn since(captured_at_ns: u128, now_ns: u128) -> int {
    if now_ns >= captured_at_ns {
        now_ns - captured_at_ns
    } else {
        0
    }
}

/// The readings of a sample as they are at a time.
pub open spec fn current(batch: Batch, now_ns: u128, stale_after_ms: u64) -> Seq<ReadingView> {
    aged_all(
        crate::sensor::reading_views(batch.readings@),
        crate::sensor::whole_ms(since(batch.captured_at_ns, now_ns)),
        stale_after_ms,
    )
}

/// The readings of a sample as they are at a time.
pub fn current_readings(batch: &Batch, now_ns: u128, stale_after_ms: u64) -> (readings: Vec<
    SensorReading,
>)
    ensures
        crate::sensor::reading_views(readings@) == current(*batch, now_ns, stale_after_ms),
{
    let elapsed_ns: u128 = if now_ns >= batch.captured_at_ns {
        now_ns - batch.captured_at_ns
    } else {
        0
    };
    age_readings(batch, elapsed_ns, stale_after_ms)
}

/// How far some readings can be relied on.
pub open spec fn health_of(readings: Seq<ReadingView>) -> Seq<ReadingStatus> {
    readings.map_values(|reading: ReadingView| reading.status)
}

/// How far some readings can be relied on.
pub fn health(readings: &Vec<SensorReading>) -> (statuses: Vec<ReadingStatus>)
    ensures
        statuses@ == health_of(crate::sensor::reading_views(readings@)),
{
    let mut statuses: Vec<ReadingStatus> = Vec::new();
    let ghost wanted = health_of(crate::sensor::reading_views(readings@));
    let mut i: usize = 0;
    while i < readings.len()
        invariant
            i <= readings@.len(),
            wanted == health_of(crate::sensor::reading_views(readings@)),
            statuses@ == wanted.take(i as int),
        decreases readings.len() - i,
    {
        statuses.push(readings[i].status);
        assert(statuses@ =~= wanted.take(i + 1));
        i += 1;
    }
    assert(wanted.take(i as int) =~= wanted);
    statuses
}

/// Whether two lists of statuses are the same.
pub fn same_health(a: &Vec<ReadingStatus>, b: &Vec<ReadingStatus>) -> (same: bool)
    ensures
        same == (a@ == b@),
{
    if a.len() != b.len() {
        return false;
    }
    let mut i: usize = 0;
    while i < a.len()
        invariant
            i <= a@.len() == b@.len(),
            forall|j: int| 0 <= j < i ==> a@[j] == b@[j],
        decreases a.len() - i,
    {
        if a[i] != b[i] {
            return false;
        }
        i += 1;
    }
    assert(a@ =~= b@);
    true
}

/// Whether all readings hold a current frequency.
pub fn all_healthy(readings: &Vec<SensorReading>) -> (yes: bool)
    ensures
        yes == (forall|i: int|
            0 <= i < readings@.len() ==> (#[trigger] readings@[i]).status.healthy()),
{
    let mut i: usize = 0;
    while i < readings.len()
        invariant
            i <= readings@.len(),
            forall|j: int| 0 <= j < i ==> (#[trigger] readings@[j]).status.healthy(),
        decreases readings.len() - i,
    {
        if !readings[i].status.is_healthy() {
            return false;
        }
        i += 1;
    }
    true
}

/// What is left of a sampling interval once part of it has passed, in nanoseconds.
pub fn rest_of_interval(interval_ms: u64, elapsed_ns: u128) -> (rest_ns: u128)
    ensures
        rest_ns == if elapsed_ns < interval_ms * 1_000_000 {
            interval_ms * 1_000_000 - elapsed_ns
        } else {
            0
        },
{
    let interval_ns: u128 = (interval_ms as u128) * 1_000_000;
    if elapsed_ns < interval_ns {
        interval_ns - elapsed_ns
    } else {
        0
    }
}

/// A sample that was taken too long ago is told as stale on every channel, without moisture;
/// one that is recent enough keeps what it said, with its age.
pub proof fn law_old_samples_are_stale(
    batch: Batch,
    now_ns: u128,
    stale_after_ms: u64,
    i: int,
)
    requires
        0 <= i < batch.readings@.len(),
    ensures
        ({
            let told = current(batch, now_ns, stale_after_ms)[i];
            let taken = batch.readings@[i]@;
            let elapsed_ms = crate::sensor::whole_ms(since(batch.captured_at_ns, now_ns));
            &&& told.channel == taken.channel
            &&& told.raw_hz == taken.raw_hz
            &&& elapsed_ms >= stale_after_ms ==> told.status == ReadingStatus::Stale
                && told.moisture_percent is None
            &&& elapsed_ms < stale_after_ms ==> told.status == taken.status
                && told.moisture_percent == taken.moisture_percent && told.error == taken.error
        }),
{
}

/// How a reading ages: what it measured stays, its age grows by the time that has passed, and
/// once that reaches the limit the reading is stale, says so and tells no moisture; before, it
/// says what it said.
pub proof fn law_readings_age_with_time(
    batch: Batch,
    elapsed_ms: u64,
    stale_after_ms: u64,
    i: int,
)
    requires
        0 <= i < batch.readings@.len(),
        batch.captured_at_ns + elapsed_ms * 1_000_000 <= u128::MAX,
    ensures
        ({
            let now_ns = (batch.captured_at_ns + elapsed_ms * 1_000_000) as u128;
            let told = current(batch, now_ns, stale_after_ms);
            let taken = batch.readings@[i];
            &&& told.len() == batch.readings@.len()
            &&& told[i].channel == taken.channel
            &&& told[i].raw_hz == taken.raw_hz
            &&& taken.age_ms is None ==> told[i].age_ms is None
            &&& taken.age_ms is Some && taken.age_ms->Some_0 + elapsed_ms <= u64::MAX
                ==> told[i].age_ms is Some && told[i].age_ms->Some_0 == taken.age_ms->Some_0
                + elapsed_ms
            &&& taken.age_ms is Some && taken.age_ms->Some_0 + elapsed_ms > u64::MAX
                ==> told[i].age_ms == Some(u64::MAX)
            &&& elapsed_ms >= stale_after_ms ==> told[i].status is Stale
                && told[i].moisture_percent is None && told[i].error == Some(
                "last sensor snapshot is stale"@,
            )
            &&& elapsed_ms < stale_after_ms ==> told[i].status == taken.status
                && told[i].moisture_percent == taken.moisture_percent && told[i].error
                == crate::sensor::words(taken.error)
        }),
{
    assert((elapsed_ms * 1_000_000) / 1_000_000 == elapsed_ms);
}

/// The rest of an interval is what is missing until it is over, and nothing after that.
pub proof fn law_interval_is_filled_up(interval_ms: u64, elapsed_ns: u128, rest_ns: u128)
    requires
        call_ensures(rest_of_interval, (interval_ms, elapsed_ns), rest_ns),
    ensures
        elapsed_ns <= interval_ms * 1_000_000 ==> elapsed_ns + rest_ns == interval_ms * 1_000_000,
        elapsed_ns >= interval_ms * 1_000_000 ==> rest_ns == 0,
{
}

/// Readings are all healthy exactly if each of them is valid or uncalibrated.
pub proof fn law_all_healthy_means_each(readings: Vec<SensorReading>, yes: bool)
    requires
        call_ensures(all_healthy, (&readings,), yes),
    ensures
        yes <==> forall|i: int|
            0 <= i < readings@.len() ==> (#[trigger] readings@[i]).status is Valid
                || readings@[i].status is Uncalibrated,
{
    if !yes {
        let i = choose|i: int|
            0 <= i < readings@.len() && !(#[trigger] readings@[i]).status.healthy();
        assert(!(readings@[i].status is Valid || readings@[i].status is Uncalibrated));
    }
    if yes {
        assert forall|i: int| 0 <= i < readings@.len() implies (
        #[trigger] readings@[i]).status is Valid || readings@[i].status is Uncalibrated by {
            assert(readings@[i].status.healthy());
        }
    }
}

/// The health of readings is the status of each, in their order.
pub proof fn law_health_is_the_statuses(readings: Seq<ReadingView>, i: int)
    requires
        0 <= i < readings.len(),
    ensures
        health_of(readings).len() == readings.len(),
        health_of(readings)[i] == readings[i].status,
{
}

} // verus!
