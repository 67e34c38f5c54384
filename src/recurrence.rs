//! The weekly recurrence: the next local midnight that falls on the anchor
//! weekday, strictly after the day of a reference instant.
//!
//! The calendar arithmetic works on wall-clock seconds: seconds since
//! 1970-01-01 00:00:00 on the local calendar. Day 0 of that count was a
//! Thursday.
use vstd::prelude::*;

verus! {

/// Seconds in one calendar day of wall-clock time.
pub const SECONDS_PER_DAY: i64 = 86400;

/// The anchor weekday, counted from Monday = 0: Wednesday.
pub const ANCHOR_WEEKDAY: i64 = 2;

/// The wall-clock day that holds `wall` (floor division).
pub open spec fn day_of(wall: int) -> int {
    wall / 86400
}

/// The weekday of a day number, Monday = 0 through Sunday = 6.
pub open spec fn weekday_of_day(day: int) -> int {
    (day + 3) % 7
}

/// How many days after `day` the next anchor weekday comes: 1 through 7.
pub open spec fn days_until_anchor(day: int) -> int {
    let w = weekday_of_day(day);
    if w < ANCHOR_WEEKDAY {
        ANCHOR_WEEKDAY - w
    } else {
        ANCHOR_WEEKDAY + 7 - w
    }
}

/// The first anchor day strictly after `day`.
pub open spec fn next_anchor_day(day: int) -> int {
    day + days_until_anchor(day)
}

/// Midnight (wall clock) of the first anchor day strictly after the day of `wall`.
pub open spec fn next_occurrence_wall(wall: int) -> int {
    next_anchor_day(day_of(wall)) * 86400
}

/// Time left until `next`, as seen at `now`: zero once `now` has reached it.
pub open spec fn remaining_spec(now: int, next: int) -> int {
    if now >= next {
        0
    } else {
        next - now
    }
}

/// The next occurrence in wall-clock seconds, or `None` where it does not fit in an `i64`.
pub fn next_occurrence_wall_clock(wall: i64) -> (r: Option<i64>)
    ensures
        r == (if next_occurrence_wall(wall as int) <= i64::MAX {
            Some(next_occurrence_wall(wall as int) as i64)
        } else {
            None::<i64>
        }),
{
    let day = match wall.checked_div_euclid(SECONDS_PER_DAY) {
        Some(d) => d,
        None => {
            return None;
        },
    };
    assert(-106751991167301 <= day <= 106751991167300) by (nonlinear_arith)
        requires
            day == wall as int / 86400,
            i64::MIN <= wall <= i64::MAX,
    ;
    let weekday = match (day + 3).checked_rem_euclid(7) {
        Some(w) => w,
        None => {
            return None;
        },
    };
    let ahead = if weekday < ANCHOR_WEEKDAY {
        ANCHOR_WEEKDAY - weekday
    } else {
        ANCHOR_WEEKDAY + 7 - weekday
    };
    let target = day + ahead;
    target.checked_mul(SECONDS_PER_DAY)
}

/// Seconds left from `now` until `next`; zero when `now` is at or past `next`.
pub fn remaining_time(now: u64, next: u64) -> (r: u64)
    ensures
        r == remaining_spec(now as int, next as int),
{
    if now >= next {
        0
    } else {
        next - now
    }
}

/// The next occurrence falls on a later wall-clock day than the reference, at
/// midnight, on the anchor weekday, and no anchor day lies between the two days.
pub proof fn lemma_next_occurrence_is_next_anchor(wall: int)
    ensures
        day_of(next_occurrence_wall(wall)) > day_of(wall),
        next_occurrence_wall(wall) % 86400 == 0,
        weekday_of_day(day_of(next_occurrence_wall(wall))) == ANCHOR_WEEKDAY,
        forall|d: int|
            day_of(wall) < d < day_of(next_occurrence_wall(wall)) ==> #[trigger] weekday_of_day(d)
                != ANCHOR_WEEKDAY,
{
    let day = day_of(wall);
    let target = next_anchor_day(day);
    assert(target * 86400 / 86400 == target) by (nonlinear_arith);
    assert(target * 86400 % 86400 == 0) by (nonlinear_arith);
    assert forall|d: int| day < d < target implies #[trigger] weekday_of_day(d) != ANCHOR_WEEKDAY by {
        assert((d + 3) % 7 == ((day + 3) % 7 + (d - day)) % 7);
    }
    assert((target + 3) % 7 == ((day + 3) % 7 + days_until_anchor(day)) % 7);
}

/// Taking the next occurrence again from one second before it gives the same
/// instant: every instant of the week leading up to it has the same next occurrence.
pub proof fn lemma_next_occurrence_stable(wall: int)
    ensures
        next_occurrence_wall(next_occurrence_wall(wall) - 1) == next_occurrence_wall(wall),
{
    let n = next_occurrence_wall(wall);
    let target = next_anchor_day(day_of(wall));
    lemma_next_occurrence_is_next_anchor(wall);
    assert((target * 86400 - 1) / 86400 == target - 1) by (nonlinear_arith);
    assert(target * 86400 / 86400 == target) by (nonlinear_arith);
    assert((target - 1 + 3) % 7 == ((target + 3) % 7 + 6) % 7);
}

/// The time left is zero exactly when `now` has reached `next`, and otherwise
/// is the positive difference `next - now`.
pub proof fn lemma_remaining_time(now: int, next: int)
    ensures
        now >= next ==> remaining_spec(now, next) == 0,
        now < next ==> remaining_spec(now, next) > 0 && remaining_spec(now, next) == next - now,
{
}

} // verus!

verus! {

/// The failures of the engine.
#[derive(Clone, Copy, Debug, PartialEq, Eq, Structural)]
pub enum EngineError {
    /// A timestamp that has no local calendar date.
    InvalidTimestamp,
    /// An account index past the end of the store.
    IndexOutOfRange,
    /// A persisted stream that ends inside a timestamp or holds a name that is not UTF-8.
    CorruptStream,
    /// The persisted file could not be read or written.
    IoError,
}

/// What holds of every next occurrence of `t`: for some pair of local offsets
/// (each strictly within one day), `t` shown on the wall clock with the first,
/// and the next occurrence's wall-clock midnight taken back to UTC with the second.
pub open spec fn is_next_occurrence_of(t: int, r: int) -> bool {
    exists|o1: int, o2: int|
        -86400 < o1 < 86400 && -86400 < o2 < 86400 && r == #[trigger] occurrence_with_offsets(
            t,
            o1,
            o2,
        )
}

/// The next occurrence of `t` in UTC where the local offset is `o1` at `t` and
/// `o2` at the resulting midnight.
pub open spec fn occurrence_with_offsets(t: int, o1: int, o2: int) -> int {
    next_occurrence_wall(t + o1) - o2
}

/// The wall-clock seconds of the Unix time `ts` under the local offset
/// `offset`, or `None` where they do not fit in an `i64`.
pub fn wall_of_utc(ts: i64, offset: i32) -> (r: Option<i64>)
    ensures
        r == (if i64::MIN <= ts + offset <= i64::MAX {
            Some((ts + offset) as i64)
        } else {
            None::<i64>
        }),
{
    ts.checked_add(offset as i64)
}

/// The Unix time of the wall-clock seconds `wall` under the local offset
/// `offset`, or `None` where it is negative or does not fit in an `i64`.
pub fn utc_of_wall(wall: i64, offset: i32) -> (r: Option<u64>)
    ensures
        r == (if 0 <= wall - offset <= i64::MAX {
            Some((wall - offset) as u64)
        } else {
            None::<u64>
        }),
{
    match wall.checked_sub(offset as i64) {
        Some(u) => {
            if u < 0 {
                None
            } else {
                Some(u as u64)
            }
        },
        None => None,
    }
}

/// The next occurrence of the anchor weekday's local midnight after the local
/// day holding the Unix time `t`. Fails with `InvalidTimestamp` where `t` is
/// past `i64::MAX`, or where the time zone cannot place `t` or the resulting
/// midnight. A midnight that the local clock skips is placed under the offset
/// in force a day earlier, which for a change at midnight is the first instant
/// of that local day.
pub fn next_occurrence(t: u64) -> (r: Result<u64, EngineError>)
    ensures
        t > i64::MAX ==> r == Err::<u64, EngineError>(EngineError::InvalidTimestamp),
        r matches Ok(n) ==> is_next_occurrence_of(t as int, n as int),
        r matches Err(e) ==> e == EngineError::InvalidTimestamp,
{
    if t > i64::MAX as u64 {
        return Err(EngineError::InvalidTimestamp);
    }
    let ts = t as i64;
    let o1 = match crate::clock::utc_offset_at(ts) {
        Some(o) => o,
        None => {
            return Err(EngineError::InvalidTimestamp);
        },
    };
    let wall = match wall_of_utc(ts, o1) {
        Some(w) => w,
        None => {
            return Err(EngineError::InvalidTimestamp);
        },
    };
    let next_wall = match next_occurrence_wall_clock(wall) {
        Some(n) => n,
        None => {
            return Err(EngineError::InvalidTimestamp);
        },
    };
    // Where the local clock skips that midnight, take it under the offset in
    // force a day earlier: for a change at midnight, the first instant of the day.
    let o2 = match crate::clock::wall_offset_at(next_wall) {
        Some(o) => o,
        None => {
            let day_before = match next_wall.checked_sub(SECONDS_PER_DAY) {
                Some(w) => w,
                None => {
                    return Err(EngineError::InvalidTimestamp);
                },
            };
            match crate::clock::wall_offset_at(day_before) {
                Some(o) => o,
                None => {
                    return Err(EngineError::InvalidTimestamp);
                },
            }
        },
    };
    let utc = match utc_of_wall(next_wall, o2) {
        Some(u) => u,
        None => {
            return Err(EngineError::InvalidTimestamp);
        },
    };
    assert(is_next_occurrence_of(t as int, utc as int)) by {
        assert(utc == occurrence_with_offsets(t as int, o1 as int, o2 as int));
    }
    Ok(utc)
}

/// The remaining time from a clock reading, capped at `u64::MAX`.
pub open spec fn remaining_from_reading_spec(reading: int, next: int) -> u64 {
    if remaining_spec(reading, next) > u64::MAX {
        u64::MAX
    } else {
        remaining_spec(reading, next) as u64
    }
}

/// Seconds left until `next` for a raw clock reading `reading` (Unix seconds,
/// negative for a clock set before 1970): zero once the reading has reached
/// `next`, else `next - reading`, capped at `u64::MAX`.
pub fn remaining_from_reading(reading: i64, next: u64) -> (r: u64)
    ensures
        r == remaining_from_reading_spec(reading as int, next as int),
        reading >= next ==> r == 0,
        reading < next && next - reading <= u64::MAX ==> r == next - reading && r > 0,
{
    if reading >= 0 {
        remaining_time(reading as u64, next)
    } else {
        let back = (0i128 - reading as i128) as u64;
        match next.checked_add(back) {
            Some(v) => v,
            None => u64::MAX,
        }
    }
}

/// Where the local offset is the same `o` at both ends (a zone without a
/// change between the two instants), the next occurrence of a Unix time `t`
/// falls on a later local day than `t`, at local midnight on the anchor
/// weekday, and taking the next occurrence again from one second before it
/// gives the same instant.
pub proof fn lemma_occurrence_under_fixed_offset(t: int, o: int)
    ensures
        day_of(occurrence_with_offsets(t, o, o) + o) > day_of(t + o),
        weekday_of_day(day_of(occurrence_with_offsets(t, o, o) + o)) == ANCHOR_WEEKDAY,
        (occurrence_with_offsets(t, o, o) + o) % 86400 == 0,
        occurrence_with_offsets(occurrence_with_offsets(t, o, o) - 1, o, o)
            == occurrence_with_offsets(t, o, o),
{
    lemma_next_occurrence_is_next_anchor(t + o);
    lemma_next_occurrence_stable(t + o);
    assert(occurrence_with_offsets(t, o, o) - 1 + o == next_occurrence_wall(t + o) - 1);
}

} // verus!
