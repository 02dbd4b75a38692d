//! The calendar of the daily drawdown guard: losses accumulate per local
//! trading day, and the guard starts afresh when the day changes.
use vstd::prelude::*;

verus! {

/// Integer division rounding toward zero, as Rust's `/` on integers does.
pub open spec fn trunc_div(a: int, b: int) -> int {
    if a >= 0 {
        a / b
    } else {
        -((-a) / b)
    }
}

/// The length of a day in milliseconds.
pub const DAY_MS: i64 = 86_400_000;

/// The day number of an instant, shifted into the guard's time zone.
pub open spec fn local_day(ts_ms: int, timezone_offset_ms: int) -> int {
    trunc_div(ts_ms + timezone_offset_ms, DAY_MS as int)
}

/// Whether the trading day has changed since the guard's day began: the
/// day numbers of its start and of now, both shifted by the time-zone
/// offset, differ.
pub fn day_rolled_over(day_timestamp_ms: i64, now_ms: i64, timezone_offset_ms: i64) -> (r: bool)
    requires
        i64::MIN <= day_timestamp_ms + timezone_offset_ms <= i64::MAX,
        i64::MIN <= now_ms + timezone_offset_ms <= i64::MAX,
    ensures
        r == (local_day(now_ms as int, timezone_offset_ms as int) != local_day(
            day_timestamp_ms as int,
            timezone_offset_ms as int,
        )),
{
    let now_local = now_ms + timezone_offset_ms;
    let last_day = (day_timestamp_ms + timezone_offset_ms) / DAY_MS;
    let current_day = now_local / DAY_MS;
    current_day != last_day
}

} // verus!
