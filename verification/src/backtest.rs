//! The backtester's schedule: which bars a run walks, which higher
//! timeframe confirms it, and how lower-timeframe bars group into closed
//! higher-timeframe bars without looking ahead.
//!
//! Prices are floating-point and are aggregated outside the library; the
//! rules here work on bar times and indices.
use vstd::prelude::*;
use crate::guard::trunc_div;
use crate::labels::{spec_timeframe_to_ms, timeframe_to_ms, BacktestDataSource};
use crate::text::{append, decimal, decimal_string, str_eq, to_lowercase, trim, trim_str, unicode_lowercase};

verus! {

broadcast use vstd::string::group_string_axioms;

// ---------------------------------------------------------------------------
// The confirming timeframe.
// ---------------------------------------------------------------------------

/// The higher timeframe a backtest confirms with, by its trading timeframe
/// (trimmed, lowercased): 1, 3, 5 and 15 minutes confirm on the hour, 30
/// minutes and the hour on four hours, anything else on the day.
pub open spec fn spec_default_htf(ltf: Seq<char>) -> Seq<char> {
    let s = unicode_lowercase(trim(ltf));
    if s == "1m"@ || s == "3m"@ || s == "5m"@ || s == "15m"@ {
        "1H"@
    } else if s == "30m"@ || s == "1h"@ {
        "4H"@
    } else {
        "1D"@
    }
}

/// The standard confirming timeframe for a trading timeframe.
pub fn default_htf_for_ltf(ltf: &str) -> (r: &'static str)
    ensures
        r@ == spec_default_htf(ltf@),
{
    let t = trim_str(ltf);
    let low = to_lowercase(t.as_str());
    let s = low.as_str();
    if str_eq(s, "1m") || str_eq(s, "3m") || str_eq(s, "5m") || str_eq(s, "15m") {
        "1H"
    } else if str_eq(s, "30m") || str_eq(s, "1h") {
        "4H"
    } else {
        "1D"
    }
}

// ---------------------------------------------------------------------------
// The bars a run walks.
// ---------------------------------------------------------------------------

/// The index of the first bar opening at or after `t`, or the number of bars.
pub open spec fn first_at_or_after(ts: Seq<i64>, t: int, i: int) -> int
    decreases ts.len() - i,
{
    if i >= ts.len() {
        ts.len() as int
    } else if ts[i] >= t {
        i
    } else {
        first_at_or_after(ts, t, i + 1)
    }
}

/// The index of the first bar opening after `t`, or the number of bars.
pub open spec fn first_after(ts: Seq<i64>, t: int, i: int) -> int
    decreases ts.len() - i,
{
    if i >= ts.len() {
        ts.len() as int
    } else if ts[i] > t {
        i
    } else {
        first_after(ts, t, i + 1)
    }
}

/// Where a run starts and stops, and how many bars it reports progress over.
#[derive(Debug, Clone, Copy, PartialEq, Eq, Structural)]
pub struct BacktestWindow {
    /// The first bar walked.
    pub start: usize,
    /// One past the last bar walked.
    pub end: usize,
    /// The number of bars walked, at least one.
    pub active_bars: usize,
}

/// The window of a run over bars opening at `ts` (ascending): it starts
/// after the indicator warm-up plus twenty bars, and not before the first
/// bar at or after the start time; it ends before the first bar after the
/// end time. Too few bars, or none left after the start, is an error.
pub open spec fn spec_backtest_window(
    ts: Seq<i64>,
    warmup_bars: int,
    start_time_ms: Option<i64>,
    end_time_ms: Option<i64>,
) -> Result<BacktestWindow, Seq<char>> {
    let need = warmup_bars + 20;
    let total = ts.len() as int;
    if total <= need {
        Err(
            "数据量不足：总共 "@ + decimal(total as nat) + " 根 K 线，至少需要 "@ + decimal(need as nat)
                + " 根进行指标预热与策略诊断"@,
        )
    } else {
        let start = match start_time_ms {
            Some(t) => if first_at_or_after(ts, t as int, 0) > need {
                first_at_or_after(ts, t as int, 0)
            } else {
                need
            },
            None => need,
        };
        if start >= total {
            Err(
                "指定时间范围内无可用数据：需要至少 "@ + decimal(need as nat) + " 根预热 K 线，但在起始时间之后仅有 0 根 K 线"@,
            )
        } else {
            let end = match end_time_ms {
                Some(t) => first_after(ts, t as int, 0),
                None => total,
            };
            Ok(
                BacktestWindow {
                    start: start as usize,
                    end: end as usize,
                    active_bars: if end - start > 1 {
                        (end - start) as usize
                    } else {
                        1
                    },
                },
            )
        }
    }
}

/// The first index at or after `i` whose bar opens at or after `t`.
fn find_at_or_after(ts: &Vec<i64>, t: i64) -> (r: usize)
    ensures
        r == first_at_or_after(ts@, t as int, 0),
{
    let mut j: usize = 0;
    while j < ts.len() && ts[j] < t
        invariant
            0 <= j <= ts.len(),
            first_at_or_after(ts@, t as int, 0) == first_at_or_after(ts@, t as int, j as int),
        decreases ts.len() - j,
    {
        j += 1;
    }
    j
}

/// The first index whose bar opens after `t`.
fn find_after(ts: &Vec<i64>, t: i64) -> (r: usize)
    ensures
        r == first_after(ts@, t as int, 0),
{
    let mut j: usize = 0;
    while j < ts.len() && ts[j] <= t
        invariant
            0 <= j <= ts.len(),
            first_after(ts@, t as int, 0) == first_after(ts@, t as int, j as int),
        decreases ts.len() - j,
    {
        j += 1;
    }
    j
}

/// Where a backtest over bars opening at `ts_open` (ascending) starts and
/// stops.
pub fn backtest_window(
    ts_open: &Vec<i64>,
    warmup_bars: usize,
    start_time_ms: Option<i64>,
    end_time_ms: Option<i64>,
) -> (r: Result<BacktestWindow, String>)
    requires
        warmup_bars + 20 <= usize::MAX,
    ensures
        match r {
            Ok(w) => spec_backtest_window(ts_open@, warmup_bars as int, start_time_ms, end_time_ms) == Ok::<
                BacktestWindow,
                Seq<char>,
            >(w),
            Err(e) => spec_backtest_window(ts_open@, warmup_bars as int, start_time_ms, end_time_ms) == Err::<
                BacktestWindow,
                Seq<char>,
            >(e@),
        },
{
    let need = warmup_bars + 20;
    let total = ts_open.len();
    if total <= need {
        let mut m = String::from_str("数据量不足：总共 ");
        let t = decimal_string(total as u64);
        append(&mut m, t.as_str());
        append(&mut m, " 根 K 线，至少需要 ");
        let n = decimal_string(need as u64);
        append(&mut m, n.as_str());
        append(&mut m, " 根进行指标预热与策略诊断");
        return Err(m);
    }
    let start = match start_time_ms {
        Some(t) => {
            let pos = find_at_or_after(ts_open, t);
            if pos > need {
                pos
            } else {
                need
            }
        },
        None => need,
    };
    if start >= total {
        let mut m = String::from_str("指定时间范围内无可用数据：需要至少 ");
        let n = decimal_string(need as u64);
        append(&mut m, n.as_str());
        append(&mut m, " 根预热 K 线，但在起始时间之后仅有 0 根 K 线");
        return Err(m);
    }
    let end = match end_time_ms {
        Some(t) => find_after(ts_open, t),
        None => total,
    };
    let active = if end > start && end - start > 1 {
        end - start
    } else {
        1
    };
    Ok(BacktestWindow { start, end, active_bars: active })
}

// ---------------------------------------------------------------------------
// Closed higher-timeframe bars.
// ---------------------------------------------------------------------------

/// The remainder of Rust's `%` on integers (sign of the dividend).
pub open spec fn trunc_rem(a: int, b: int) -> int {
    a - b * trunc_div(a, b)
}

/// The opening time of the higher-timeframe bar a bar opening at `ts` falls
/// in: `ts - ts % htf_ms`.
pub open spec fn bin_open(ts: int, htf_ms: int) -> int {
    ts - trunc_rem(ts, htf_ms)
}

proof fn lemma_div_mod(a: int, b: int)
    requires
        b > 0,
        a >= 0,
    ensures
        a == b * (a / b) + a % b,
{
    assert(a == b * (a / b) + a % b) by (nonlinear_arith)
        requires
            a >= 0,
            b > 0,
    ;
}

/// Rust's `%` on `i64`.
fn rem_i64(a: i64, b: i64) -> (r: i64)
    requires
        b > 0,
    ensures
        r == trunc_rem(a as int, b as int),
        -b < r < b,
        a >= 0 ==> r >= 0,
        a < 0 ==> r <= 0,
{
    let r = a % b;
    let ghost ai = a as int;
    let ghost bi = b as int;
    if a >= 0 {
        proof {
            lemma_div_mod(ai, bi);
        }
        assert(trunc_div(ai, bi) == ai / bi);
    } else {
        proof {
            lemma_div_mod(-ai, bi);
        }
        let ghost qq = (-ai) / bi;
        assert(bi * (-qq) == -(bi * qq)) by (nonlinear_arith);
        assert(trunc_div(ai, bi) == -qq);
    }
    r
}

/// The indices among the first `n` bars that fall in the bin opening at `b`.
pub open spec fn members_upto(ts: Seq<i64>, htf_ms: int, b: int, n: int) -> Seq<usize>
    decreases n,
{
    if n <= 0 {
        Seq::empty()
    } else if bin_open(ts[n - 1] as int, htf_ms) == b {
        members_upto(ts, htf_ms, b, n - 1).push((n - 1) as usize)
    } else {
        members_upto(ts, htf_ms, b, n - 1)
    }
}

/// A higher-timeframe bar: its opening time and the indices of the
/// lower-timeframe bars it is made of, in order.
#[derive(Debug)]
pub struct HtfBin {
    pub open_ms: i64,
    pub members: Vec<usize>,
}

/// Whether the bin opening at `b` has closed when bar `current` closes.
pub open spec fn bin_closed(ts: Seq<i64>, ltf_ms: int, htf_ms: int, current: int, b: int) -> bool {
    b + htf_ms <= ts[current] + ltf_ms
}

/// Whether every time the grouping computes fits in an `i64`.
pub open spec fn bins_fit(ts: Seq<i64>, ltf_ms: int, htf_ms: int, current: int) -> bool {
    (htf_ms > ltf_ms && current < ts.len()) ==> {
        &&& ts[current] + ltf_ms <= i64::MAX
        &&& forall|i: int| 0 <= i <= current ==> #[trigger] bin_open(ts[i] as int, htf_ms) + htf_ms <= i64::MAX
    }
}

/// The closed higher-timeframe bars as of bar `current`: empty unless the
/// higher timeframe is longer and `current` is a bar; otherwise every bin
/// that some bar up to `current` falls in and that has closed by the time
/// `current` closes, ascending by opening time, each with all its members.
pub open spec fn closed_bins_spec(ts: Seq<i64>, ltf_ms: int, htf_ms: int, current: int, r: Seq<HtfBin>) -> bool {
    if !(htf_ms > ltf_ms && current < ts.len()) {
        r.len() == 0
    } else {
        &&& forall|k: int| 0 <= k < r.len() ==> bin_closed(ts, ltf_ms, htf_ms, current, #[trigger] r[k].open_ms as int)
        &&& forall|k: int| 0 <= k < r.len() ==> (#[trigger] r[k]).members@ == members_upto(ts, htf_ms, r[k].open_ms as int, current + 1)
        &&& forall|k: int| 0 <= k < r.len() ==> exists|i: int| 0 <= i <= current && bin_open(ts[i] as int, htf_ms) == (#[trigger] r[k]).open_ms
        &&& forall|k: int, l: int| 0 <= k < l < r.len() ==> r[k].open_ms < r[l].open_ms
        &&& forall|i: int| 0 <= i <= current && bin_closed(ts, ltf_ms, htf_ms, current, #[trigger] bin_open(ts[i] as int, htf_ms))
            ==> exists|k: int| 0 <= k < r.len() && r[k].open_ms == bin_open(ts[i] as int, htf_ms)
    }
}

/// Inserts `b` into an ascending list of distinct values, unless present.
#[verifier::spinoff_prover]
fn insert_sorted(list: &mut Vec<i64>, b: i64)
    requires
        forall|k: int, l: int| 0 <= k < l < old(list).len() ==> old(list)@[k] < old(list)@[l],
    ensures
        forall|k: int, l: int| 0 <= k < l < final(list).len() ==> final(list)@[k] < final(list)@[l],
        forall|x: i64| final(list)@.contains(x) <==> (old(list)@.contains(x) || x == b),
{
    let mut p: usize = 0;
    while p < list.len() && list[p] < b
        invariant
            0 <= p <= list.len(),
            list@ == old(list)@,
            forall|k: int| 0 <= k < p ==> list@[k] < b,
        decreases list.len() - p,
    {
        p += 1;
    }
    if p < list.len() && list[p] == b {
        assert(list@[p as int] == b);
        return;
    }
    let ghost before = list@;
    assert(before == old(list)@);
    list.insert(p, b);
    proof {
        assert forall|k: int, l: int| 0 <= k < l < list.len() implies list@[k] < list@[l] by {
            if l < p {
                assert(list@[k] == before[k] && list@[l] == before[l]);
            } else if l == p {
                assert(list@[k] == before[k]);
            } else if k < p {
                assert(list@[k] == before[k] && list@[l] == before[l - 1]);
                assert(before[l - 1] >= b) by {
                    if before[l - 1] < b {
                        assert(before[p as int] >= b);
                        assert(before[p as int] <= before[l - 1]);
                    }
                }
            } else if k == p {
                assert(list@[l] == before[l - 1]);
                assert(before[p as int] != b);
                assert(before[l - 1] >= before[p as int]);
            } else {
                assert(list@[k] == before[k - 1] && list@[l] == before[l - 1]);
            }
        }
        assert forall|x: i64| list@.contains(x) <==> (before.contains(x) || x == b) by {
            if list@.contains(x) {
                let k = choose|k: int| 0 <= k < list.len() && list@[k] == x;
                if k < p {
                    assert(before[k] == x);
                } else if k > p {
                    assert(before[k - 1] == x);
                }
            }
            if before.contains(x) {
                let k = choose|k: int| 0 <= k < before.len() && before[k] == x;
                if k < p {
                    assert(list@[k] == x);
                } else {
                    assert(list@[k + 1] == x);
                }
            }
            if x == b {
                assert(list@[p as int] == b);
            }
        }
    }
}

/// The members of the bin opening at `b` among bars `0..=current`.
fn collect_members(ts: &Vec<i64>, htf_ms: i64, b: i64, current: usize) -> (r: Vec<usize>)
    requires
        htf_ms > 0,
        current < ts.len(),
    ensures
        r@ == members_upto(ts@, htf_ms as int, b as int, current + 1),
{
    let mut out: Vec<usize> = Vec::new();
    let mut i: usize = 0;
    while i <= current
        invariant
            0 <= i <= current + 1,
            current < ts.len(),
            htf_ms > 0,
            out@ == members_upto(ts@, htf_ms as int, b as int, i as int),
        decreases current + 1 - i,
    {
        let rem = rem_i64(ts[i], htf_ms);
        let open = ts[i] - rem;
        if open == b {
            out.push(i);
        }
        i += 1;
    }
    out
}

/// Groups bars `0..=current` into the higher-timeframe bars that have
/// closed by the time bar `current` closes; a bin is never returned before
/// it closes.
pub fn closed_htf_bins(ts_open: &Vec<i64>, ltf_tf: &str, htf_tf: &str, current: usize) -> (r: Vec<HtfBin>)
    requires
        bins_fit(ts_open@, spec_timeframe_to_ms(ltf_tf@), spec_timeframe_to_ms(htf_tf@), current as int),
    ensures
        closed_bins_spec(ts_open@, spec_timeframe_to_ms(ltf_tf@), spec_timeframe_to_ms(htf_tf@), current as int, r@),
{
    let ltf_ms = timeframe_to_ms(ltf_tf);
    let htf_ms = timeframe_to_ms(htf_tf);
    if htf_ms <= ltf_ms || current >= ts_open.len() {
        return Vec::new();
    }
    let close_ts = ts_open[current] + ltf_ms;
    let ghost ts = ts_open@;
    let mut opens: Vec<i64> = Vec::new();
    let mut i: usize = 0;
    while i <= current
        invariant
            0 <= i <= current + 1,
            current < ts_open.len(),
            ts == ts_open@,
            htf_ms > ltf_ms,
            ltf_ms > 0,
            close_ts == ts[current as int] + ltf_ms,
            bins_fit(ts, ltf_ms as int, htf_ms as int, current as int),
            forall|k: int, l: int| 0 <= k < l < opens.len() ==> opens@[k] < opens@[l],
            forall|x: i64| opens@.contains(x) ==> bin_closed(ts, ltf_ms as int, htf_ms as int, current as int, x as int)
                && exists|j: int| 0 <= j < i && bin_open(ts[j] as int, htf_ms as int) == x,
            forall|j: int| 0 <= j < i && bin_closed(ts, ltf_ms as int, htf_ms as int, current as int, #[trigger] bin_open(ts[j] as int, htf_ms as int))
                ==> opens@.contains(bin_open(ts[j] as int, htf_ms as int) as i64),
        decreases current + 1 - i,
    {
        let rem = rem_i64(ts_open[i], htf_ms);
        let open = ts_open[i] - rem;
        assert(open == bin_open(ts[i as int] as int, htf_ms as int));
        assert(open + htf_ms <= i64::MAX);
        if open + htf_ms <= close_ts {
            insert_sorted(&mut opens, open);
        }
        i += 1;
    }
    let mut out: Vec<HtfBin> = Vec::new();
    let mut k: usize = 0;
    while k < opens.len()
        invariant
            0 <= k <= opens.len(),
            current < ts_open.len(),
            ts == ts_open@,
            htf_ms > 0,
            out.len() == k,
            forall|m: int| 0 <= m < k ==> (#[trigger] out@[m]).open_ms == opens@[m],
            forall|m: int| 0 <= m < k ==> (#[trigger] out@[m]).members@ == members_upto(ts, htf_ms as int, opens@[m] as int, current + 1),
        decreases opens.len() - k,
    {
        let members = collect_members(ts_open, htf_ms, opens[k], current);
        out.push(HtfBin { open_ms: opens[k], members });
        k += 1;
    }
    proof {
        assert forall|m: int| 0 <= m < out.len() implies bin_closed(ts, ltf_ms as int, htf_ms as int, current as int, #[trigger] out@[m].open_ms as int) by {
            assert(opens@.contains(opens@[m]));
        }
        assert forall|m: int| 0 <= m < out.len() implies exists|j: int| 0 <= j <= current && bin_open(ts[j] as int, htf_ms as int) == (#[trigger] out@[m]).open_ms by {
            assert(opens@.contains(opens@[m]));
        }
        assert forall|j: int| 0 <= j <= current && bin_closed(ts, ltf_ms as int, htf_ms as int, current as int, #[trigger] bin_open(ts[j] as int, htf_ms as int))
            implies exists|m: int| 0 <= m < out.len() && out@[m].open_ms == bin_open(ts[j] as int, htf_ms as int) by {
            assert(opens@.contains(bin_open(ts[j] as int, htf_ms as int) as i64));
            let m = choose|m: int| 0 <= m < opens.len() && opens@[m] == bin_open(ts[j] as int, htf_ms as int) as i64;
            assert(out@[m].open_ms == opens@[m]);
        }
    }
    out
}

/// No higher-timeframe bar is used before it closes: every bin returned as
/// of bar `current` closes no later than `current` does.
pub proof fn law_no_lookahead(ts: Seq<i64>, ltf_ms: int, htf_ms: int, current: int, r: Seq<HtfBin>, k: int)
    requires
        closed_bins_spec(ts, ltf_ms, htf_ms, current, r),
        0 <= k < r.len(),
    ensures
        r[k].open_ms + htf_ms <= ts[current] + ltf_ms,
{
}

// ---------------------------------------------------------------------------
// Trade tallies.
// ---------------------------------------------------------------------------

/// Counts of a run's trades by result, and its longest streaks.
#[derive(Debug, Clone, Copy, PartialEq, Eq, Structural)]
pub struct TradeTally {
    pub winning: usize,
    pub losing: usize,
    pub break_even: usize,
    pub max_consecutive_wins: usize,
    pub max_consecutive_losses: usize,
}

/// Whether a trade result (the sign of its net profit) is a win, a loss or
/// neither, as `want` is positive, negative or zero.
pub open spec fn same_kind(x: i8, want: int) -> bool {
    if want > 0 {
        x > 0
    } else if want < 0 {
        x < 0
    } else {
        x == 0
    }
}

/// How many results are of the kind.
pub open spec fn count_kind(s: Seq<i8>, want: int) -> nat
    decreases s.len(),
{
    if s.len() == 0 {
        0
    } else {
        count_kind(s.drop_last(), want) + if same_kind(s.last(), want) {
            1nat
        } else {
            0nat
        }
    }
}

/// Whether results `lo..hi` are all of the kind.
pub open spec fn run_of(s: Seq<i8>, lo: int, hi: int, want: int) -> bool {
    forall|k: int| lo <= k < hi ==> same_kind(#[trigger] s[k], want)
}

/// Whether `n` is the length of the longest run of results of the kind.
pub open spec fn longest_run(s: Seq<i8>, want: int, n: int) -> bool {
    &&& exists|lo: int| 0 <= lo && lo + n <= s.len() && #[trigger] run_of(s, lo, lo + n, want)
    &&& forall|lo: int, hi: int| 0 <= lo <= hi <= s.len() && #[trigger] run_of(s, lo, hi, want) ==> hi - lo <= n
}

/// What the tally of a run's results holds.
pub open spec fn tally_of(s: Seq<i8>, t: TradeTally) -> bool {
    &&& t.winning == count_kind(s, 1)
    &&& t.losing == count_kind(s, -1)
    &&& t.break_even == count_kind(s, 0)
    &&& longest_run(s, 1, t.max_consecutive_wins as int)
    &&& longest_run(s, -1, t.max_consecutive_losses as int)
}

/// One step of the streak bookkeeping for one kind of result: after result
/// `i`, the current run (`cur2`) and the longest run so far (`best2`).
proof fn lemma_streak_step(s: Seq<i8>, want: int, i: int, cur: int, best: int, cur2: int, best2: int)
    requires
        0 <= i < s.len(),
        0 <= cur <= i,
        run_of(s, i - cur, i, want),
        i - cur == 0 || !same_kind(s[i - cur - 1], want),
        cur <= best,
        exists|lo: int| 0 <= lo && lo + best <= i && #[trigger] run_of(s, lo, lo + best, want),
        forall|lo: int, hi: int| 0 <= lo <= hi <= i && #[trigger] run_of(s, lo, hi, want) ==> hi - lo <= best,
        same_kind(s[i], want) ==> cur2 == cur + 1,
        !same_kind(s[i], want) ==> cur2 == 0,
        cur2 > best ==> best2 == cur2,
        cur2 <= best ==> best2 == best,
    ensures
        run_of(s, i + 1 - cur2, i + 1, want),
        i + 1 - cur2 == 0 || !same_kind(s[i - cur2], want),
        cur2 <= best2,
        exists|lo: int| 0 <= lo && lo + best2 <= i + 1 && #[trigger] run_of(s, lo, lo + best2, want),
        forall|lo: int, hi: int| 0 <= lo <= hi <= i + 1 && #[trigger] run_of(s, lo, hi, want) ==> hi - lo <= best2,
{
    if cur2 > best {
        assert(run_of(s, i + 1 - cur2, i + 1 - cur2 + best2, want));
    } else {
        let lo0 = choose|lo: int| 0 <= lo && lo + best <= i && #[trigger] run_of(s, lo, lo + best, want);
        assert(run_of(s, lo0, lo0 + best2, want));
    }
    assert forall|lo: int, hi: int| 0 <= lo <= hi <= i + 1 && #[trigger] run_of(s, lo, hi, want) implies hi - lo <= best2 by {
        if hi <= i {
        } else if lo == hi {
        } else {
            assert(same_kind(s[i], want));
            if lo < i - cur {
                assert(same_kind(s[i - cur - 1], want));
            }
        }
    }
}

/// Counts a run's trades by the sign of their net profit (positive a win,
/// negative a loss, zero break-even) and finds the longest winning and
/// losing streaks.
pub fn tally_trades(results: &Vec<i8>) -> (t: TradeTally)
    ensures
        tally_of(results@, t),
{
    let ghost s = results@;
    let mut t = TradeTally { winning: 0, losing: 0, break_even: 0, max_consecutive_wins: 0, max_consecutive_losses: 0 };
    let mut cur_w: usize = 0;
    let mut cur_l: usize = 0;
    let mut i: usize = 0;
    proof {
        assert(run_of(s, 0, 0, 1));
        assert(run_of(s, 0, 0, -1));
    }
    while i < results.len()
        invariant
            0 <= i <= results.len(),
            s == results@,
            t.winning == count_kind(s.take(i as int), 1),
            t.losing == count_kind(s.take(i as int), -1),
            t.break_even == count_kind(s.take(i as int), 0),
            t.winning + t.losing + t.break_even == i,
            cur_w <= i,
            cur_l <= i,
            run_of(s, i - cur_w, i as int, 1),
            i - cur_w == 0 || !same_kind(s[i - cur_w - 1], 1),
            run_of(s, i - cur_l, i as int, -1),
            i - cur_l == 0 || !same_kind(s[i - cur_l - 1], -1),
            cur_w <= t.max_consecutive_wins,
            cur_l <= t.max_consecutive_losses,
            t.max_consecutive_wins <= i,
            t.max_consecutive_losses <= i,
            exists|lo: int| 0 <= lo && lo + t.max_consecutive_wins <= i && #[trigger] run_of(s, lo, lo + t.max_consecutive_wins, 1),
            forall|lo: int, hi: int| 0 <= lo <= hi <= i && #[trigger] run_of(s, lo, hi, 1) ==> hi - lo <= t.max_consecutive_wins,
            exists|lo: int| 0 <= lo && lo + t.max_consecutive_losses <= i && #[trigger] run_of(s, lo, lo + t.max_consecutive_losses, -1),
            forall|lo: int, hi: int| 0 <= lo <= hi <= i && #[trigger] run_of(s, lo, hi, -1) ==> hi - lo <= t.max_consecutive_losses,
        decreases results.len() - i,
    {
        proof {
            assert(s.take(i + 1).drop_last() =~= s.take(i as int));
        }
        let ghost (cw, bw, cl, bl) = (cur_w as int, t.max_consecutive_wins as int, cur_l as int, t.max_consecutive_losses as int);
        let x = results[i];
        if x > 0 {
            t.winning = t.winning + 1;
            cur_w = cur_w + 1;
            cur_l = 0;
            if cur_w > t.max_consecutive_wins {
                t.max_consecutive_wins = cur_w;
            }
        } else if x < 0 {
            t.losing = t.losing + 1;
            cur_l = cur_l + 1;
            cur_w = 0;
            if cur_l > t.max_consecutive_losses {
                t.max_consecutive_losses = cur_l;
            }
        } else {
            t.break_even = t.break_even + 1;
            cur_w = 0;
            cur_l = 0;
        }
        proof {
            lemma_streak_step(s, 1, i as int, cw, bw, cur_w as int, t.max_consecutive_wins as int);
            lemma_streak_step(s, -1, i as int, cl, bl, cur_l as int, t.max_consecutive_losses as int);
        }
        i += 1;
    }
    proof {
        assert(s.take(i as int) =~= s);
    }
    t
}

/// Every trade is counted once: wins, losses and break-evens add up to the
/// number of trades, and no streak is longer than its count.
pub proof fn law_tally_counts_every_trade(s: Seq<i8>, t: TradeTally)
    requires
        tally_of(s, t),
    ensures
        t.winning + t.losing + t.break_even == s.len(),
        t.max_consecutive_wins <= t.winning,
        t.max_consecutive_losses <= t.losing,
{
    lemma_counts_add_up(s);
    let lo = choose|lo: int| 0 <= lo && lo + t.max_consecutive_wins <= s.len() && #[trigger] run_of(s, lo, lo + t.max_consecutive_wins, 1);
    lemma_run_within_count(s, 1, lo, lo + t.max_consecutive_wins);
    let lo2 = choose|lo: int| 0 <= lo && lo + t.max_consecutive_losses <= s.len() && #[trigger] run_of(s, lo, lo + t.max_consecutive_losses, -1);
    lemma_run_within_count(s, -1, lo2, lo2 + t.max_consecutive_losses);
}

proof fn lemma_counts_add_up(s: Seq<i8>)
    ensures
        count_kind(s, 1) + count_kind(s, -1) + count_kind(s, 0) == s.len(),
    decreases s.len(),
{
    if s.len() > 0 {
        lemma_counts_add_up(s.drop_last());
    }
}

/// A run of results of one kind is no longer than their count.
proof fn lemma_run_within_count(s: Seq<i8>, want: int, lo: int, hi: int)
    requires
        0 <= lo <= hi <= s.len(),
        run_of(s, lo, hi, want),
    ensures
        hi - lo <= count_kind(s, want),
    decreases s.len(),
{
    if s.len() > 0 && lo < hi {
        if hi == s.len() {
            assert(run_of(s.drop_last(), lo, hi - 1, want)) by {
                assert forall|k: int| lo <= k < hi - 1 implies same_kind(#[trigger] s.drop_last()[k], want) by {
                    assert(s.drop_last()[k] == s[k]);
                }
            }
            lemma_run_within_count(s.drop_last(), want, lo, hi - 1);
        } else {
            assert(run_of(s.drop_last(), lo, hi, want)) by {
                assert forall|k: int| lo <= k < hi implies same_kind(#[trigger] s.drop_last()[k], want) by {
                    assert(s.drop_last()[k] == s[k]);
                }
            }
            lemma_run_within_count(s.drop_last(), want, lo, hi);
        }
    }
}

// ---------------------------------------------------------------------------
// Backtest jobs.
// ---------------------------------------------------------------------------

/// Where a backtest job reads its candles from.
#[derive(Debug, Clone, Copy, PartialEq, Eq, Structural)]
pub enum DataPlan {
    /// The configured candle file.
    Fixture,
    /// A local-file run without a file: the job fails.
    MissingFixture,
    /// Generated candles.
    Synthetic,
    /// The exchange's history (generated candles if it returns fewer than
    /// 200 or fails).
    Exchange,
}

/// The candle source of a job: a configured file first, then the
/// configured source.
pub fn data_plan(has_fixture_path: bool, source: BacktestDataSource) -> (r: DataPlan)
    ensures
        r == (if has_fixture_path {
            DataPlan::Fixture
        } else if source == BacktestDataSource::LocalFile {
            DataPlan::MissingFixture
        } else if source == BacktestDataSource::Synthetic {
            DataPlan::Synthetic
        } else {
            DataPlan::Exchange
        }),
{
    if has_fixture_path {
        DataPlan::Fixture
    } else {
        match source {
            BacktestDataSource::LocalFile => DataPlan::MissingFixture,
            BacktestDataSource::Synthetic => DataPlan::Synthetic,
            BacktestDataSource::OkxApi => DataPlan::Exchange,
        }
    }
}

/// How much history a job prepares.
#[derive(Debug, Clone, Copy, PartialEq, Eq, Structural)]
pub struct BacktestDataPlan {
    /// The bar length.
    pub interval_ms: i64,
    /// Where generated candles start: 200 warm-up bars before the start
    /// time (or a fixed default start).
    pub candle_start_ms: i64,
    /// The bars the run trades over.
    pub trading_bars: usize,
    /// How many candles are generated when generating.
    pub synthetic_count: usize,
    /// How many candles are asked of the exchange (at most 3000).
    pub exchange_request: usize,
}

/// The start used when none is configured.
pub open spec fn default_start_ms() -> int {
    1_710_000_000_000
}

/// The bars a job trades over: the span between start and end in bars (at
/// least one) when both are set and in order, else the configured maximum
/// (at least 300).
pub open spec fn spec_trading_bars(interval: int, start: Option<i64>, end: Option<i64>, max_bars: int) -> int {
    match (start, end) {
        (Some(st), Some(et)) if et > st => if (et - st) / interval > 1 {
            (et - st) / interval
        } else {
            1
        },
        _ => if max_bars > 300 {
            max_bars
        } else {
            300
        },
    }
}

/// The history plan of a job.
pub open spec fn spec_data_window(timeframe: Seq<char>, start: Option<i64>, end: Option<i64>, max_bars: int) -> (int, int, int, int, int) {
    let interval = spec_timeframe_to_ms(timeframe);
    let start_ts = match start {
        Some(t) => t as int,
        None => default_start_ms(),
    };
    let trading = spec_trading_bars(interval, start, end, max_bars);
    let floor = if max_bars > 500 {
        max_bars
    } else {
        500
    };
    let synth = if 200 + trading + 30 > floor {
        200 + trading + 30
    } else {
        floor
    };
    (interval, start_ts - 200 * interval, trading, synth, if synth < 3000 {
        synth
    } else {
        3000
    })
}

/// Whether every number of the plan fits its type.
pub open spec fn data_window_fits(timeframe: Seq<char>, start: Option<i64>, end: Option<i64>, max_bars: int) -> bool {
    let interval = spec_timeframe_to_ms(timeframe);
    &&& (start matches Some(t) ==> t - 200 * interval >= i64::MIN)
    &&& match (start, end) {
        (Some(st), Some(et)) => et > st ==> et - st <= i64::MAX && (et - st) / interval <= usize::MAX,
        _ => true,
    }
    &&& 200 + spec_trading_bars(interval, start, end, max_bars) + 30 <= usize::MAX
}

/// Plans the history a backtest job prepares.
pub fn backtest_data_plan(timeframe: &str, start_time_ms: Option<i64>, end_time_ms: Option<i64>, max_bars: usize) -> (r: BacktestDataPlan)
    requires
        data_window_fits(timeframe@, start_time_ms, end_time_ms, max_bars as int),
    ensures
        (r.interval_ms as int, r.candle_start_ms as int, r.trading_bars as int, r.synthetic_count as int, r.exchange_request as int)
            == spec_data_window(timeframe@, start_time_ms, end_time_ms, max_bars as int),
{
    let interval = timeframe_to_ms(timeframe);
    let start_ts: i64 = match start_time_ms {
        Some(t) => t,
        None => 1_710_000_000_000,
    };
    let candle_start = start_ts - 200 * interval;
    let trading: usize = match (start_time_ms, end_time_ms) {
        (Some(st), Some(et)) => {
            if et > st {
                let q = (et - st) / interval;
                if q > 1 {
                    q as usize
                } else {
                    1
                }
            } else if max_bars > 300 {
                max_bars
            } else {
                300
            }
        },
        _ => if max_bars > 300 {
            max_bars
        } else {
            300
        },
    };
    let floor = if max_bars > 500 {
        max_bars
    } else {
        500
    };
    let synth = if 200 + trading + 30 > floor {
        200 + trading + 30
    } else {
        floor
    };
    let request = if synth < 3000 {
        synth
    } else {
        3000
    };
    BacktestDataPlan {
        interval_ms: interval,
        candle_start_ms: candle_start,
        trading_bars: trading,
        synthetic_count: synth,
        exchange_request: request,
    }
}

/// Whether finished job `a` is evicted before finished job `b`: older
/// first, and among equal times the order they are listed in.
pub open spec fn evicted_before(created: Seq<i64>, a: int, b: int) -> bool {
    created[a] < created[b] || (created[a] == created[b] && a < b)
}

/// The jobs a new job makes room for when 30 or more are kept: the oldest
/// finished ones (completed or failed), as many as bring the count down to
/// 29, and no more than are finished. Listed oldest first.
pub open spec fn eviction_ok(finished: Seq<bool>, created: Seq<i64>, r: Seq<usize>) -> bool {
    let excess: int = if finished.len() >= 30 {
        finished.len() - 29
    } else {
        0
    };
    &&& r.len() <= excess
    &&& forall|i: int| 0 <= i < r.len() ==> r[i] < finished.len() && finished[r[i] as int]
    &&& forall|i: int, j: int| 0 <= i < j < r.len() ==> evicted_before(created, r[i] as int, r[j] as int)
    &&& forall|k: int| 0 <= k < finished.len() && finished[k] && !r.contains(k as usize) ==> r.len() == excess
        && forall|i: int| 0 <= i < r.len() ==> evicted_before(created, #[trigger] r[i] as int, k)
}

/// The finished jobs to drop before a new job is kept, given whether each
/// kept job has finished and when it was created.
pub fn jobs_to_evict(finished: &Vec<bool>, created_ms: &Vec<i64>) -> (r: Vec<usize>)
    requires
        finished.len() == created_ms.len(),
    ensures
        eviction_ok(finished@, created_ms@, r@),
{
    let n = finished.len();
    if n < 30 {
        return Vec::new();
    }
    let excess = n - 29;
    // The finished jobs, oldest first.
    let mut order: Vec<usize> = Vec::new();
    let mut i: usize = 0;
    while i < n
        invariant
            n == finished.len(),
            n == created_ms.len(),
            0 <= i <= n,
            forall|a: int| 0 <= a < order.len() ==> order@[a] < i && finished@[order@[a] as int],
            forall|a: int, b: int| 0 <= a < b < order.len() ==> evicted_before(created_ms@, order@[a] as int, order@[b] as int),
            forall|k: int| 0 <= k < i && finished@[k] ==> order@.contains(k as usize),
        decreases n - i,
    {
        if finished[i] {
            let k = created_ms[i];
            let mut p: usize = 0;
            while p < order.len() && created_ms[order[p]] <= k
                invariant
                    0 <= p <= order.len(),
                    i < n,
                    n == created_ms.len(),
                    k == created_ms@[i as int],
                    forall|a: int| 0 <= a < order.len() ==> order@[a] < i,
                    forall|a: int| 0 <= a < p ==> created_ms@[order@[a] as int] <= k,
                decreases order.len() - p,
            {
                p += 1;
            }
            proof {
                assert forall|a: int| p <= a < order.len() implies created_ms@[order@[a] as int] > k by {
                    if a > p {
                        assert(evicted_before(created_ms@, order@[p as int] as int, order@[a] as int));
                    }
                }
            }
            let ghost before = order@;
            order.insert(p, i);
            proof {
                assert forall|a: int, b: int| 0 <= a < b < order.len() implies evicted_before(
                    created_ms@,
                    order@[a] as int,
                    order@[b] as int,
                ) by {
                    if a < p && b < p {
                        assert(order@[a] == before[a] && order@[b] == before[b]);
                    } else if a < p && b == p {
                        assert(order@[a] == before[a]);
                    } else if a < p && b > p {
                        assert(order@[a] == before[a] && order@[b] == before[b - 1]);
                        assert(evicted_before(created_ms@, before[a] as int, before[b - 1] as int));
                    } else if a == p {
                        assert(order@[b] == before[b - 1]);
                    } else {
                        assert(order@[a] == before[a - 1] && order@[b] == before[b - 1]);
                    }
                }
                assert forall|a: int| 0 <= a < order.len() implies order@[a] < i + 1 && finished@[order@[a] as int] by {
                    if a < p {
                        assert(order@[a] == before[a]);
                    } else if a > p {
                        assert(order@[a] == before[a - 1]);
                    }
                }
                assert forall|k2: int| 0 <= k2 < i + 1 && finished@[k2] implies order@.contains(k2 as usize) by {
                    if k2 == i {
                        assert(order@[p as int] == i);
                    } else {
                        assert(before.contains(k2 as usize));
                        let a = choose|a: int| 0 <= a < before.len() && before[a] == k2 as usize;
                        if a < p {
                            assert(order@[a] == k2 as usize);
                        } else {
                            assert(order@[a + 1] == k2 as usize);
                        }
                    }
                }
            }
        }
        i += 1;
    }
    let m = if order.len() < excess {
        order.len()
    } else {
        excess
    };
    let mut r: Vec<usize> = Vec::new();
    let mut j: usize = 0;
    while j < m
        invariant
            m <= order.len(),
            0 <= j <= m,
            r@ == order@.take(j as int),
        decreases m - j,
    {
        r.push(order[j]);
        proof {
            assert(order@.take(j + 1) =~= order@.take(j as int).push(order@[j as int]));
        }
        j += 1;
    }
    proof {
        assert forall|k: int| 0 <= k < n && finished@[k] && !r@.contains(k as usize) implies r@.len() == excess
            && forall|a: int| 0 <= a < r@.len() ==> evicted_before(created_ms@, #[trigger] r@[a] as int, k) by {
            let b = choose|b: int| 0 <= b < order.len() && order@[b] == k as usize;
            if b < m {
                assert(r@[b] == k as usize);
            }
            assert(b >= m);
            if m < excess {
                assert(m == order.len());
            }
            assert forall|a: int| 0 <= a < r@.len() implies evicted_before(created_ms@, #[trigger] r@[a] as int, k) by {
                assert(r@[a] == order@[a]);
            }
        }
    }
    r
}

// ---------------------------------------------------------------------------
// Candle rows keyed by opening time.
// ---------------------------------------------------------------------------

/// Every kept row is among the first `n`.
#[verifier::opaque]
pub open spec fn rows_below(r: Seq<usize>, n: int) -> bool {
    forall|k: int| 0 <= k < r.len() ==> (#[trigger] r[k] as int) < n
}

/// The kept rows have strictly ascending times.
#[verifier::opaque]
pub open spec fn rows_ascending(ts: Seq<i64>, r: Seq<usize>) -> bool {
    forall|k: int, l: int| 0 <= k < l < r.len() ==> ts[r[k] as int] < ts[r[l] as int]
}

/// No row among the first `n` after a kept row has its time.
#[verifier::opaque]
pub open spec fn rows_last(ts: Seq<i64>, n: int, r: Seq<usize>) -> bool {
    forall|k: int, j: int| #![trigger r[k], ts[j]] 0 <= k < r.len() && (r[k] as int) < j < n ==> ts[j] != ts[r[k] as int]
}

/// Every time among the first `n` rows is kept.
#[verifier::opaque]
pub open spec fn rows_cover(ts: Seq<i64>, n: int, r: Seq<usize>) -> bool {
    forall|x: int| 0 <= x < n ==> exists|k: int| 0 <= k < r.len() && ts[#[trigger] r[k] as int] == #[trigger] ts[x]
}

/// The rows a feed keeps of its first `n` rows when it keys candles by
/// opening time: one row per distinct time, the last of those rows with
/// that time, in ascending order of time.
pub open spec fn keeps_last_upto(ts: Seq<i64>, n: int, r: Seq<usize>) -> bool {
    &&& rows_below(r, n)
    &&& rows_ascending(ts, r)
    &&& rows_last(ts, n, r)
    &&& rows_cover(ts, n, r)
}

/// The rows a feed keeps of all its rows.
pub open spec fn keeps_last_by_time(ts: Seq<i64>, r: Seq<usize>) -> bool {
    keeps_last_upto(ts, ts.len() as int, r)
}

/// Replacing the kept row of a time by a later row with the same time
/// keeps the rows right.
proof fn lemma_keep_replaces(ts: Seq<i64>, i: int, before: Seq<usize>, p: int, r: Seq<usize>)
    requires
        0 <= i < ts.len(),
        0 <= p < before.len(),
        keeps_last_upto(ts, i, before),
        ts[before[p] as int] == ts[i],
        r.len() == before.len(),
        r[p] as int == i,
        forall|k: int| 0 <= k < r.len() && k != p ==> r[k] == before[k],
    ensures
        keeps_last_upto(ts, i + 1, r),
{
    reveal(rows_below);
    reveal(rows_ascending);
    reveal(rows_last);
    reveal(rows_cover);
    assert forall|k: int| 0 <= k < r.len() implies (#[trigger] r[k] as int) < i + 1 by {}
    assert forall|k: int, l: int| 0 <= k < l < r.len() implies ts[r[k] as int] < ts[r[l] as int] by {
        assert(ts[before[k] as int] < ts[before[l] as int]);
    }
    assert forall|k: int, j: int| #![trigger r[k], ts[j]] 0 <= k < r.len() && (r[k] as int) < j < i + 1
        implies ts[j] != ts[r[k] as int] by {
        if k != p {
            if j < i {
                assert(ts[j] != ts[before[k] as int]);
            } else {
                assert(ts[before[k] as int] != ts[before[p] as int]);
            }
        }
    }
    assert forall|x: int| 0 <= x < i + 1 implies exists|k: int| 0 <= k < r.len() && ts[#[trigger] r[k] as int] == #[trigger] ts[x] by {
        if x == i {
            assert(ts[r[p] as int] == ts[x]);
        } else {
            let k = choose|k: int| 0 <= k < before.len() && ts[#[trigger] before[k] as int] == ts[x];
            if k == p {
                assert(ts[r[p] as int] == ts[x]);
            } else {
                assert(ts[r[k] as int] == ts[x]);
            }
        }
    }
}

/// Where a row with a new time goes in: before it only smaller times, at
/// it (if anything) a larger one; `r` is `before` with the row put at `p`.
pub open spec fn inserted_at(ts: Seq<i64>, i: int, before: Seq<usize>, p: int, r: Seq<usize>) -> bool {
    &&& 0 <= i < ts.len()
    &&& 0 <= p <= before.len()
    &&& keeps_last_upto(ts, i, before)
    &&& forall|k: int| 0 <= k < p ==> ts[#[trigger] before[k] as int] < ts[i]
    &&& p < before.len() ==> ts[before[p] as int] > ts[i]
    &&& r.len() == before.len() + 1
    &&& r[p] as int == i
    &&& forall|k: int| 0 <= k < p ==> #[trigger] r[k] == before[k]
    &&& forall|k: int| p < k < r.len() ==> #[trigger] r[k] == before[k - 1]
}

/// After an insertion every kept row is among the first `i + 1`.
proof fn lemma_insert_below(ts: Seq<i64>, i: int, before: Seq<usize>, p: int, r: Seq<usize>)
    requires
        inserted_at(ts, i, before, p, r),
    ensures
        rows_below(r, i + 1),
{
    reveal(rows_below);
    assert forall|k: int| 0 <= k < r.len() implies (#[trigger] r[k] as int) < i + 1 by {
        if k < p {
            assert(r[k] == before[k]);
        } else if k > p {
            assert(r[k] == before[k - 1]);
        }
    }
}

/// After an insertion the kept times stay ascending.
proof fn lemma_insert_ascending(ts: Seq<i64>, i: int, before: Seq<usize>, p: int, r: Seq<usize>)
    requires
        inserted_at(ts, i, before, p, r),
    ensures
        rows_ascending(ts, r),
{
    reveal(rows_ascending);
    assert forall|k: int, l: int| 0 <= k < l < r.len() implies ts[r[k] as int] < ts[r[l] as int] by {
        if l < p {
            assert(r[k] == before[k] && r[l] == before[l]);
        } else if l == p {
            assert(r[k] == before[k]);
        } else if k < p {
            assert(r[k] == before[k] && r[l] == before[l - 1]);
            if l - 1 > p {
                assert(ts[before[p] as int] < ts[before[l - 1] as int]);
            }
        } else if k == p {
            assert(r[l] == before[l - 1]);
            if l - 1 > p {
                assert(ts[before[p] as int] < ts[before[l - 1] as int]);
            }
        } else {
            assert(r[k] == before[k - 1] && r[l] == before[l - 1]);
        }
    }
}

/// After an insertion no kept row has a later row with its time.
proof fn lemma_insert_last(ts: Seq<i64>, i: int, before: Seq<usize>, p: int, r: Seq<usize>)
    requires
        inserted_at(ts, i, before, p, r),
    ensures
        rows_last(ts, i + 1, r),
{
    reveal(rows_last);
    reveal(rows_ascending);
    reveal(rows_below);
    assert forall|k: int, j: int| #![trigger r[k], ts[j]] 0 <= k < r.len() && (r[k] as int) < j < i + 1
        implies ts[j] != ts[r[k] as int] by {
        if k != p {
            let kb = if k < p { k } else { k - 1 };
            assert(r[k] == before[kb]);
            if j < i {
                assert(ts[j] != ts[before[kb] as int]);
            } else if kb > p {
                assert(ts[before[p] as int] < ts[before[kb] as int]);
            }
        }
    }
}

/// After an insertion every time seen so far is kept.
proof fn lemma_insert_cover(ts: Seq<i64>, i: int, before: Seq<usize>, p: int, r: Seq<usize>)
    requires
        inserted_at(ts, i, before, p, r),
    ensures
        rows_cover(ts, i + 1, r),
{
    reveal(rows_cover);
    assert forall|x: int| 0 <= x < i + 1 implies exists|k: int| 0 <= k < r.len() && ts[#[trigger] r[k] as int] == #[trigger] ts[x] by {
        if x == i {
            assert(ts[r[p] as int] == ts[x]);
        } else {
            let k = choose|k: int| 0 <= k < before.len() && ts[#[trigger] before[k] as int] == ts[x];
            if k < p {
                assert(r[k] == before[k]);
                assert(ts[r[k] as int] == ts[x]);
            } else {
                assert(r[k + 1] == before[k]);
                assert(ts[r[k + 1] as int] == ts[x]);
            }
        }
    }
}

/// The rows of a candle feed to keep, as indices into `ts_open`: for each
/// distinct opening time the last row that has it, ascending by time. This
/// is what keying the rows by time in an ordered map, a later row replacing
/// an earlier one, and reading the map in order gives.
pub fn rows_by_time(ts_open: &Vec<i64>) -> (r: Vec<usize>)
    ensures
        keeps_last_by_time(ts_open@, r@),
{
    let ghost ts = ts_open@;
    let mut r: Vec<usize> = Vec::new();
    proof {
        reveal(rows_below);
        reveal(rows_ascending);
        reveal(rows_last);
        reveal(rows_cover);
    }
    let mut i: usize = 0;
    while i < ts_open.len()
        invariant
            0 <= i <= ts_open.len(),
            ts == ts_open@,
            keeps_last_upto(ts, i as int, r@),
        decreases ts_open.len() - i,
    {
        let t = ts_open[i];
        proof {
            reveal(rows_below);
        }
        let mut p: usize = 0;
        while p < r.len() && ts_open[r[p]] < t
            invariant
                0 <= p <= r.len(),
                i < ts_open.len(),
                ts == ts_open@,
                forall|k: int| 0 <= k < r.len() ==> (#[trigger] r@[k] as int) < i,
                forall|k: int| 0 <= k < p ==> ts[#[trigger] r@[k] as int] < t,
            decreases r.len() - p,
        {
            p += 1;
        }
        let ghost before = r@;
        if p < r.len() && ts_open[r[p]] == t {
            r.set(p, i);
            proof {
                lemma_keep_replaces(ts, i as int, before, p as int, r@);
            }
        } else {
            r.insert(p, i);
            proof {
                assert(r@ == before.insert(p as int, i));
                assert forall|k: int| 0 <= k < p implies #[trigger] r@[k] == before[k] by {}
                assert forall|k: int| p < k < r.len() implies #[trigger] r@[k] == before[k - 1] by {}
                assert(inserted_at(ts, i as int, before, p as int, r@));
                lemma_insert_below(ts, i as int, before, p as int, r@);
                lemma_insert_ascending(ts, i as int, before, p as int, r@);
                lemma_insert_last(ts, i as int, before, p as int, r@);
                lemma_insert_cover(ts, i as int, before, p as int, r@);
            }
        }
        i += 1;
    }
    r
}

} // verus!
