//! The small vocabularies the agent speaks: strategy ids, timeframes, trade
//! sides, exit reasons and a few tagged types shared across the crate.
use vstd::prelude::*;
use crate::numbers::{parse_i64, spec_parse_i64};
use crate::text::{lemma_plain_key_is_fixed, plain_key, chars_of, str_eq, string_of, to_lowercase, to_uppercase, trim, trim_str, unicode_lowercase, unicode_uppercase};

verus! {

broadcast use vstd::string::group_string_axioms;

// ---------------------------------------------------------------------------
// Strategy ids.
// ---------------------------------------------------------------------------

/// The strategy a lowercased, trimmed id names, by its canonical id.
pub open spec fn canonical_key(key: Seq<char>) -> Option<Seq<char>> {
    if key == "2pa_source"@ || key == "2pa_original"@ {
        Some("2pa_source"@)
    } else if key == "2pa"@ || key == "2pa_trend"@ {
        Some("2pa_trend"@)
    } else if key == "dog_walking"@ || key == "dog_reversion"@ || key == "遛狗"@ {
        Some("dog_reversion"@)
    } else if key == "dog_trend"@ {
        Some("dog_trend"@)
    } else if key == "adaptive"@ || key == "自适应"@ {
        Some("adaptive"@)
    } else {
        None
    }
}

/// The canonical id of a strategy name, ignoring surrounding whitespace and
/// letter case.
pub open spec fn spec_canonical(id: Seq<char>) -> Option<Seq<char>> {
    canonical_key(unicode_lowercase(trim(id)))
}

/// Maps a strategy name or alias to its canonical id.
pub fn canonical(id: &str) -> (r: Option<&'static str>)
    ensures
        match r {
            Some(c) => spec_canonical(id@) == Some(c@),
            None => spec_canonical(id@) is None,
        },
{
    let t = trim_str(id);
    let key = to_lowercase(t.as_str());
    let k = key.as_str();
    if str_eq(k, "2pa_source") || str_eq(k, "2pa_original") {
        Some("2pa_source")
    } else if str_eq(k, "2pa") || str_eq(k, "2pa_trend") {
        Some("2pa_trend")
    } else if str_eq(k, "dog_walking") || str_eq(k, "dog_reversion") || str_eq(k, "遛狗") {
        Some("dog_reversion")
    } else if str_eq(k, "dog_trend") {
        Some("dog_trend")
    } else if str_eq(k, "adaptive") || str_eq(k, "自适应") {
        Some("adaptive")
    } else {
        None
    }
}

/// Every canonical id names itself: the table maps each id it produces
/// back to that id.
pub proof fn law_canonical_ids_are_fixed_points(key: Seq<char>)
    ensures
        canonical_key(key) matches Some(c) ==> canonical_key(c) == Some(c),
{
    reveal_strlit("2pa_source");
    reveal_strlit("2pa_original");
    reveal_strlit("2pa");
    reveal_strlit("2pa_trend");
    reveal_strlit("dog_walking");
    reveal_strlit("dog_reversion");
    reveal_strlit("遛狗");
    reveal_strlit("dog_trend");
    reveal_strlit("adaptive");
    reveal_strlit("自适应");
    assert("2pa_source"@.len() == 10 && "2pa_source"@[0] == '2');
    assert("2pa_original"@.len() == 12 && "2pa_original"@[0] == '2');
    assert("2pa"@.len() == 3 && "2pa"@[0] == '2');
    assert("2pa_trend"@.len() == 9 && "2pa_trend"@[0] == '2');
    assert("dog_walking"@.len() == 11 && "dog_walking"@[0] == 'd');
    assert("dog_reversion"@.len() == 13 && "dog_reversion"@[0] == 'd');
    assert("遛狗"@.len() == 2 && "遛狗"@[0] == '遛');
    assert("dog_trend"@.len() == 9 && "dog_trend"@[0] == 'd');
    assert("adaptive"@.len() == 8 && "adaptive"@[0] == 'a');
    assert("自适应"@.len() == 3 && "自适应"@[0] == '自');
}

/// A canonical id, in whatever case and with whatever surrounding
/// whitespace it is given, names itself: canonicalising twice changes
/// nothing.
pub proof fn law_canonical_is_idempotent(id: Seq<char>)
    ensures
        spec_canonical(id) matches Some(c) ==> spec_canonical(c) == Some(c),
{
    law_canonical_ids_are_fixed_points(unicode_lowercase(trim(id)));
    if let Some(c) = spec_canonical(id) {
        reveal_strlit("2pa_source");
        reveal_strlit("2pa_trend");
        reveal_strlit("dog_reversion");
        reveal_strlit("dog_trend");
        reveal_strlit("adaptive");
        reveal_with_fuel(plain_key, 14);
        assert(plain_key(c));
        lemma_plain_key_is_fixed(c);
    }
}

// ---------------------------------------------------------------------------
// Timeframes.
// ---------------------------------------------------------------------------

/// Milliseconds per unit for a timeframe suffix, or 0 for an unknown one.
pub open spec fn unit_ms(c: char) -> int {
    if c == 'm' {
        60_000
    } else if c == 'h' {
        3_600_000
    } else if c == 'd' {
        86_400_000
    } else {
        0
    }
}

/// The length in milliseconds of a timeframe such as `15m`, `4H` or `1d`:
/// a count from 1 to 1440 followed by a minute, hour or day suffix, letter
/// case ignored. `None` for anything else.
pub open spec fn spec_timeframe_ms(tf: Seq<char>) -> Option<int> {
    let s = unicode_lowercase(tf);
    let unit = if s.len() > 0 {
        unit_ms(s.last())
    } else {
        0
    };
    let n = match spec_parse_i64(
        if s.len() > 0 {
            s.drop_last()
        } else {
            s
        },
    ) {
        Some(v) => v,
        None => 0,
    };
    if unit > 0 && 0 < n <= 1440 {
        Some(unit * n)
    } else {
        None
    }
}

/// The error for a timeframe that is not supported.
pub open spec fn unsupported_timeframe() -> Seq<char> {
    "不支持的行情周期"@
}

/// The length of a timeframe in milliseconds. A timeframe whose lowercase
/// form ends in a non-ASCII character has no unit and is refused like any
/// other unsupported timeframe.
pub fn timeframe_ms(tf: &str) -> (r: Result<i64, String>)
    ensures
        match r {
            Ok(ms) => spec_timeframe_ms(tf@) == Some(ms as int) && 0 < ms <= 124_416_000_000,
            Err(e) => spec_timeframe_ms(tf@) is None && e@ == unsupported_timeframe(),
        },
{
    let s = to_lowercase(tf);
    let v = chars_of(s.as_str());
    let unit: i64 = if v.len() == 0 {
        0
    } else {
        let last = v[v.len() - 1];
        if last == 'm' {
            60_000
        } else if last == 'h' {
            3_600_000
        } else if last == 'd' {
            86_400_000
        } else {
            0
        }
    };
    let body = if v.len() == 0 {
        string_of(&v)
    } else {
        let mut w: Vec<char> = Vec::new();
        let mut i: usize = 0;
        while i + 1 < v.len()
            invariant
                0 < v.len(),
                0 <= i < v.len(),
                w@ == v@.subrange(0, i as int),
            decreases v.len() - i,
        {
            w.push(v[i]);
            proof {
                assert(v@.subrange(0, i + 1) =~= v@.subrange(0, i as int).push(v@[i as int]));
            }
            i += 1;
        }
        proof {
            assert(v@.subrange(0, i as int) =~= v@.drop_last());
        }
        string_of(&w)
    };
    let n: i64 = match parse_i64(body.as_str()) {
        Some(x) => x,
        None => 0,
    };
    if unit > 0 && n > 0 && n <= 1440 {
        assert(0 < unit * n <= 124_416_000_000) by (nonlinear_arith)
            requires
                0 < unit <= 86_400_000,
                0 < n <= 1440,
        ;
        Ok(unit * n)
    } else {
        Err(String::from_str("不支持的行情周期"))
    }
}

/// The bar length the backtester uses for a timeframe; unknown timeframes
/// count as 15 minutes.
pub open spec fn spec_timeframe_to_ms(tf: Seq<char>) -> int {
    let s = unicode_lowercase(trim(tf));
    if s == "1m"@ {
        60_000
    } else if s == "3m"@ {
        180_000
    } else if s == "5m"@ {
        300_000
    } else if s == "15m"@ {
        900_000
    } else if s == "30m"@ {
        1_800_000
    } else if s == "1h"@ {
        3_600_000
    } else if s == "2h"@ {
        7_200_000
    } else if s == "4h"@ {
        14_400_000
    } else if s == "6h"@ {
        21_600_000
    } else if s == "12h"@ {
        43_200_000
    } else if s == "1d"@ {
        86_400_000
    } else {
        900_000
    }
}

/// Converts a timeframe string to milliseconds for the backtester.
pub fn timeframe_to_ms(tf: &str) -> (r: i64)
    ensures
        r == spec_timeframe_to_ms(tf@),
{
    let t = trim_str(tf);
    let low = to_lowercase(t.as_str());
    let s = low.as_str();
    if str_eq(s, "1m") {
        60_000
    } else if str_eq(s, "3m") {
        180_000
    } else if str_eq(s, "5m") {
        300_000
    } else if str_eq(s, "15m") {
        900_000
    } else if str_eq(s, "30m") {
        1_800_000
    } else if str_eq(s, "1h") {
        3_600_000
    } else if str_eq(s, "2h") {
        7_200_000
    } else if str_eq(s, "4h") {
        14_400_000
    } else if str_eq(s, "6h") {
        21_600_000
    } else if str_eq(s, "12h") {
        43_200_000
    } else if str_eq(s, "1d") {
        86_400_000
    } else {
        900_000
    }
}

// ---------------------------------------------------------------------------
// Sides and exits.
// ---------------------------------------------------------------------------

/// The side a lowercased, trimmed word names.
pub open spec fn side_key(key: Seq<char>) -> Option<Seq<char>> {
    if key == "long"@ || key == "做多"@ || key == "buy"@ || key == "多"@ {
        Some("long"@)
    } else if key == "short"@ || key == "做空"@ || key == "sell"@ || key == "空"@ {
        Some("short"@)
    } else {
        None
    }
}

/// The side a trade direction names, in English or Chinese.
pub open spec fn spec_normalize_side(raw: Seq<char>) -> Option<Seq<char>> {
    side_key(unicode_lowercase(trim(raw)))
}

/// Normalises a trade direction to `long` or `short`.
pub fn normalize_side(raw: &str) -> (r: Option<&'static str>)
    ensures
        match r {
            Some(s) => spec_normalize_side(raw@) == Some(s@),
            None => spec_normalize_side(raw@) is None,
        },
{
    let t = trim_str(raw);
    let low = to_lowercase(t.as_str());
    let k = low.as_str();
    if str_eq(k, "long") || str_eq(k, "做多") || str_eq(k, "buy") || str_eq(k, "多") {
        Some("long")
    } else if str_eq(k, "short") || str_eq(k, "做空") || str_eq(k, "sell") || str_eq(k, "空") {
        Some("short")
    } else {
        None
    }
}

/// A normalised side normalises to itself.
pub proof fn law_side_keys_are_fixed_points(key: Seq<char>)
    ensures
        side_key(key) matches Some(s) ==> side_key(s) == Some(s),
{
    reveal_strlit("long");
    reveal_strlit("做多");
    reveal_strlit("buy");
    reveal_strlit("多");
    reveal_strlit("short");
    reveal_strlit("做空");
    reveal_strlit("sell");
    reveal_strlit("空");
    assert("long"@.len() == 4 && "long"@[0] == 'l');
    assert("做多"@.len() == 2 && "做多"@[0] == '做');
    assert("buy"@.len() == 3 && "buy"@[0] == 'b');
    assert("多"@.len() == 1 && "多"@[0] == '多');
    assert("short"@.len() == 5 && "short"@[0] == 's');
    assert("做空"@.len() == 2 && "做空"@[0] == '做');
    assert("sell"@.len() == 4 && "sell"@[0] == 's');
    assert("空"@.len() == 1 && "空"@[0] == '空');
}

/// How a resolved trade ended.
#[derive(Debug, Clone, Copy, PartialEq, Eq, Structural)]
pub enum ExitReason {
    TakeProfit,
    StopLoss,
    ClosedEarly,
    Expired,
    /// The entry order never filled; the decision produced no position.
    Unfilled,
}

/// The stored name of an exit reason.
pub open spec fn exit_name(r: ExitReason) -> Seq<char> {
    match r {
        ExitReason::TakeProfit => "take_profit"@,
        ExitReason::StopLoss => "stop_loss"@,
        ExitReason::ClosedEarly => "closed_early"@,
        ExitReason::Expired => "expired"@,
        ExitReason::Unfilled => "unfilled"@,
    }
}

/// The exit reason a lowercased, trimmed name or abbreviation stands for.
pub open spec fn exit_key(key: Seq<char>) -> Option<ExitReason> {
    if key == "take_profit"@ || key == "tp"@ {
        Some(ExitReason::TakeProfit)
    } else if key == "stop_loss"@ || key == "sl"@ {
        Some(ExitReason::StopLoss)
    } else if key == "closed_early"@ || key == "close_early"@ {
        Some(ExitReason::ClosedEarly)
    } else if key == "expired"@ {
        Some(ExitReason::Expired)
    } else if key == "unfilled"@ {
        Some(ExitReason::Unfilled)
    } else {
        None
    }
}

/// The exit reason a stored name stands for.
pub open spec fn spec_parse_exit(raw: Seq<char>) -> Option<ExitReason> {
    exit_key(unicode_lowercase(trim(raw)))
}

impl ExitReason {
    /// The stored name of the reason.
    pub fn as_str(&self) -> (r: &'static str)
        ensures
            r@ == exit_name(*self),
    {
        match self {
            ExitReason::TakeProfit => "take_profit",
            ExitReason::StopLoss => "stop_loss",
            ExitReason::ClosedEarly => "closed_early",
            ExitReason::Expired => "expired",
            ExitReason::Unfilled => "unfilled",
        }
    }

    /// Reads a stored name back, ignoring whitespace and letter case and
    /// accepting the abbreviations `tp` and `sl` and the spelling
    /// `close_early`.
    pub fn parse(raw: &str) -> (r: Option<ExitReason>)
        ensures
            r == spec_parse_exit(raw@),
    {
        let t = trim_str(raw);
        let low = to_lowercase(t.as_str());
        let k = low.as_str();
        if str_eq(k, "take_profit") || str_eq(k, "tp") {
            Some(ExitReason::TakeProfit)
        } else if str_eq(k, "stop_loss") || str_eq(k, "sl") {
            Some(ExitReason::StopLoss)
        } else if str_eq(k, "closed_early") || str_eq(k, "close_early") {
            Some(ExitReason::ClosedEarly)
        } else if str_eq(k, "expired") {
            Some(ExitReason::Expired)
        } else if str_eq(k, "unfilled") {
            Some(ExitReason::Unfilled)
        } else {
            None
        }
    }
}

/// Reading a stored name gives back the reason that was stored: the name
/// table and the parse table agree on every reason.
pub proof fn law_exit_name_round_trip(r: ExitReason)
    ensures
        exit_key(exit_name(r)) == Some(r),
{
    reveal_strlit("take_profit");
    reveal_strlit("tp");
    reveal_strlit("stop_loss");
    reveal_strlit("sl");
    reveal_strlit("closed_early");
    reveal_strlit("close_early");
    reveal_strlit("expired");
    reveal_strlit("unfilled");
    assert("take_profit"@.len() == 11 && "take_profit"@[0] == 't');
    assert("tp"@.len() == 2 && "tp"@[0] == 't');
    assert("stop_loss"@.len() == 9 && "stop_loss"@[0] == 's');
    assert("sl"@.len() == 2 && "sl"@[0] == 's');
    assert("closed_early"@.len() == 12 && "closed_early"@[0] == 'c');
    assert("close_early"@.len() == 11 && "close_early"@[0] == 'c');
    assert("expired"@.len() == 7 && "expired"@[0] == 'e');
    assert("unfilled"@.len() == 8 && "unfilled"@[0] == 'u');
}

/// Parsing the stored name of a reason gives the reason back: the stored
/// names are their own trimmed lowercase forms.
pub proof fn law_parse_reads_back_stored_names(r: ExitReason)
    ensures
        spec_parse_exit(exit_name(r)) == Some(r),
{
    reveal_strlit("take_profit");
    reveal_strlit("stop_loss");
    reveal_strlit("closed_early");
    reveal_strlit("expired");
    reveal_strlit("unfilled");
    reveal_with_fuel(plain_key, 13);
    assert(plain_key(exit_name(r)));
    lemma_plain_key_is_fixed(exit_name(r));
    law_exit_name_round_trip(r);
}

/// The exit a management action forces: closing early is the only one.
pub open spec fn spec_classify_management(action: Seq<char>) -> Option<ExitReason> {
    if unicode_uppercase(trim(action)) == "CLOSE_EARLY"@ {
        Some(ExitReason::ClosedEarly)
    } else {
        None
    }
}

/// The exit reason a management action imposes on an open trade, if any.
pub fn classify_management(action: &str) -> (r: Option<ExitReason>)
    ensures
        r == spec_classify_management(action@),
{
    let t = trim_str(action);
    let up = to_uppercase(t.as_str());
    if str_eq(up.as_str(), "CLOSE_EARLY") {
        Some(ExitReason::ClosedEarly)
    } else {
        None
    }
}

/// The side of a simulated position.
#[derive(Debug, Clone, Copy, PartialEq, Eq, Structural)]
pub enum PositionSide {
    Long,
    Short,
}

impl PositionSide {
    /// The Chinese direction word for the side.
    pub fn as_str(&self) -> (r: &'static str)
        ensures
            r@ == (match *self {
                PositionSide::Long => "做多"@,
                PositionSide::Short => "做空"@,
            }),
    {
        match self {
            PositionSide::Long => "做多",
            PositionSide::Short => "做空",
        }
    }
}

// ---------------------------------------------------------------------------
// Shared tagged types.
// ---------------------------------------------------------------------------

/// Where a backtest reads its candles from.
#[derive(Debug, Clone, Copy, PartialEq, Eq, Structural)]
pub enum BacktestDataSource {
    OkxApi,
    LocalFile,
    Synthetic,
}

impl Default for BacktestDataSource {
    fn default() -> (r: Self)
        ensures
            r == BacktestDataSource::OkxApi,
    {
        BacktestDataSource::OkxApi
    }
}

/// The three question primitives of the TypeSafe service.
#[derive(Debug, Clone, Copy, PartialEq, Eq, Structural)]
pub enum QuestionType {
    Choice,
    Score,
    Noul,
}

/// Token usage reported by the TypeSafe service.
#[derive(Debug, Clone, Copy, PartialEq, Eq, Structural)]
pub struct TypeSafeUsage {
    pub input_tokens: usize,
    pub output_tokens: usize,
}

impl Default for TypeSafeUsage {
    fn default() -> (r: Self)
        ensures
            r.input_tokens == 0 && r.output_tokens == 0,
    {
        TypeSafeUsage { input_tokens: 0, output_tokens: 0 }
    }
}

/// Why a lifecycle hook refused to let an order through.
#[derive(Debug)]
pub enum HookRejection {
    CircuitBreakerTriggered(String),
    RiskLimitExceeded(String),
    PolicyViolation(String),
    Custom(String),
}

/// The text shown for a rejection: a label for its kind, then its detail.
pub open spec fn rejection_text(r: HookRejection) -> Seq<char> {
    match r {
        HookRejection::CircuitBreakerTriggered(m) => "熔断触发: "@ + m@,
        HookRejection::RiskLimitExceeded(m) => "风控超限: "@ + m@,
        HookRejection::PolicyViolation(m) => "策略约束违规: "@ + m@,
        HookRejection::Custom(m) => "Hook 拦截: "@ + m@,
    }
}

impl HookRejection {
    /// The text of the rejection, as it is shown to the operator.
    pub fn message(&self) -> (r: String)
        ensures
            r@ == rejection_text(*self),
    {
        match self {
            HookRejection::CircuitBreakerTriggered(m) => crate::text::concat2("熔断触发: ", m.as_str()),
            HookRejection::RiskLimitExceeded(m) => crate::text::concat2("风控超限: ", m.as_str()),
            HookRejection::PolicyViolation(m) => crate::text::concat2("策略约束违规: ", m.as_str()),
            HookRejection::Custom(m) => crate::text::concat2("Hook 拦截: ", m.as_str()),
        }
    }
}

/// The envelope of every OKX REST reply: a status code, a message and the
/// data rows.
#[derive(Debug)]
pub struct OKXApiResponse<T> {
    pub code: String,
    pub msg: String,
    pub data: Vec<T>,
}

// ---------------------------------------------------------------------------
// Gaps in candle history.
// ---------------------------------------------------------------------------

/// A hole in a run of candles: the open times on either side and how many
/// bars are missing between them.
#[derive(Debug, Clone, Copy, PartialEq, Eq, Structural)]
pub struct DataGap {
    pub prev_ts: i64,
    pub next_ts: i64,
    pub missing_bars: usize,
}

/// The gaps among the first `n` open times: wherever consecutive times lie
/// at least two intervals apart, the bars that should lie between them.
pub open spec fn gaps_upto(ts: Seq<i64>, interval: int, n: int) -> Seq<DataGap>
    decreases n,
{
    if n <= 1 {
        Seq::empty()
    } else {
        let prev = gaps_upto(ts, interval, n - 1);
        let delta = ts[n - 1] - ts[n - 2];
        if delta > interval && delta / interval - 1 > 0 {
            prev.push(
                DataGap {
                    prev_ts: ts[n - 2],
                    next_ts: ts[n - 1],
                    missing_bars: (delta / interval - 1) as usize,
                },
            )
        } else {
            prev
        }
    }
}

/// The gaps in a run of open times sorted oldest first; none when there are
/// fewer than two times or the interval is not positive.
pub open spec fn spec_detect_gaps(ts: Seq<i64>, interval: int) -> Seq<DataGap> {
    if ts.len() < 2 || interval <= 0 {
        Seq::empty()
    } else {
        gaps_upto(ts, interval, ts.len() as int)
    }
}

/// Finds the gaps in a run of candle open times sorted oldest first.
/// Consecutive times must differ by an amount an `i64` holds.
pub fn detect_gaps(ts_open: &Vec<i64>, expected_interval_ms: i64) -> (r: Vec<DataGap>)
    requires
        forall|i: int|
            1 <= i < ts_open.len() ==> i64::MIN <= #[trigger] ts_open[i] - ts_open[i - 1]
                <= i64::MAX,
    ensures
        r@ == spec_detect_gaps(ts_open@, expected_interval_ms as int),
{
    let mut gaps: Vec<DataGap> = Vec::new();
    if ts_open.len() < 2 || expected_interval_ms <= 0 {
        return gaps;
    }
    let mut i: usize = 1;
    while i < ts_open.len()
        invariant
            1 <= i <= ts_open.len(),
            expected_interval_ms > 0,
            forall|j: int|
                1 <= j < ts_open.len() ==> i64::MIN <= #[trigger] ts_open[j] - ts_open[j - 1]
                    <= i64::MAX,
            gaps@ == gaps_upto(ts_open@, expected_interval_ms as int, i as int),
        decreases ts_open.len() - i,
    {
        assert(i64::MIN <= ts_open[i as int] - ts_open[i - 1] <= i64::MAX);
        let delta: i64 = ts_open[i] - ts_open[i - 1];
        if delta > expected_interval_ms {
            let q: i64 = delta / expected_interval_ms;
            let missing: i64 = q - 1;
            if missing > 0 {
                gaps.push(
                    DataGap {
                        prev_ts: ts_open[i - 1],
                        next_ts: ts_open[i],
                        missing_bars: missing as usize,
                    },
                );
            }
        }
        i += 1;
    }
    gaps
}

/// Every gap reported lies between two consecutive open times at least two
/// intervals apart, and counts the whole intervals between them less one.
pub proof fn law_gaps_are_real(ts: Seq<i64>, interval: int, n: int, k: int)
    requires
        interval > 0,
        0 <= n <= ts.len(),
        0 <= k < gaps_upto(ts, interval, n).len(),
    ensures
        exists|i: int|
            1 <= i < n && #[trigger] ts[i] == gaps_upto(ts, interval, n)[k].next_ts
                && ts[i - 1] == gaps_upto(ts, interval, n)[k].prev_ts && ts[i] - ts[i - 1]
                > interval && (ts[i] - ts[i - 1]) / interval - 1 > 0
                && gaps_upto(ts, interval, n)[k].missing_bars == (((ts[i] - ts[i - 1]) / interval
                - 1) as usize),
    decreases n,
{
    let prev = gaps_upto(ts, interval, n - 1);
    if k < prev.len() {
        law_gaps_are_real(ts, interval, n - 1, k);
        assert(gaps_upto(ts, interval, n)[k] == prev[k]);
    } else {
        let i = n - 1;
        assert(ts[i] == gaps_upto(ts, interval, n)[k].next_ts);
    }
}

} // verus!
