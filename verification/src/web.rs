//! What the web console sends and shows: request parameters with their
//! defaults, and the state of the automation loop with its transitions.
use vstd::prelude::*;
use crate::mask::replace_str;
use crate::text::{
    chars_of, concat2, contains, lemma_lt_asymmetric, lemma_lt_irreflexive, lemma_lt_total, lemma_lt_transitive, owned,
    replace_all, seq_lt, str_contains, str_eq, str_lt, string_of, to_uppercase, trim, trim_str, unicode_uppercase, views,
};

verus! {

broadcast use vstd::string::group_string_axioms;

// ---------------------------------------------------------------------------
// Request parameters.
// ---------------------------------------------------------------------------

/// Instruments listing: which instrument type.
#[derive(Debug)]
pub struct InstrumentsQuery {
    pub inst_type: String,
}

/// Candle download: instrument, timeframe and how many bars.
#[derive(Debug)]
pub struct CandlesQuery {
    pub inst_id: String,
    pub timeframe: String,
    pub limit: usize,
}

/// A listing that only takes a length.
#[derive(Debug)]
pub struct LimitQuery {
    pub limit: usize,
}

/// A request for one analysis, optionally executed.
#[derive(Debug)]
pub struct AnalyzeRequest {
    pub inst_id: String,
    pub timeframe: String,
    pub bar_count: usize,
    pub execute: bool,
}

/// Switching the automation loop on or off, with its trading session.
#[derive(Debug)]
pub struct AutomationRequest {
    pub enabled: bool,
    pub inst_id: String,
    pub timeframe: String,
    pub confirmation: String,
    pub session_preset: Option<String>,
    pub session_timezone: Option<String>,
    pub session_start: Option<String>,
    pub session_end: Option<String>,
    pub session_weekdays: Option<Vec<u32>>,
}

/// Contract specifications, for one symbol or all.
#[derive(Debug)]
pub struct ContractSpecsQuery {
    pub symbol: Option<String>,
}

/// Instrument type when none is given.
pub fn default_inst_type() -> (r: String)
    ensures
        r@ == "SPOT"@,
{
    String::from_str("SPOT")
}

/// Instrument when none is given.
pub fn default_inst_id() -> (r: String)
    ensures
        r@ == "BTC-USDT"@,
{
    String::from_str("BTC-USDT")
}

/// Timeframe when none is given.
pub fn default_timeframe() -> (r: String)
    ensures
        r@ == "15m"@,
{
    String::from_str("15m")
}

/// Candle count when none is given.
pub fn default_limit() -> (r: usize)
    ensures
        r == 120,
{
    120
}

/// Listing length when none is given.
pub fn default_limit_50() -> (r: usize)
    ensures
        r == 50,
{
    50
}

/// Analysis length when none is given.
pub fn default_bar_count() -> (r: usize)
    ensures
        r == 100,
{
    100
}

/// Provider address in the configuration form when none is given.
pub fn default_llm_base_url() -> (r: String)
    ensures
        r@ == "https://api.deepseek.com"@,
{
    String::from_str("https://api.deepseek.com")
}

/// Provider model in the configuration form when none is given.
pub fn default_llm_model() -> (r: String)
    ensures
        r@ == "deepseek-v4-flash"@,
{
    String::from_str("deepseek-v4-flash")
}

/// Trading system in the configuration form when none is given.
pub fn default_trading_system() -> (r: String)
    ensures
        r@ == "2pa"@,
{
    String::from_str("2pa")
}

/// Exchange address in the configuration form when none is given.
pub fn default_okx_base_url() -> (r: String)
    ensures
        r@ == "https://www.okx.com"@,
{
    String::from_str("https://www.okx.com")
}

/// Switches in the configuration form that default to on.
pub fn default_true() -> (r: bool)
    ensures
        r,
{
    true
}

/// Margin mode in the configuration form when none is given.
pub fn default_trade_mode() -> (r: String)
    ensures
        r@ == "cross"@,
{
    String::from_str("cross")
}

/// Position mode in the configuration form when none is given.
pub fn default_position_mode() -> (r: String)
    ensures
        r@ == "net"@,
{
    String::from_str("net")
}

impl InstrumentsQuery {
    /// The query with every parameter at its default.
    pub fn new() -> (q: Self)
        ensures
            q.inst_type@ == "SPOT"@,
    {
        InstrumentsQuery { inst_type: default_inst_type() }
    }
}

impl CandlesQuery {
    /// The query with every parameter at its default.
    pub fn new() -> (q: Self)
        ensures
            q.inst_id@ == "BTC-USDT"@,
            q.timeframe@ == "15m"@,
            q.limit == 120,
    {
        CandlesQuery { inst_id: default_inst_id(), timeframe: default_timeframe(), limit: default_limit() }
    }
}

impl LimitQuery {
    /// The query with its default length.
    pub fn new() -> (q: Self)
        ensures
            q.limit == 50,
    {
        LimitQuery { limit: default_limit_50() }
    }
}

impl AnalyzeRequest {
    /// The request with every parameter at its default: no execution.
    pub fn new() -> (q: Self)
        ensures
            q.inst_id@ == "BTC-USDT"@,
            q.timeframe@ == "15m"@,
            q.bar_count == 100,
            !q.execute,
    {
        AnalyzeRequest {
            inst_id: default_inst_id(),
            timeframe: default_timeframe(),
            bar_count: default_bar_count(),
            execute: false,
        }
    }
}

// ---------------------------------------------------------------------------
// Switching automation on.
// ---------------------------------------------------------------------------

/// The phrase that confirms switching automation on.
pub open spec fn required_phrase(demo: bool) -> Seq<char> {
    if demo {
        "ENABLE DEMO"@
    } else {
        "ENABLE LIVE"@
    }
}

/// Whether automation may be switched as requested: switching on needs the
/// demo account or acknowledged live trading; switching it on from off also
/// needs the confirmation phrase (trimmed, in any case) and configured
/// credentials.
pub open spec fn spec_automation_gate(
    enabled: bool,
    already_on: bool,
    demo: bool,
    live_acknowledged: bool,
    confirmation: Seq<char>,
    okx_configured: bool,
) -> Result<(), Seq<char>> {
    if enabled && !(demo || live_acknowledged) {
        Err("实盘执行未授权，请在服务器设置 OKX_LIVE_TRADING_ACKNOWLEDGED=true"@)
    } else if enabled && !already_on && unicode_uppercase(trim(confirmation)) != required_phrase(demo) {
        Err("confirmation must be "@ + required_phrase(demo))
    } else if enabled && !already_on && !okx_configured {
        Err("OKX API credentials are not configured"@)
    } else {
        Ok(())
    }
}

/// Checks a request to switch automation on or off.
pub fn automation_gate(
    enabled: bool,
    already_on: bool,
    demo: bool,
    live_acknowledged: bool,
    confirmation: &str,
    okx_configured: bool,
) -> (r: Result<(), String>)
    ensures
        match r {
            Ok(()) => spec_automation_gate(enabled, already_on, demo, live_acknowledged, confirmation@, okx_configured)
                == Ok::<(), Seq<char>>(()),
            Err(e) => spec_automation_gate(enabled, already_on, demo, live_acknowledged, confirmation@, okx_configured)
                == Err::<(), Seq<char>>(e@),
        },
{
    if enabled && !(demo || live_acknowledged) {
        return Err(String::from_str("实盘执行未授权，请在服务器设置 OKX_LIVE_TRADING_ACKNOWLEDGED=true"));
    }
    if enabled && !already_on {
        let required = if demo {
            "ENABLE DEMO"
        } else {
            "ENABLE LIVE"
        };
        let t = trim_str(confirmation);
        let upper = to_uppercase(t.as_str());
        if !str_eq(upper.as_str(), required) {
            return Err(concat2("confirmation must be ", required));
        }
        if !okx_configured {
            return Err(String::from_str("OKX API credentials are not configured"));
        }
    }
    Ok(())
}

/// Live automation is never switched on without acknowledged live trading
/// and the live confirmation phrase.
pub proof fn law_live_automation_needs_both_consents(
    already_on: bool,
    live_acknowledged: bool,
    confirmation: Seq<char>,
    okx_configured: bool,
)
    ensures
        spec_automation_gate(true, already_on, false, live_acknowledged, confirmation, okx_configured) is Ok
            ==> live_acknowledged && (already_on || (unicode_uppercase(trim(confirmation)) == "ENABLE LIVE"@
            && okx_configured)),
{
}

/// The symbol automation trades: trimmed and uppercased.
pub fn automation_symbol(symbol: &str) -> (r: String)
    ensures
        r@ == unicode_uppercase(trim(symbol@)),
{
    let t = trim_str(symbol);
    to_uppercase(t.as_str())
}

// ---------------------------------------------------------------------------
// The automation loop.
// ---------------------------------------------------------------------------

/// What the automation loop is doing and how it last fared.
#[derive(Debug)]
pub struct AutomationRuntime {
    pub phase: String,
    pub message: String,
    pub last_tick_ms: Option<i64>,
    pub last_attempt_ms: Option<i64>,
    pub last_success_ms: Option<i64>,
    pub last_error: Option<String>,
    pub consecutive_failures: u32,
    pub next_retry_ms: Option<i64>,
}

impl Default for AutomationRuntime {
    fn default() -> (r: Self)
        ensures
            r.phase@ == Seq::<char>::empty(),
            r.message@ == Seq::<char>::empty(),
            r.last_tick_ms is None,
            r.last_attempt_ms is None,
            r.last_success_ms is None,
            r.last_error is None,
            r.consecutive_failures == 0,
            r.next_retry_ms is None,
    {
        AutomationRuntime {
            phase: String::new(),
            message: String::new(),
            last_tick_ms: None,
            last_attempt_ms: None,
            last_success_ms: None,
            last_error: None,
            consecutive_failures: 0,
            next_retry_ms: None,
        }
    }
}

/// The wait after the `failures`-th failure in a row: 30 s, doubling with
/// each further failure up to the fourth, and never over 5 min.
pub open spec fn retry_delay_ms(failures: int) -> int {
    let f: int = if failures < 4 {
        failures
    } else {
        4
    };
    let step: int = if f <= 1 {
        1
    } else if f == 2 {
        2
    } else if f == 3 {
        4
    } else {
        8
    };
    if 30_000 * step < 300_000 {
        30_000 * step
    } else {
        300_000
    }
}

/// The wait before the next attempt after `failures` failures in a row.
pub fn retry_delay(failures: u32) -> (d: i64)
    ensures
        d == retry_delay_ms(failures as int),
{
    let f: u32 = if failures < 4 {
        failures
    } else {
        4
    };
    let shift: u32 = if f == 0 {
        0
    } else {
        f - 1
    };
    let step: i64 = if shift == 0 {
        1
    } else if shift == 1 {
        2
    } else if shift == 2 {
        4
    } else {
        8
    };
    let d: i64 = 30_000 * step;
    if d < 300_000 {
        d
    } else {
        300_000
    }
}

/// Whether a tick at `now` must wait for the retry time set by a failure.
pub fn in_backoff(rt: &AutomationRuntime, now: i64) -> (r: bool)
    ensures
        r == (rt.next_retry_ms matches Some(t) && now < t),
{
    match rt.next_retry_ms {
        Some(t) => now < t,
        None => false,
    }
}

/// Records the start of a tick.
pub fn note_tick(rt: &mut AutomationRuntime, now: i64)
    ensures
        final(rt).last_tick_ms == Some(now),
        final(rt).phase@ == old(rt).phase@,
        final(rt).message@ == old(rt).message@,
        final(rt).consecutive_failures == old(rt).consecutive_failures,
        final(rt).next_retry_ms == old(rt).next_retry_ms,
{
    rt.last_tick_ms = Some(now);
}

/// Sets the phase and its message.
pub fn set_phase(rt: &mut AutomationRuntime, phase: &str, message: &str)
    ensures
        final(rt).phase@ == phase@,
        final(rt).message@ == message@,
        final(rt).consecutive_failures == old(rt).consecutive_failures,
        final(rt).next_retry_ms == old(rt).next_retry_ms,
        final(rt).last_error == old(rt).last_error,
{
    rt.phase = owned(phase);
    rt.message = owned(message);
}

/// `text` with every non-empty secret replaced by `[redacted]`, in order.
pub open spec fn scrub_upto(text: Seq<char>, secrets: Seq<Seq<char>>, n: int) -> Seq<char>
    decreases n,
{
    if n <= 0 {
        text
    } else {
        let prev = scrub_upto(text, secrets, n - 1);
        if secrets[n - 1].len() == 0 {
            prev
        } else {
            replace_all(prev, secrets[n - 1], "[redacted]"@)
        }
    }
}

/// The error text kept for a failed tick: credentials scrubbed, then cut
/// to its first 2000 characters.
pub open spec fn failure_text(error: Seq<char>, secrets: Seq<Seq<char>>) -> Seq<char> {
    let s = scrub_upto(error, secrets, secrets.len() as int);
    if s.len() <= 2000 {
        s
    } else {
        s.take(2000)
    }
}

/// Scrubs the configured credentials out of an error text and cuts it to
/// 2000 characters.
pub fn failure_message(error: &str, secrets: &Vec<String>) -> (r: String)
    ensures
        r@ == failure_text(error@, secrets@.map_values(|s: String| s@)),
{
    let ghost sv = secrets@.map_values(|s: String| s@);
    let mut out = owned(error);
    let mut i: usize = 0;
    while i < secrets.len()
        invariant
            0 <= i <= secrets.len(),
            sv == secrets@.map_values(|s: String| s@),
            out@ == scrub_upto(error@, sv, i as int),
        decreases secrets.len() - i,
    {
        let s = secrets[i].as_str();
        if !s.is_empty() {
            out = replace_str(out.as_str(), s, "[redacted]");
        }
        i += 1;
    }
    let v = chars_of(out.as_str());
    if v.len() <= 2000 {
        out
    } else {
        let mut w: Vec<char> = Vec::new();
        let mut k: usize = 0;
        while k < 2000
            invariant
                2000 < v.len(),
                0 <= k <= 2000,
                w@ == v@.take(k as int),
            decreases 2000 - k,
        {
            w.push(v[k]);
            proof {
                assert(v@.take(k + 1) =~= v@.take(k as int).push(v@[k as int]));
            }
            k += 1;
        }
        string_of(&w)
    }
}

/// Records a failed tick: one more failure in a row (saturating), the
/// error phase, the scrubbed error, and a retry after the backoff delay.
pub fn record_failure(rt: &mut AutomationRuntime, error_text: String, now: i64)
    requires
        now <= i64::MAX - 300_000,
    ensures
        final(rt).consecutive_failures == (if old(rt).consecutive_failures == u32::MAX {
            u32::MAX as int
        } else {
            old(rt).consecutive_failures + 1
        }),
        final(rt).phase@ == "error"@,
        final(rt).message@ == "自动运行失败，稍后重试；本次未完成决策"@,
        final(rt).last_error matches Some(e) && e@ == error_text@,
        final(rt).next_retry_ms == Some(
            (now + retry_delay_ms(final(rt).consecutive_failures as int)) as i64,
        ),
        final(rt).last_success_ms == old(rt).last_success_ms,
        final(rt).last_tick_ms == old(rt).last_tick_ms,
{
    rt.consecutive_failures = if rt.consecutive_failures == u32::MAX {
        u32::MAX
    } else {
        rt.consecutive_failures + 1
    };
    let delay = retry_delay(rt.consecutive_failures);
    rt.phase = String::from_str("error");
    rt.message = String::from_str("自动运行失败，稍后重试；本次未完成决策");
    rt.last_error = Some(error_text);
    rt.next_retry_ms = Some(now + delay);
}

/// Records a completed tick: waiting for the next bar, with the outcome
/// message, and the failure streak and backoff cleared.
pub fn record_success(rt: &mut AutomationRuntime, message: String, now: i64)
    ensures
        final(rt).phase@ == "waiting_bar"@,
        final(rt).message@ == message@,
        final(rt).last_success_ms == Some(now),
        final(rt).last_error is None,
        final(rt).consecutive_failures == 0,
        final(rt).next_retry_ms is None,
        final(rt).last_tick_ms == old(rt).last_tick_ms,
        final(rt).last_attempt_ms == old(rt).last_attempt_ms,
{
    rt.phase = String::from_str("waiting_bar");
    rt.message = message;
    rt.last_success_ms = Some(now);
    rt.last_error = None;
    rt.consecutive_failures = 0;
    rt.next_retry_ms = None;
}

/// After any failure the loop waits at least 30 s and at most 5 min, and a
/// longer failure streak never shortens the wait.
pub proof fn law_backoff_is_bounded_and_monotone(f: int, g: int)
    requires
        1 <= f <= g,
    ensures
        30_000 <= retry_delay_ms(f) <= 300_000,
        retry_delay_ms(f) <= retry_delay_ms(g),
{
}

/// Within the doubling range the wait doubles with each further failure.
pub proof fn law_backoff_doubles(f: int)
    requires
        1 <= f < 4,
    ensures
        retry_delay_ms(f + 1) == 2 * retry_delay_ms(f),
{
}

// ---------------------------------------------------------------------------
// Contract specifications.
// ---------------------------------------------------------------------------

/// Whether a swap is one of the instruments the console lists first.
pub open spec fn popular_contract(id: Seq<char>) -> bool {
    ||| id == "BTC-USDT-SWAP"@
    ||| id == "ETH-USDT-SWAP"@
    ||| id == "SOL-USDT-SWAP"@
    ||| id == "DOGE-USDT-SWAP"@
    ||| id == "XRP-USDT-SWAP"@
    ||| id == "BNB-USDT-SWAP"@
    ||| id == "PEPE-USDT-SWAP"@
    ||| id == "SUI-USDT-SWAP"@
    ||| id == "XAU-USDT-SWAP"@
    ||| id == "XAG-USDT-SWAP"@
    ||| id == "AAPL-USDT-SWAP"@
    ||| id == "TSLA-USDT-SWAP"@
    ||| id == "NVDA-USDT-SWAP"@
    ||| id == "SPX-USDT-SWAP"@
}

/// Whether the swap is one the console lists first.
pub fn is_popular_contract(id: &str) -> (r: bool)
    ensures
        r == popular_contract(id@),
{
    str_eq(id, "BTC-USDT-SWAP") || str_eq(id, "ETH-USDT-SWAP") || str_eq(id, "SOL-USDT-SWAP") || str_eq(
        id,
        "DOGE-USDT-SWAP",
    ) || str_eq(id, "XRP-USDT-SWAP") || str_eq(id, "BNB-USDT-SWAP") || str_eq(id, "PEPE-USDT-SWAP") || str_eq(
        id,
        "SUI-USDT-SWAP",
    ) || str_eq(id, "XAU-USDT-SWAP") || str_eq(id, "XAG-USDT-SWAP") || str_eq(id, "AAPL-USDT-SWAP") || str_eq(
        id,
        "TSLA-USDT-SWAP",
    ) || str_eq(id, "NVDA-USDT-SWAP") || str_eq(id, "SPX-USDT-SWAP")
}

/// Whether an instrument is listed for a search: it has an id, and the id
/// holds the search text (trimmed, uppercased) unless that is empty.
pub open spec fn contract_listed(id: Seq<char>, query: Seq<char>) -> bool {
    id.len() > 0 && (query.len() == 0 || contains(id, query))
}

/// Whether instrument `a` is listed before `b`: popular ones first, then by
/// id, then in the order the venue gave them.
pub open spec fn contract_before(ids: Seq<Seq<char>>, a: int, b: int) -> bool {
    ||| popular_contract(ids[a]) && !popular_contract(ids[b])
    ||| popular_contract(ids[a]) == popular_contract(ids[b]) && (seq_lt(ids[a], ids[b]) || (ids[a] == ids[b] && a < b))
}

/// The search text of a query: trimmed and uppercased, empty without one.
pub open spec fn contract_query(query: Option<Seq<char>>) -> Seq<char> {
    match query {
        Some(q) => unicode_uppercase(trim(q)),
        None => Seq::empty(),
    }
}

/// Whether `r` lists exactly the instruments a search shows, in order.
pub open spec fn contract_listing_ok(ids: Seq<Seq<char>>, query: Seq<char>, r: Seq<usize>) -> bool {
    &&& forall|i: int| 0 <= i < r.len() ==> r[i] < ids.len() && contract_listed(ids[r[i] as int], query)
    &&& forall|i: int, j: int| 0 <= i < j < r.len() ==> contract_before(ids, r[i] as int, r[j] as int)
    &&& forall|k: int| 0 <= k < ids.len() && contract_listed(ids[k], query) ==> r.contains(k as usize)
}

proof fn lemma_contract_before_transitive(ids: Seq<Seq<char>>, a: int, b: int, c: int)
    requires
        contract_before(ids, a, b),
        contract_before(ids, b, c),
    ensures
        contract_before(ids, a, c),
{
    lemma_lt_transitive(ids[a], ids[b], ids[c]);
}

proof fn lemma_contract_before_total(ids: Seq<Seq<char>>, a: int, b: int)
    requires
        a != b,
    ensures
        contract_before(ids, a, b) || contract_before(ids, b, a),
{
    lemma_lt_total(ids[a], ids[b]);
}

proof fn lemma_contract_before_strict(ids: Seq<Seq<char>>, a: int, b: int)
    requires
        contract_before(ids, a, b),
    ensures
        !contract_before(ids, b, a),
        a != b,
{
    lemma_lt_asymmetric(ids[a], ids[b]);
    lemma_lt_irreflexive(ids[a]);
}

/// Whether `a` is listed before `b`.
fn listed_before_exec(ids: &Vec<String>, a: usize, b: usize) -> (r: bool)
    requires
        a < ids.len(),
        b < ids.len(),
    ensures
        r == contract_before(views(ids@), a as int, b as int),
{
    let pa = is_popular_contract(ids[a].as_str());
    let pb = is_popular_contract(ids[b].as_str());
    if pa && !pb {
        return true;
    }
    if pa != pb {
        return false;
    }
    if str_lt(ids[a].as_str(), ids[b].as_str()) {
        return true;
    }
    str_eq(ids[a].as_str(), ids[b].as_str()) && a < b
}

/// The order in which the console lists the venue's swaps for a search:
/// the indices of `ids` it shows, popular ones first, then by id.
pub fn contract_listing(ids: &Vec<String>, query: Option<&str>) -> (r: Vec<usize>)
    ensures
        contract_listing_ok(
            views(ids@),
            contract_query(match query {
                Some(q) => Some(q@),
                None => None,
            }),
            r@,
        ),
{
    let ghost s = views(ids@);
    let q: String = match query {
        Some(q) => {
            let t = trim_str(q);
            to_uppercase(t.as_str())
        },
        None => String::new(),
    };
    let ghost qv = q@;
    let mut out: Vec<usize> = Vec::new();
    let mut i: usize = 0;
    while i < ids.len()
        invariant
            0 <= i <= ids.len(),
            s == views(ids@),
            qv == q@,
            forall|a: int| 0 <= a < out.len() ==> out@[a] < i && contract_listed(s[out@[a] as int], qv),
            forall|a: int, b: int| 0 <= a < b < out.len() ==> contract_before(s, out@[a] as int, out@[b] as int),
            forall|k: int| 0 <= k < i && contract_listed(s[k], qv) ==> out@.contains(k as usize),
        decreases ids.len() - i,
    {
        let id = ids[i].as_str();
        proof {
            assert(s[i as int] == id@);
        }
        let listed = !id.is_empty() && (q.as_str().is_empty() || str_contains(id, q.as_str()));
        if listed {
            let mut p: usize = 0;
            while p < out.len() && !listed_before_exec(ids, i, out[p])
                invariant
                    0 <= p <= out.len(),
                    i < ids.len(),
                    s == views(ids@),
                    forall|a: int| 0 <= a < out.len() ==> out@[a] < i,
                    forall|a: int| 0 <= a < p ==> !contract_before(s, i as int, #[trigger] out@[a] as int),
                decreases out.len() - p,
            {
                p += 1;
            }
            proof {
                assert forall|a: int| p <= a < out.len() implies contract_before(s, i as int, #[trigger] out@[a] as int) by {
                    if a > p {
                        assert(contract_before(s, out@[p as int] as int, out@[a] as int));
                        lemma_contract_before_transitive(s, i as int, out@[p as int] as int, out@[a] as int);
                    }
                }
                assert forall|a: int| 0 <= a < p implies contract_before(s, #[trigger] out@[a] as int, i as int) by {
                    lemma_contract_before_total(s, out@[a] as int, i as int);
                }
            }
            let ghost before = out@;
            out.insert(p, i);
            proof {
                assert forall|a: int, b: int| 0 <= a < b < out.len() implies contract_before(
                    s,
                    out@[a] as int,
                    out@[b] as int,
                ) by {
                    if a < p && b < p {
                        assert(out@[a] == before[a] && out@[b] == before[b]);
                    } else if a < p && b == p {
                        assert(out@[a] == before[a]);
                    } else if a < p && b > p {
                        assert(out@[a] == before[a] && out@[b] == before[b - 1]);
                        assert(contract_before(s, before[a] as int, before[b - 1] as int));
                    } else if a == p {
                        assert(out@[b] == before[b - 1]);
                    } else {
                        assert(out@[a] == before[a - 1] && out@[b] == before[b - 1]);
                    }
                }
                assert forall|a: int| 0 <= a < out.len() implies out@[a] < i + 1 && contract_listed(s[out@[a] as int], qv) by {
                    if a < p {
                        assert(out@[a] == before[a]);
                    } else if a > p {
                        assert(out@[a] == before[a - 1]);
                    }
                }
                assert forall|k: int| 0 <= k < i + 1 && contract_listed(s[k], qv) implies out@.contains(k as usize) by {
                    if k == i {
                        assert(out@[p as int] == i);
                    } else {
                        assert(before.contains(k as usize));
                        let a = choose|a: int| 0 <= a < before.len() && before[a] == k as usize;
                        if a < p {
                            assert(out@[a] == k as usize);
                        } else {
                            assert(out@[a + 1] == k as usize);
                        }
                    }
                }
            }
        }
        i += 1;
    }
    out
}

/// Popular swaps always come first: no unpopular swap is listed ahead of
/// a popular one, and each swap is listed once.
pub proof fn law_popular_contracts_come_first(ids: Seq<Seq<char>>, query: Seq<char>, r: Seq<usize>, i: int, j: int)
    requires
        contract_listing_ok(ids, query, r),
        0 <= i < j < r.len(),
    ensures
        popular_contract(ids[r[j] as int]) ==> popular_contract(ids[r[i] as int]),
        r[i] != r[j],
{
    lemma_contract_before_strict(ids, r[i] as int, r[j] as int);
}

} // verus!
