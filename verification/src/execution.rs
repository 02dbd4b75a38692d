//! The decisions of the order executor that come before and around the
//! venue calls: the signal id of a decision, whether it may still be
//! submitted, which orders it owns, and when a resting entry has expired.
use vstd::prelude::*;
use crate::digest::{hex_char, sha256_hex_prefix, sha256_hex_prefix_of};
use vstd::utf8::encode_utf8;
use crate::labels::{canonical, spec_canonical};
use crate::mask::{byte_len, bytes_exceed, chars_before, find_boundary, is_boundary};
use crate::text::{append, chars_of, push_signed_decimal, signed_decimal, concat2, concat3, decimal, decimal_string, ends_with, owned, str_ends_with, str_eq, string_of};

verus! {

broadcast use vstd::string::group_string_axioms;

/// The broker tag the venue attaches to this strategy's orders.
pub const BROKER_TAG: &'static str = "c314b0aecb5bBCDE";

/// The prefix of every client order id the agent places.
pub const PA_CLIENT_ORDER_PREFIX: &'static str = "pa";

/// The signal id of a decision: the first 24 hexadecimal digits of the
/// SHA-256 of its identifying JSON (instrument, timeframe, signal time,
/// direction, order type and the three prices).
pub fn signal_id_of(material: &str) -> (r: String)
    ensures
        r@ == sha256_hex_prefix(encode_utf8(material@), 24),
{
    sha256_hex_prefix_of(material.as_bytes(), 24)
}

/// How `serde_json` writes one character inside a string: the quote, the
/// backslash and the control characters escaped (the five with a short
/// form by it, the others as `\u00` and two lowercase hexadecimal digits),
/// every other character as it is.
pub open spec fn json_escaped_char(c: char) -> Seq<char> {
    if c == '"' {
        seq!['\\', '"']
    } else if c == '\\' {
        seq!['\\', '\\']
    } else if c == '\u{8}' {
        seq!['\\', 'b']
    } else if c == '\u{c}' {
        seq!['\\', 'f']
    } else if c == '\n' {
        seq!['\\', 'n']
    } else if c == '\r' {
        seq!['\\', 'r']
    } else if c == '\t' {
        seq!['\\', 't']
    } else if (c as u32) < 0x20 {
        seq!['\\', 'u', '0', '0', hex_char((c as u32) as int / 16), hex_char((c as u32) as int % 16)]
    } else {
        seq![c]
    }
}

/// The escaped characters of a string.
pub open spec fn json_escaped(s: Seq<char>) -> Seq<char>
    decreases s.len(),
{
    if s.len() == 0 {
        Seq::empty()
    } else {
        json_escaped_char(s[0]) + json_escaped(s.drop_first())
    }
}

/// The JSON text `serde_json` writes for the string `s`: its escaped
/// characters between double quotes.
pub open spec fn json_string(s: Seq<char>) -> Seq<char> {
    seq!['"'] + json_escaped(s) + seq!['"']
}

/// `serde_json::to_string` of a string slice: the quoted, escaped text.
/// Serialising a `str` into a byte buffer cannot fail, so the empty
/// fallback is never taken.
#[verifier::external_body]
fn json_quote(s: &str) -> (r: String)
    ensures
        r@ == json_string(s@),
{
    serde_json::to_string(s).unwrap_or_default()
}

/// The identifying fields of a decision, each as the JSON text of its value
/// (`null` where the decision has no such field).
pub struct DecisionJson {
    pub order_direction: String,
    pub order_type: String,
    pub entry_price: String,
    pub stop_loss_price: String,
    pub take_profit_price: String,
}

/// The JSON object that identifies a signal, with its keys in the sorted
/// order in which `serde_json` writes an object.
pub open spec fn signal_material(inst_id: Seq<char>, timeframe: Seq<char>, signal_ts_ms: int, d: DecisionJson) -> Seq<char> {
    "{\"entry_price\":"@ + d.entry_price@
        + ",\"inst_id\":"@ + json_string(inst_id)
        + ",\"order_direction\":"@ + d.order_direction@
        + ",\"order_type\":"@ + d.order_type@
        + ",\"signal_ts_ms\":"@ + signed_decimal(signal_ts_ms)
        + ",\"stop_loss_price\":"@ + d.stop_loss_price@
        + ",\"take_profit_price\":"@ + d.take_profit_price@
        + ",\"timeframe\":"@ + json_string(timeframe)
        + "}"@
}

/// The signal id of a decision on `inst_id` and `timeframe` at
/// `signal_ts_ms`: the first 24 hexadecimal digits of the SHA-256 of its
/// identifying JSON object.
pub fn generate_signal_id(inst_id: &str, timeframe: &str, signal_ts_ms: i64, decision: &DecisionJson) -> (r: String)
    ensures
        r@ == sha256_hex_prefix(encode_utf8(signal_material(inst_id@, timeframe@, signal_ts_ms as int, *decision)), 24),
{
    let mut m = owned("{\"entry_price\":");
    append(&mut m, decision.entry_price.as_str());
    append(&mut m, ",\"inst_id\":");
    let inst = json_quote(inst_id);
    append(&mut m, inst.as_str());
    append(&mut m, ",\"order_direction\":");
    append(&mut m, decision.order_direction.as_str());
    append(&mut m, ",\"order_type\":");
    append(&mut m, decision.order_type.as_str());
    append(&mut m, ",\"signal_ts_ms\":");
    push_signed_decimal(&mut m, signal_ts_ms);
    append(&mut m, ",\"stop_loss_price\":");
    append(&mut m, decision.stop_loss_price.as_str());
    append(&mut m, ",\"take_profit_price\":");
    append(&mut m, decision.take_profit_price.as_str());
    append(&mut m, ",\"timeframe\":");
    let tf = json_quote(timeframe);
    append(&mut m, tf.as_str());
    append(&mut m, "}");
    signal_id_of(m.as_str())
}

/// The client order id of an entry order.
pub fn client_order_id(signal_id: &str) -> (r: String)
    ensures
        r@ == PA_CLIENT_ORDER_PREFIX@ + signal_id@,
{
    concat2(PA_CLIENT_ORDER_PREFIX, signal_id)
}

/// The client id of the stop/target pair attached to an entry.
pub fn attached_algo_id(signal_id: &str) -> (r: String)
    ensures
        r@ == "pa"@ + signal_id@ + "s"@,
{
    concat3("pa", signal_id, "s")
}

/// Whether an instrument is a derivative: a swap, or an id of four or more
/// dash-separated parts.
pub open spec fn spec_is_derivative(inst_id: Seq<char>) -> bool {
    ends_with(inst_id, "-SWAP"@) || dash_count(inst_id) >= 3
}

/// The number of `-` in `s`.
pub open spec fn dash_count(s: Seq<char>) -> nat
    decreases s.len(),
{
    if s.len() == 0 {
        0
    } else {
        dash_count(s.drop_last()) + if s.last() == '-' {
            1nat
        } else {
            0nat
        }
    }
}

/// Whether an instrument is a derivative.
pub fn is_derivative(inst_id: &str) -> (r: bool)
    ensures
        r == spec_is_derivative(inst_id@),
{
    if str_ends_with(inst_id, "-SWAP") {
        return true;
    }
    let v = crate::text::chars_of(inst_id);
    let mut count: usize = 0;
    let mut i: usize = 0;
    while i < v.len()
        invariant
            0 <= i <= v.len(),
            count == dash_count(v@.take(i as int)),
            count <= i,
        decreases v.len() - i,
    {
        proof {
            assert(v@.take(i + 1).drop_last() =~= v@.take(i as int));
        }
        if v[i] == '-' {
            count += 1;
        }
        i += 1;
    }
    proof {
        assert(v@.take(v.len() as int) =~= v@);
    }
    count >= 3
}

/// Where a decision's strategy evidence points, when it carries evidence.
#[derive(Debug)]
pub struct EvidenceStamp {
    /// `signal_ts_ms` when it is an integer.
    pub signal_ts_ms: Option<i64>,
    /// `timeframe` when it is a string.
    pub timeframe: Option<String>,
    /// `symbol` when it is a string.
    pub symbol: Option<String>,
}

/// What becomes of a decision before anything is sent to the venue.
#[derive(Debug)]
pub enum PreSubmit {
    /// Refused, with the reason recorded in the audit log.
    Refused(String),
    /// Refused as stale; the signal bar closed `age_ms` ago (0 when it has
    /// not closed yet).
    Stale { age_ms: i64 },
    /// Already handled for this bar, with the reason given; nothing is
    /// recorded.
    Duplicate(String),
    /// May go on to sizing and submission.
    Proceed,
}

/// The verdict before submission, as the contract states it.
#[derive(PartialEq, Eq, Structural)]
pub enum SubmitVerdict {
    Refused,
    Stale { age_ms: i64 },
    Duplicate,
    Proceed,
}

/// The time a signal bar closes: its open time plus its length (300 s when
/// the timeframe is unknown).
pub open spec fn bar_close_ms(signal_ts_ms: int, bar_seconds: Option<u64>) -> int {
    signal_ts_ms + match bar_seconds {
        Some(s) => s as int,
        None => 300,
    } * 1000
}

/// The verdict before submission: evidence that points elsewhere is
/// refused; a signal whose bar has not closed, or closed longer ago than
/// the allowed age, is stale; a signal already handled is a duplicate.
pub open spec fn spec_pre_submit(
    evidence: Option<EvidenceStamp>,
    inst_id: Seq<char>,
    timeframe: Seq<char>,
    signal_ts_ms: int,
    bar_seconds: Option<u64>,
    now_ms: int,
    max_signal_age_seconds: int,
    already_seen: bool,
) -> SubmitVerdict {
    let close = bar_close_ms(signal_ts_ms, bar_seconds);
    if evidence matches Some(e) && !(e.signal_ts_ms == Some(signal_ts_ms as i64) && (e.timeframe matches Some(t) && t@ == timeframe)
        && (e.symbol matches Some(s) && s@ == inst_id)) {
        SubmitVerdict::Refused
    } else if now_ms < close || now_ms - close > max_signal_age_seconds * 1000 {
        SubmitVerdict::Stale { age_ms: if now_ms > close {
            (now_ms - close) as i64
        } else {
            0
        } }
    } else if already_seen {
        SubmitVerdict::Duplicate
    } else {
        SubmitVerdict::Proceed
    }
}

/// The reason given for a signal already handled.
pub open spec fn duplicate_reason() -> Seq<char> {
    "重复信号 (当前K线周期已处理或挂单)"@
}

/// The reason given for evidence that does not match the order.
pub open spec fn evidence_mismatch() -> Seq<char> {
    "策略证据与标的、周期或信号时间不一致"@
}

/// Decides whether a decision may go on to submission. `bar_seconds` is
/// the length of the timeframe when known, `now_ms` the current time,
/// `already_seen` whether the signal id was handled before.
pub fn pre_submit_check(
    evidence: Option<&EvidenceStamp>,
    inst_id: &str,
    timeframe: &str,
    signal_ts_ms: i64,
    bar_seconds: Option<u64>,
    now_ms: i64,
    max_signal_age_seconds: u64,
    already_seen: bool,
) -> (r: PreSubmit)
    requires
        i64::MIN <= bar_close_ms(signal_ts_ms as int, bar_seconds) <= i64::MAX,
        i64::MIN <= now_ms - bar_close_ms(signal_ts_ms as int, bar_seconds) <= i64::MAX,
    ensures
        match (r, spec_pre_submit(
            match evidence {
                Some(e) => Some(*e),
                None => None,
            },
            inst_id@,
            timeframe@,
            signal_ts_ms as int,
            bar_seconds,
            now_ms as int,
            max_signal_age_seconds as int,
            already_seen,
        )) {
            (PreSubmit::Refused(m), SubmitVerdict::Refused) => m@ == evidence_mismatch(),
            (PreSubmit::Stale { age_ms: a }, SubmitVerdict::Stale { age_ms: b }) => a == b,
            (PreSubmit::Duplicate(m), SubmitVerdict::Duplicate) => m@ == duplicate_reason(),
            (PreSubmit::Proceed, SubmitVerdict::Proceed) => true,
            _ => false,
        },
{
    match evidence {
        Some(e) => {
            let ts_ok = match e.signal_ts_ms {
                Some(t) => t == signal_ts_ms,
                None => false,
            };
            let tf_ok = match &e.timeframe {
                Some(t) => str_eq(t.as_str(), timeframe),
                None => false,
            };
            let sym_ok = match &e.symbol {
                Some(s) => str_eq(s.as_str(), inst_id),
                None => false,
            };
            if !(ts_ok && tf_ok && sym_ok) {
                return PreSubmit::Refused(String::from_str("策略证据与标的、周期或信号时间不一致"));
            }
        },
        None => {},
    }
    let secs: i128 = match bar_seconds {
        Some(s) => s as i128,
        None => 300,
    };
    let close: i64 = (signal_ts_ms as i128 + secs * 1000) as i64;
    let now: i128 = now_ms as i128;
    let max_age: i128 = max_signal_age_seconds as i128 * 1000;
    if now < close as i128 || now - close as i128 > max_age {
        let age: i64 = if now_ms > close {
            now_ms - close
        } else {
            0
        };
        return PreSubmit::Stale { age_ms: age };
    }
    if already_seen {
        return PreSubmit::Duplicate(String::from_str("重复信号 (当前K线周期已处理或挂单)"));
    }
    PreSubmit::Proceed
}

/// Whether a resting order has expired: the agent placed it and it was
/// created at or before the cutoff.
pub open spec fn spec_expired(owned: bool, created_ms: Option<i64>, cutoff_ms: int) -> bool {
    owned && (created_ms matches Some(t) && t <= cutoff_ms)
}

/// The creation time at or before which a resting entry has expired: now
/// less `max_pending_bars` bars of the timeframe (at the lower end of
/// `i64`, saturating).
pub open spec fn spec_pending_cutoff(now_ms: int, bar_seconds: int, max_pending_bars: int) -> int {
    let life = bar_seconds * max_pending_bars * 1000;
    if now_ms - life < i64::MIN {
        i64::MIN as int
    } else {
        now_ms - life
    }
}

/// The cutoff for resting entries.
pub fn pending_cutoff(now_ms: i64, bar_seconds: u64, max_pending_bars: usize) -> (r: i64)
    requires
        bar_seconds <= 1_000_000_000,
        max_pending_bars <= 1_000_000,
    ensures
        r == spec_pending_cutoff(now_ms as int, bar_seconds as int, max_pending_bars as int),
{
    assert(bar_seconds * max_pending_bars * 1000 <= 1_000_000_000_000_000_000) by (nonlinear_arith)
        requires
            bar_seconds <= 1_000_000_000,
            max_pending_bars <= 1_000_000,
    ;
    let life: i128 = bar_seconds as i128 * max_pending_bars as i128 * 1000;
    let c: i128 = now_ms as i128 - life;
    if c < i64::MIN as i128 {
        i64::MIN
    } else {
        c as i64
    }
}

/// Whether a resting order has expired.
pub fn is_expired(owned: bool, created_ms: Option<i64>, cutoff_ms: i64) -> (r: bool)
    ensures
        r == spec_expired(owned, created_ms, cutoff_ms as int),
{
    owned && match created_ms {
        Some(t) => t <= cutoff_ms,
        None => false,
    }
}

/// Why execution is not enabled, if it is not: credentials must be set,
/// live trading must be acknowledged unless on the demo account, and the
/// execution switch must be on.
pub open spec fn spec_execution_block(configured: bool, demo: bool, live_acknowledged: bool, switched_on: bool) -> Option<Seq<char>> {
    if !configured {
        Some("OKX 凭据未配置"@)
    } else if !(demo || live_acknowledged) {
        Some("实盘执行未授权"@)
    } else if !switched_on {
        Some("交易执行开关未开启"@)
    } else {
        None
    }
}

/// Checks that execution is enabled.
pub fn ensure_execution_enabled(configured: bool, demo: bool, live_acknowledged: bool, switched_on: bool) -> (r: Result<(), String>)
    ensures
        match r {
            Ok(()) => spec_execution_block(configured, demo, live_acknowledged, switched_on) is None,
            Err(e) => spec_execution_block(configured, demo, live_acknowledged, switched_on) == Some(e@),
        },
{
    if !configured {
        return Err(String::from_str("OKX 凭据未配置"));
    }
    if !(demo || live_acknowledged) {
        return Err(String::from_str("实盘执行未授权"));
    }
    if !switched_on {
        return Err(String::from_str("交易执行开关未开启"));
    }
    Ok(())
}

/// Live trading is never enabled by accident: an order goes out only with
/// credentials, with the switch on, and on the demo account unless live
/// trading was acknowledged.
pub proof fn law_live_trading_needs_acknowledgement(configured: bool, demo: bool, live_acknowledged: bool, switched_on: bool)
    ensures
        spec_execution_block(configured, demo, live_acknowledged, switched_on) is None ==> configured && switched_on && (demo
            || live_acknowledged),
{
}

/// A signal is submitted at most once: once seen, a later check of the
/// same signal never proceeds.
pub proof fn law_seen_signal_never_proceeds(
    evidence: Option<EvidenceStamp>,
    inst_id: Seq<char>,
    timeframe: Seq<char>,
    signal_ts_ms: int,
    bar_seconds: Option<u64>,
    now_ms: int,
    max_signal_age_seconds: int,
)
    ensures
        !(spec_pre_submit(evidence, inst_id, timeframe, signal_ts_ms, bar_seconds, now_ms, max_signal_age_seconds, true) is Proceed),
{
}

/// A seen signal whose evidence matches and which is still fresh is
/// answered as a duplicate, whatever the allowed age.
pub proof fn law_seen_fresh_signal_is_duplicate(
    evidence: Option<EvidenceStamp>,
    inst_id: Seq<char>,
    timeframe: Seq<char>,
    signal_ts_ms: int,
    bar_seconds: Option<u64>,
    now_ms: int,
    max_signal_age_seconds: int,
)
    requires
        evidence matches Some(e) ==> e.signal_ts_ms == Some(signal_ts_ms as i64)
            && (e.timeframe matches Some(t) && t@ == timeframe) && (e.symbol matches Some(s) && s@ == inst_id),
        bar_close_ms(signal_ts_ms, bar_seconds) <= now_ms <= bar_close_ms(signal_ts_ms, bar_seconds)
            + max_signal_age_seconds * 1000,
    ensures
        spec_pre_submit(evidence, inst_id, timeframe, signal_ts_ms, bar_seconds, now_ms, max_signal_age_seconds, true)
            == SubmitVerdict::Duplicate,
{
}

// ---------------------------------------------------------------------------
// The entry order.
// ---------------------------------------------------------------------------

/// Whether an order type opens a position.
pub open spec fn executable_order_type(order_type: Seq<char>) -> bool {
    order_type == "限价单"@ || order_type == "突破单"@ || order_type == "市价单"@
}

/// The confidence a decision states: its value when it is at most 100,
/// else zero.
pub open spec fn stated_confidence(confidence: Option<u64>) -> int {
    match confidence {
        Some(c) => if c <= 100 {
            c as int
        } else {
            0
        },
        None => 0,
    }
}

/// The first checks on a decision to be executed: an executable order
/// type, an opening (or absent) action, and a confidence (0 to 100, else
/// counted as 0) of at least the threshold.
pub open spec fn spec_order_intent(
    order_type: Seq<char>,
    action: Option<Seq<char>>,
    confidence: Option<u64>,
    threshold: u32,
) -> Result<(), Seq<char>> {
    if !executable_order_type(order_type) {
        Err("决策为不下单或不包含可执行订单"@)
    } else if action matches Some(a) && !(a == "OPEN"@ || a.len() == 0) {
        Err("开仓订单类型与 action 冲突，拒绝执行"@)
    } else if stated_confidence(confidence) < threshold {
        Err(
            "交易信心度 "@ + decimal(stated_confidence(confidence) as nat) + "% 低于设定风控门槛 "@ + decimal(
                threshold as nat,
            ) + "%"@,
        )
    } else {
        Ok(())
    }
}

/// Checks the order type, action and confidence of a decision to execute.
pub fn check_order_intent(order_type: &str, action: Option<&str>, confidence: Option<u64>, threshold: u32) -> (r: Result<(), String>)
    ensures
        match r {
            Ok(()) => spec_order_intent(order_type@, crate::positions::text_of(action), confidence, threshold) == Ok::<
                (),
                Seq<char>,
            >(()),
            Err(e) => spec_order_intent(order_type@, crate::positions::text_of(action), confidence, threshold) == Err::<
                (),
                Seq<char>,
            >(e@),
        },
{
    if !(str_eq(order_type, "限价单") || str_eq(order_type, "突破单") || str_eq(order_type, "市价单")) {
        return Err(String::from_str("决策为不下单或不包含可执行订单"));
    }
    match action {
        Some(a) => {
            if !(str_eq(a, "OPEN") || a.is_empty()) {
                return Err(String::from_str("开仓订单类型与 action 冲突，拒绝执行"));
            }
        },
        None => {},
    }
    let c: u64 = match confidence {
        Some(c) => if c <= 100 {
            c
        } else {
            0
        },
        None => 0,
    };
    if c < threshold as u64 {
        let mut m = String::from_str("交易信心度 ");
        let cs = decimal_string(c);
        append(&mut m, cs.as_str());
        append(&mut m, "% 低于设定风控门槛 ");
        let ts = decimal_string(threshold as u64);
        append(&mut m, ts.as_str());
        append(&mut m, "%");
        return Err(m);
    }
    Ok(())
}

/// What the strategy of a decision demands before execution.
#[derive(Debug, Clone, Copy, PartialEq, Eq, Structural)]
pub enum StrategyCheck {
    /// No strategy is named, or the quantitative pilot: nothing more.
    Unchecked,
    /// A known strategy: its program evidence must be validated.
    ValidateEvidence,
}

/// The strategy check of a decision: the adaptive mode only observes, the
/// quantitative pilot needs no evidence, and any other strategy must be
/// named by its canonical id.
pub open spec fn spec_strategy_check(strategy_id: Option<Seq<char>>) -> Result<StrategyCheck, Seq<char>> {
    match strategy_id {
        None => Ok(StrategyCheck::Unchecked),
        Some(id) => if id == "adaptive"@ {
            Err("自适应模式仅供观察"@)
        } else if id == "alpha_pilot"@ {
            Ok(StrategyCheck::Unchecked)
        } else if spec_canonical(id) == Some(id) {
            Ok(StrategyCheck::ValidateEvidence)
        } else {
            Err("未知或旧版策略不能直接执行"@)
        },
    }
}

/// Checks the strategy a decision names before it is executed.
pub fn check_execution_strategy(strategy_id: Option<&str>) -> (r: Result<StrategyCheck, String>)
    ensures
        match r {
            Ok(c) => spec_strategy_check(crate::positions::text_of(strategy_id)) == Ok::<StrategyCheck, Seq<char>>(c),
            Err(e) => spec_strategy_check(crate::positions::text_of(strategy_id)) == Err::<StrategyCheck, Seq<char>>(e@),
        },
{
    match strategy_id {
        None => Ok(StrategyCheck::Unchecked),
        Some(id) => {
            if str_eq(id, "adaptive") {
                Err(String::from_str("自适应模式仅供观察"))
            } else if str_eq(id, "alpha_pilot") {
                Ok(StrategyCheck::Unchecked)
            } else {
                match canonical(id) {
                    Some(c) => if str_eq(c, id) {
                        Ok(StrategyCheck::ValidateEvidence)
                    } else {
                        Err(String::from_str("未知或旧版策略不能直接执行"))
                    },
                    None => Err(String::from_str("未知或旧版策略不能直接执行")),
                }
            }
        },
    }
}

/// What an entry order is made of: the instrument and its type, the
/// decision's order type and direction, the size and prices already
/// rounded to the venue's steps (as decimal text), the signal, the account
/// modes, and the instrument's quote currency when it states one.
#[derive(Debug)]
pub struct OrderInputs {
    pub inst_id: String,
    pub inst_type: String,
    pub order_type: String,
    pub direction: String,
    pub size: String,
    pub entry: String,
    pub stop: String,
    pub target: String,
    pub signal_id: String,
    pub trade_mode: String,
    pub position_mode: String,
    pub quote_ccy: Option<String>,
}

/// The stop and target attached to an entry.
#[derive(Debug)]
pub struct AttachedTpSl {
    pub attach_algo_cl_ord_id: String,
    pub tp_trigger_px: String,
    pub tp_ord_px: String,
    pub tp_trigger_px_type: String,
    pub sl_trigger_px: String,
    pub sl_ord_px: String,
    pub sl_trigger_px_type: String,
}

/// An entry order as the venue takes it. A breakout entry is a trigger
/// order placed through the algo endpoint (`is_algo`).
#[derive(Debug)]
pub struct OrderRequest {
    pub inst_id: String,
    pub td_mode: String,
    pub side: String,
    pub sz: String,
    pub tag: String,
    pub pos_side: Option<String>,
    pub ccy: Option<String>,
    pub tgt_ccy: Option<String>,
    pub ord_type: String,
    pub px: Option<String>,
    pub trigger_px: Option<String>,
    pub order_px: Option<String>,
    pub trigger_px_type: Option<String>,
    pub cl_ord_id: Option<String>,
    pub algo_cl_ord_id: Option<String>,
    pub attach: AttachedTpSl,
    pub is_algo: bool,
}

/// The client id an entry carries: `pa` and the signal id, cut to 32 bytes.
pub open spec fn spec_entry_client_id(signal_id: Seq<char>) -> Seq<char> {
    let id = PA_CLIENT_ORDER_PREFIX@ + signal_id;
    if byte_len(id) <= 32 {
        id
    } else {
        id.take(chars_before(id, 32))
    }
}

/// Whether the client id can be cut at 32 bytes (always so for the
/// hexadecimal signal ids the agent derives).
pub open spec fn client_id_cuttable(signal_id: Seq<char>) -> bool {
    let id = PA_CLIENT_ORDER_PREFIX@ + signal_id;
    byte_len(id) <= 32 || is_boundary(id, 32)
}

/// The text of an optional value.
pub open spec fn opt_text(o: Option<String>) -> Option<Seq<char>> {
    match o {
        Some(s) => Some(s@),
        None => None,
    }
}

/// What the entry order holds, field by field.
pub open spec fn order_request_ok(i: OrderInputs, r: OrderRequest) -> bool {
    let long = i.direction@ == "做多"@;
    let spot = i.inst_type@ == "SPOT"@;
    let breakout = i.order_type@ == "突破单"@;
    let cl = spec_entry_client_id(i.signal_id@);
    &&& r.inst_id@ == i.inst_id@
    &&& r.td_mode@ == i.trade_mode@
    &&& r.side@ == (if long {
        "buy"@
    } else {
        "sell"@
    })
    &&& r.sz@ == i.size@
    &&& r.tag@ == BROKER_TAG@
    &&& opt_text(r.pos_side) == (if !spot && i.position_mode@ == "long_short"@ {
        Some(if long {
            "long"@
        } else {
            "short"@
        })
    } else {
        None
    })
    &&& opt_text(r.ccy) == (if spot && i.trade_mode@ == "cross"@ {
        Some(match i.quote_ccy {
            Some(q) => q@,
            None => "USDT"@,
        })
    } else {
        None
    })
    &&& opt_text(r.tgt_ccy) == (if spot && i.trade_mode@ != "cross"@ && i.order_type@ == "市价单"@ {
        Some("base_ccy"@)
    } else {
        None
    })
    &&& r.attach.attach_algo_cl_ord_id@ == "pa"@ + i.signal_id@ + "s"@
    &&& r.attach.tp_trigger_px@ == i.target@
    &&& r.attach.tp_ord_px@ == "-1"@
    &&& r.attach.tp_trigger_px_type@ == "last"@
    &&& r.attach.sl_trigger_px@ == i.stop@
    &&& r.attach.sl_ord_px@ == "-1"@
    &&& r.attach.sl_trigger_px_type@ == "last"@
    &&& r.is_algo == breakout
    &&& r.ord_type@ == (if breakout {
        "trigger"@
    } else if i.order_type@ == "市价单"@ {
        "market"@
    } else {
        "limit"@
    })
    &&& opt_text(r.trigger_px) == (if breakout {
        Some(i.entry@)
    } else {
        None
    })
    &&& opt_text(r.order_px) == (if breakout {
        Some("-1"@)
    } else {
        None
    })
    &&& opt_text(r.trigger_px_type) == (if breakout {
        Some("last"@)
    } else {
        None
    })
    &&& opt_text(r.algo_cl_ord_id) == (if breakout {
        Some(cl)
    } else {
        None
    })
    &&& opt_text(r.cl_ord_id) == (if breakout {
        None
    } else {
        Some(cl)
    })
    &&& opt_text(r.px) == (if !breakout && i.order_type@ == "限价单"@ {
        Some(i.entry@)
    } else {
        None
    })
}

/// The client id of an entry, cut to 32 bytes.
fn entry_client_id(signal_id: &str) -> (r: String)
    requires
        client_id_cuttable(signal_id@),
    ensures
        r@ == spec_entry_client_id(signal_id@),
{
    let id = concat2(PA_CLIENT_ORDER_PREFIX, signal_id);
    let v = chars_of(id.as_str());
    if !bytes_exceed(&v, 32) {
        return id;
    }
    let k = match find_boundary(&v, 32) {
        Some(k) => k,
        None => {
            return id;
        },
    };
    let mut head: Vec<char> = Vec::new();
    let mut i: usize = 0;
    while i < k
        invariant
            k <= v.len(),
            0 <= i <= k,
            head@ == v@.take(i as int),
        decreases k - i,
    {
        head.push(v[i]);
        proof {
            assert(v@.take(i + 1) =~= v@.take(i as int).push(v@[i as int]));
        }
        i += 1;
    }
    string_of(&head)
}

/// Builds the entry order of a decision that passed every check.
pub fn build_order_request(i: &OrderInputs) -> (r: OrderRequest)
    requires
        client_id_cuttable(i.signal_id@),
    ensures
        order_request_ok(*i, r),
{
    let long = str_eq(i.direction.as_str(), "做多");
    let spot = str_eq(i.inst_type.as_str(), "SPOT");
    let breakout = str_eq(i.order_type.as_str(), "突破单");
    let market = str_eq(i.order_type.as_str(), "市价单");
    let limit = str_eq(i.order_type.as_str(), "限价单");
    let cross = str_eq(i.trade_mode.as_str(), "cross");
    let pos_side = if !spot && str_eq(i.position_mode.as_str(), "long_short") {
        Some(String::from_str(if long {
            "long"
        } else {
            "short"
        }))
    } else {
        None
    };
    let ccy = if spot && cross {
        Some(match &i.quote_ccy {
            Some(q) => owned(q.as_str()),
            None => String::from_str("USDT"),
        })
    } else {
        None
    };
    let tgt_ccy = if spot && !cross && market {
        Some(String::from_str("base_ccy"))
    } else {
        None
    };
    let cl = entry_client_id(i.signal_id.as_str());
    let attach = AttachedTpSl {
        attach_algo_cl_ord_id: attached_algo_id(i.signal_id.as_str()),
        tp_trigger_px: owned(i.target.as_str()),
        tp_ord_px: String::from_str("-1"),
        tp_trigger_px_type: String::from_str("last"),
        sl_trigger_px: owned(i.stop.as_str()),
        sl_ord_px: String::from_str("-1"),
        sl_trigger_px_type: String::from_str("last"),
    };
    let side = String::from_str(if long {
        "buy"
    } else {
        "sell"
    });
    if breakout {
        OrderRequest {
            inst_id: owned(i.inst_id.as_str()),
            td_mode: owned(i.trade_mode.as_str()),
            side,
            sz: owned(i.size.as_str()),
            tag: String::from_str(BROKER_TAG),
            pos_side,
            ccy,
            tgt_ccy,
            ord_type: String::from_str("trigger"),
            px: None,
            trigger_px: Some(owned(i.entry.as_str())),
            order_px: Some(String::from_str("-1")),
            trigger_px_type: Some(String::from_str("last")),
            cl_ord_id: None,
            algo_cl_ord_id: Some(cl),
            attach,
            is_algo: true,
        }
    } else {
        OrderRequest {
            inst_id: owned(i.inst_id.as_str()),
            td_mode: owned(i.trade_mode.as_str()),
            side,
            sz: owned(i.size.as_str()),
            tag: String::from_str(BROKER_TAG),
            pos_side,
            ccy,
            tgt_ccy,
            ord_type: String::from_str(if market {
                "market"
            } else {
                "limit"
            }),
            px: if limit {
                Some(owned(i.entry.as_str()))
            } else {
                None
            },
            trigger_px: None,
            order_px: None,
            trigger_px_type: None,
            cl_ord_id: Some(cl),
            algo_cl_ord_id: None,
            attach,
            is_algo: false,
        }
    }
}

/// An entry order trades in its decision's direction: a long buys and a
/// short sells, and the side agrees with the position side when one is
/// sent.
pub proof fn law_side_follows_direction(i: OrderInputs, r: OrderRequest)
    requires
        order_request_ok(i, r),
    ensures
        i.direction@ == "做多"@ ==> r.side@ == "buy"@,
        i.direction@ == "做空"@ ==> r.side@ == "sell"@,
        r.pos_side matches Some(ps) ==> (r.side@ == "buy"@ <==> ps@ == "long"@),
{
    reveal_strlit("做多");
    reveal_strlit("做空");
    reveal_strlit("buy");
    reveal_strlit("sell");
    reveal_strlit("long");
    reveal_strlit("short");
    assert("做多"@[1] != "做空"@[1]);
    assert("buy"@.len() != "sell"@.len());
    assert("long"@.len() != "short"@.len());
}

} // verus!
