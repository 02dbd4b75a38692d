//! The program's own checks on a model decision, before any price
//! arithmetic: whether the strategy may trade at all, whether the candles
//! it rests on are contiguous and contemporaneous with the higher
//! timeframe, and whether an opening or management decision is coherent.
//!
//! The checks on prices themselves work on floating point and are made
//! outside the library; where they sit between these checks, their verdict
//! is handed in.
use vstd::prelude::*;
use crate::labels::{canonical, spec_canonical, spec_timeframe_ms, timeframe_ms};
use crate::text::{owned, str_eq};

verus! {

broadcast use vstd::string::group_string_axioms;

/// What the checks read of a candle frame.
#[derive(Debug)]
pub struct FrameFacts {
    pub symbol: String,
    pub timeframe: String,
    /// Bar open times, newest first.
    pub ts_open: Vec<i64>,
    /// Whether the frame is closed, warmed up and sane: at least 20 closed
    /// bars with positive prices, strictly decreasing times, and the
    /// indicators the strategy needs (measured on the prices).
    pub ready: bool,
}

/// The strategies that may open positions automatically.
pub open spec fn tradable(id: Seq<char>) -> bool {
    id == "2pa_source"@ || id == "2pa_trend"@ || id == "dog_reversion"@ || id == "dog_trend"@
}

/// Whether consecutive bars lie exactly one step apart.
pub open spec fn contiguous(ts: Seq<i64>, step: int) -> bool {
    forall|i: int| 0 <= i < ts.len() - 1 ==> #[trigger] ts[i] - ts[i + 1] == step
}

/// The longest bar the timeframes allow: 1440 days.
pub open spec fn max_step() -> int {
    124_416_000_000
}

/// The verdict of the checks that precede the price rules of a strategy.
pub open spec fn spec_evidence_gate(system: Seq<char>, f: FrameFacts, htf: Option<FrameFacts>) -> Result<(), Seq<char>> {
    let id = match spec_canonical(system) {
        Some(c) => c,
        None => ""@,
    };
    if !tradable(id) {
        Err("该模式仅供观察，不允许自动开仓"@)
    } else if !f.ready {
        Err("已收盘行情或指标预热不足"@)
    } else {
        match spec_timeframe_ms(f.timeframe@) {
            None => Err("不支持的行情周期"@),
            Some(step) => if !contiguous(f.ts_open@, step) {
                Err("行情存在缺失 K 线，不能跨缺口确认形态"@)
            } else {
                match htf {
                    Some(h) if h.ready && h.symbol@ == f.symbol@ && h.timeframe@ != f.timeframe@ => {
                        match spec_timeframe_ms(h.timeframe@) {
                            None => Err("不支持的行情周期"@),
                            Some(hstep) => {
                                let low_close = f.ts_open@[0] + step;
                                let high_close = h.ts_open@[0] + hstep;
                                if !(high_close <= low_close && low_close - high_close < hstep) {
                                    Err("高周期行情过期或包含未来数据"@)
                                } else if !(hstep > step) {
                                    Err("确认周期必须高于交易周期"@)
                                } else {
                                    Ok(())
                                }
                            },
                        }
                    },
                    _ => Err("缺少有效的结构化高周期行情"@),
                }
            },
        }
    }
}

/// Strategy evidence rests only on closed, warmed-up and contiguous bars:
/// when the evidence checks pass, the trading frame is ready, its bars lie
/// exactly one bar apart, and a ready higher-timeframe frame of the same
/// symbol, with longer bars, closed no later than it does.
pub proof fn law_evidence_only_on_contiguous_bars(system: Seq<char>, f: FrameFacts, htf: Option<FrameFacts>)
    requires
        spec_evidence_gate(system, f, htf) is Ok,
    ensures
        f.ready,
        spec_timeframe_ms(f.timeframe@) matches Some(step) && contiguous(f.ts_open@, step),
        htf matches Some(h) && h.ready && h.symbol@ == f.symbol@ && (spec_timeframe_ms(h.timeframe@) matches Some(
            hstep,
        ) && spec_timeframe_ms(f.timeframe@) matches Some(step) && hstep > step && h.ts_open@[0] + hstep
            <= f.ts_open@[0] + step),
{
}

/// A frame whose facts are consistent: a ready frame has at least 20 bars,
/// its times lie far enough from the edges of `i64` for one bar step to be
/// added, and consecutive times differ by an amount an `i64` holds.
pub open spec fn frame_wf(f: FrameFacts) -> bool {
    &&& f.ready ==> f.ts_open.len() >= 20
    &&& forall|i: int| 0 <= i < f.ts_open.len() ==> #[trigger] f.ts_open@[i] <= i64::MAX - max_step()
    &&& forall|i: int| 0 <= i < f.ts_open.len() - 1 ==> i64::MIN <= #[trigger] f.ts_open@[i] - f.ts_open@[i + 1] <= i64::MAX
}

/// Runs the checks that precede the price rules of a strategy: it must be
/// one that may trade, on a ready frame without gaps, confirmed by a ready
/// higher-timeframe frame of the same symbol that is neither stale nor
/// ahead of it, and whose bars are longer.
pub fn evidence_gate(system: &str, f: &FrameFacts, htf: Option<&FrameFacts>) -> (r: Result<(), String>)
    requires
        frame_wf(*f),
        htf matches Some(h) ==> frame_wf(*h),
    ensures
        match r {
            Ok(()) => spec_evidence_gate(system@, *f, match htf {
                Some(h) => Some(*h),
                None => None,
            }) == Ok::<(), Seq<char>>(()),
            Err(e) => spec_evidence_gate(system@, *f, match htf {
                Some(h) => Some(*h),
                None => None,
            }) == Err::<(), Seq<char>>(e@),
        },
{
    let id = match canonical(system) {
        Some(c) => c,
        None => "",
    };
    if !(str_eq(id, "2pa_source") || str_eq(id, "2pa_trend") || str_eq(id, "dog_reversion") || str_eq(id, "dog_trend")) {
        return Err(String::from_str("该模式仅供观察，不允许自动开仓"));
    }
    if !f.ready {
        return Err(String::from_str("已收盘行情或指标预热不足"));
    }
    let step = match timeframe_ms(f.timeframe.as_str()) {
        Ok(s) => s,
        Err(e) => {
            return Err(e);
        },
    };
    let n = f.ts_open.len();
    let last: usize = if n == 0 {
        0
    } else {
        n - 1
    };
    let mut i: usize = 0;
    while i < last
        invariant
            n == f.ts_open.len(),
            last == (if n == 0 {
                0
            } else {
                n - 1
            }),
            0 <= i <= last,
            frame_wf(*f),
            f.ready,
            spec_timeframe_ms(f.timeframe@) == Some(step as int),
            tradable(id@),
            (match spec_canonical(system@) {
                Some(c) => c,
                None => ""@,
            }) == id@,
            forall|k: int| 0 <= k < i ==> #[trigger] f.ts_open@[k] - f.ts_open@[k + 1] == step,
        decreases last - i,
    {
        assert(i64::MIN <= f.ts_open@[i as int] - f.ts_open@[i + 1] <= i64::MAX);
        if f.ts_open[i] - f.ts_open[i + 1] != step {
            proof {
                assert(!contiguous(f.ts_open@, step as int)) by {
                    assert(f.ts_open@[i as int] - f.ts_open@[i + 1] != step);
                }
            }
            return Err(String::from_str("行情存在缺失 K 线，不能跨缺口确认形态"));
        }
        i += 1;
    }
    let h = match htf {
        Some(h) => {
            if h.ready && str_eq(h.symbol.as_str(), f.symbol.as_str()) && !str_eq(h.timeframe.as_str(), f.timeframe.as_str()) {
                h
            } else {
                return Err(String::from_str("缺少有效的结构化高周期行情"));
            }
        },
        None => {
            return Err(String::from_str("缺少有效的结构化高周期行情"));
        },
    };
    let hstep = match timeframe_ms(h.timeframe.as_str()) {
        Ok(s) => s,
        Err(e) => {
            return Err(e);
        },
    };
    let low_close = f.ts_open[0] + step;
    let high_close = h.ts_open[0] + hstep;
    if !(high_close <= low_close && (low_close as i128) - (high_close as i128) < hstep as i128) {
        return Err(String::from_str("高周期行情过期或包含未来数据"));
    }
    if !(hstep > step) {
        return Err(String::from_str("确认周期必须高于交易周期"));
    }
    Ok(())
}

// ---------------------------------------------------------------------------
// Decision coherence.
// ---------------------------------------------------------------------------

/// The order types allowed with a management action.
pub open spec fn allowed_order_types(action: Seq<char>) -> Seq<Seq<char>> {
    if action == "WAIT"@ {
        seq!["不下单"@]
    } else if action == "HOLD"@ {
        seq!["持有"@, "不下单"@]
    } else if action == "CLOSE_EARLY"@ {
        seq!["平仓"@]
    } else if action == "MOVE_STOP_LOSS"@ {
        seq!["修改止损"@]
    } else if action == "MOVE_TAKE_PROFIT"@ || action == "TRAILING_TAKE_PROFIT"@ {
        seq!["修改止盈"@]
    } else if action == "MOVE_SL_TP"@ {
        seq!["修改止盈止损"@]
    } else {
        Seq::empty()
    }
}

/// The management actions that change a position.
pub open spec fn is_management_action(action: Seq<char>) -> bool {
    action == "CLOSE_EARLY"@ || action == "MOVE_STOP_LOSS"@ || action == "MOVE_TAKE_PROFIT"@ || action
        == "TRAILING_TAKE_PROFIT"@ || action == "MOVE_SL_TP"@
}

/// The verdict on a management decision before its prices: `Ok(false)`
/// when it only waits or holds, `Ok(true)` when it changes a position and
/// its new prices are still to be checked.
pub open spec fn spec_management_check(action: Option<Seq<char>>, order_type: Option<Seq<char>>, has_position: bool) -> Result<bool, Seq<char>> {
    let a = match action {
        Some(a) => a,
        None => "WAIT"@,
    };
    if order_type matches Some(o) && !allowed_order_types(a).contains(o) {
        Err("管理动作与订单类型冲突"@)
    } else if a == "WAIT"@ || a == "HOLD"@ {
        Ok(false)
    } else if !has_position {
        Err("无持仓可管理"@)
    } else if !is_management_action(a) {
        Err("不支持的管理动作"@)
    } else {
        Ok(true)
    }
}

/// Checks a management decision's action against its order type and the
/// position: the order type must suit the action, and any action other
/// than waiting or holding needs a position and must be one that manages
/// it.
pub fn check_management_action(action: Option<&str>, order_type: Option<&str>, has_position: bool) -> (r: Result<bool, String>)
    ensures
        match r {
            Ok(b) => spec_management_check(match action {
                Some(a) => Some(a@),
                None => None,
            }, match order_type {
                Some(o) => Some(o@),
                None => None,
            }, has_position) == Ok::<bool, Seq<char>>(b),
            Err(e) => spec_management_check(match action {
                Some(a) => Some(a@),
                None => None,
            }, match order_type {
                Some(o) => Some(o@),
                None => None,
            }, has_position) == Err::<bool, Seq<char>>(e@),
        },
{
    let a = match action {
        Some(a) => a,
        None => "WAIT",
    };
    match order_type {
        Some(o) => {
            let ok = if str_eq(a, "WAIT") {
                str_eq(o, "不下单")
            } else if str_eq(a, "HOLD") {
                str_eq(o, "持有") || str_eq(o, "不下单")
            } else if str_eq(a, "CLOSE_EARLY") {
                str_eq(o, "平仓")
            } else if str_eq(a, "MOVE_STOP_LOSS") {
                str_eq(o, "修改止损")
            } else if str_eq(a, "MOVE_TAKE_PROFIT") || str_eq(a, "TRAILING_TAKE_PROFIT") {
                str_eq(o, "修改止盈")
            } else if str_eq(a, "MOVE_SL_TP") {
                str_eq(o, "修改止盈止损")
            } else {
                false
            };
            proof {
                assert(seq!["持有"@, "不下单"@].contains(o@) <==> (o@ == "持有"@ || o@ == "不下单"@)) by {
                    if o@ == "不下单"@ {
                        assert(seq!["持有"@, "不下单"@][1] == o@);
                    }
                    if o@ == "持有"@ {
                        assert(seq!["持有"@, "不下单"@][0] == o@);
                    }
                }
                assert(seq!["不下单"@].contains(o@) <==> o@ == "不下单"@) by {
                    if o@ == "不下单"@ {
                        assert(seq!["不下单"@][0] == o@);
                    }
                }
                assert(seq!["平仓"@].contains(o@) <==> o@ == "平仓"@) by {
                    if o@ == "平仓"@ {
                        assert(seq!["平仓"@][0] == o@);
                    }
                }
                assert(seq!["修改止损"@].contains(o@) <==> o@ == "修改止损"@) by {
                    if o@ == "修改止损"@ {
                        assert(seq!["修改止损"@][0] == o@);
                    }
                }
                assert(seq!["修改止盈"@].contains(o@) <==> o@ == "修改止盈"@) by {
                    if o@ == "修改止盈"@ {
                        assert(seq!["修改止盈"@][0] == o@);
                    }
                }
                assert(seq!["修改止盈止损"@].contains(o@) <==> o@ == "修改止盈止损"@) by {
                    if o@ == "修改止盈止损"@ {
                        assert(seq!["修改止盈止损"@][0] == o@);
                    }
                }
            }
            if !ok {
                return Err(String::from_str("管理动作与订单类型冲突"));
            }
        },
        None => {},
    }
    if str_eq(a, "WAIT") || str_eq(a, "HOLD") {
        return Ok(false);
    }
    if !has_position {
        return Err(String::from_str("无持仓可管理"));
    }
    if !(str_eq(a, "CLOSE_EARLY") || str_eq(a, "MOVE_STOP_LOSS") || str_eq(a, "MOVE_TAKE_PROFIT") || str_eq(a, "TRAILING_TAKE_PROFIT") || str_eq(a, "MOVE_SL_TP")) {
        return Err(String::from_str("不支持的管理动作"));
    }
    Ok(true)
}

/// Whether the model's terminal state lets an order through: not when it
/// ended in `wait` or `reject`, nor when the decision says the trader's
/// equation fails.
pub open spec fn spec_terminal_allows(outcome: Option<Seq<char>>, equation_is_false: bool) -> bool {
    !(outcome matches Some(o) && (o == "wait"@ || o == "reject"@)) && !equation_is_false
}

/// Whether the terminal state lets an order through. `outcome` is the
/// terminal `outcome` text when there is one; `equation_is_false` whether
/// `traders_equation_passes` is the boolean `false`.
pub fn terminal_allows(outcome: Option<&str>, equation_is_false: bool) -> (r: bool)
    ensures
        r == spec_terminal_allows(match outcome {
            Some(o) => Some(o@),
            None => None,
        }, equation_is_false),
{
    let stopped = match outcome {
        Some(o) => str_eq(o, "wait") || str_eq(o, "reject"),
        None => false,
    };
    !stopped && !equation_is_false
}

/// The order types that open a position.
pub open spec fn is_entry_order(order_type: Seq<char>) -> bool {
    order_type == "限价单"@ || order_type == "突破单"@ || order_type == "市价单"@
}

/// What an opening decision states, as the coherence checks read it.
#[derive(Debug)]
pub struct OpeningFacts {
    /// `action`, or empty.
    pub action: String,
    /// `order_type`, or empty.
    pub order_type: String,
    /// `order_direction` when it is a string.
    pub direction: Option<String>,
    /// Whether a position is already open.
    pub has_position: bool,
    /// The stage-1 `gate_result`, when it is a string.
    pub gate_result: Option<String>,
    /// The terminal `outcome`, when there is one.
    pub terminal_outcome: Option<String>,
    /// Whether `traders_equation_passes` is the boolean `false`.
    pub equation_is_false: bool,
}

/// Whether a decision opens a position: an entry order type or the `OPEN`
/// action.
pub open spec fn spec_is_opening(order_type: Seq<char>, action: Seq<char>) -> bool {
    is_entry_order(order_type) || action == "OPEN"@
}

/// Whether a decision opens a position.
pub fn is_opening(order_type: &str, action: &str) -> (r: bool)
    ensures
        r == spec_is_opening(order_type@, action@),
{
    str_eq(order_type, "限价单") || str_eq(order_type, "突破单") || str_eq(order_type, "市价单") || str_eq(action, "OPEN")
}

/// Whether stage one let the run through: its gate says `proceed`.
pub open spec fn gate_proceeds(gate_result: Option<String>) -> bool {
    gate_result matches Some(g) && g@ == "proceed"@
}

/// The verdict on an opening decision before its evidence and prices: the
/// direction's sign, or why it is refused.
pub open spec fn spec_opening_check(o: OpeningFacts) -> Result<i8, Seq<char>> {
    spec_gated_opening_check(o, gate_proceeds(o.gate_result))
}

/// The verdict on an opening decision when stage one let the run through
/// exactly when `gate_ok`.
pub open spec fn spec_gated_opening_check(o: OpeningFacts, gate_ok: bool) -> Result<i8, Seq<char>> {
    let opt = |v: Option<String>| match v {
        Some(s) => Some(s@),
        None => None::<Seq<char>>,
    };
    if o.action@ != "OPEN"@ {
        Err("开仓订单类型与 action 冲突"@)
    } else if !is_entry_order(o.order_type@) {
        Err("无效开仓订单类型"@)
    } else if o.has_position {
        Err("已有持仓，禁止新开仓"@)
    } else if !gate_ok {
        Err("阶段一未放行"@)
    } else if !spec_terminal_allows(opt(o.terminal_outcome), o.equation_is_false) {
        Err("模型决策与终止状态冲突"@)
    } else {
        match o.direction {
            Some(d) => if d@ == "做多"@ {
                Ok(1i8)
            } else if d@ == "做空"@ {
                Ok(-1i8)
            } else {
                Err("无效交易方向"@)
            },
            None => Err("无效交易方向"@),
        }
    }
}

/// Checks an opening decision before its evidence and prices: it must say
/// `OPEN` with an entry order type, no position may be open, stage one
/// must have let it through, the terminal state must allow it, and its
/// direction must be long or short. Gives the direction's sign.
pub fn check_opening(o: &OpeningFacts) -> (r: Result<i8, String>)
    ensures
        match r {
            Ok(s) => spec_opening_check(*o) == Ok::<i8, Seq<char>>(s),
            Err(e) => spec_opening_check(*o) == Err::<i8, Seq<char>>(e@),
        },
{
    let proceed = match &o.gate_result {
        Some(g) => str_eq(g.as_str(), "proceed"),
        None => false,
    };
    check_gated_opening(o, proceed)
}

/// Checks an opening decision, with stage one letting the run through
/// exactly when `gate_ok`.
pub fn check_gated_opening(o: &OpeningFacts, gate_ok: bool) -> (r: Result<i8, String>)
    ensures
        match r {
            Ok(s) => spec_gated_opening_check(*o, gate_ok) == Ok::<i8, Seq<char>>(s),
            Err(e) => spec_gated_opening_check(*o, gate_ok) == Err::<i8, Seq<char>>(e@),
        },
{
    if !str_eq(o.action.as_str(), "OPEN") {
        return Err(String::from_str("开仓订单类型与 action 冲突"));
    }
    let t = o.order_type.as_str();
    if !(str_eq(t, "限价单") || str_eq(t, "突破单") || str_eq(t, "市价单")) {
        return Err(String::from_str("无效开仓订单类型"));
    }
    if o.has_position {
        return Err(String::from_str("已有持仓，禁止新开仓"));
    }
    if !gate_ok {
        return Err(String::from_str("阶段一未放行"));
    }
    let outcome = match &o.terminal_outcome {
        Some(t) => Some(t.as_str()),
        None => None,
    };
    if !terminal_allows(outcome, o.equation_is_false) {
        return Err(String::from_str("模型决策与终止状态冲突"));
    }
    match &o.direction {
        Some(d) => {
            if str_eq(d.as_str(), "做多") {
                Ok(1)
            } else if str_eq(d.as_str(), "做空") {
                Ok(-1)
            } else {
                Err(String::from_str("无效交易方向"))
            }
        },
        None => Err(String::from_str("无效交易方向")),
    }
}

/// The action a refused decision is replaced by: hold an open position,
/// else wait.
pub fn fallback_action(has_position: bool) -> (r: &'static str)
    ensures
        r@ == (if has_position {
            "HOLD"@
        } else {
            "WAIT"@
        }),
{
    if has_position {
        "HOLD"
    } else {
        "WAIT"
    }
}

/// A refused opening never leaves an order to place: whatever the facts,
/// a verdict that is not an error carries the sign of a long or a short.
pub proof fn law_opening_needs_a_direction(o: OpeningFacts)
    ensures
        spec_opening_check(o) matches Ok(s) ==> (s == 1 || s == -1) && o.action@ == "OPEN"@ && !o.has_position,
{
}

/// The strategy rules' version stamped on every checked decision.
pub open spec fn spec_strategy_version() -> Seq<char> {
    "2026-09-v1"@
}

/// The strategy rules' version.
pub fn strategy_version() -> (r: &'static str)
    ensures
        r@ == spec_strategy_version(),
{
    "2026-09-v1"
}

/// What a model decision proposes, as the rewrite reads it.
#[derive(Debug)]
pub struct DecisionFacts {
    /// The trading system the run was asked to follow.
    pub system: String,
    /// `action`, or empty.
    pub action: String,
    /// `order_type`, or empty.
    pub order_type: String,
    /// `order_direction` when it is a string.
    pub direction: Option<String>,
}

/// The facts of a decision as text values.
pub struct DecisionFactsView {
    pub system: Seq<char>,
    pub action: Seq<char>,
    pub order_type: Seq<char>,
    pub direction: Option<Seq<char>>,
}

impl View for DecisionFacts {
    type V = DecisionFactsView;

    open spec fn view(&self) -> DecisionFactsView {
        DecisionFactsView {
            system: self.system@,
            action: self.action@,
            order_type: self.order_type@,
            direction: match self.direction {
                Some(d) => Some(d@),
                None => None,
            },
        }
    }
}

impl DecisionFacts {
    /// A copy with the same text in every field.
    pub fn duplicate(&self) -> (r: DecisionFacts)
        ensures
            r@ == self@,
    {
        DecisionFacts {
            system: self.system.clone(),
            action: self.action.clone(),
            order_type: self.order_type.clone(),
            direction: match &self.direction {
                Some(d) => Some(d.clone()),
                None => None,
            },
        }
    }
}

/// How a checked decision leaves the program's hands.
#[derive(Debug)]
pub struct EnforceOutcome {
    /// Whether the decision passed the program's checks.
    pub passed: bool,
    /// Whether the decision opens a position (its entry was checked).
    pub entry_checked: bool,
    /// Why it was refused; also the fallback decision's reasoning.
    pub reason: Option<String>,
    /// The decision's `action` afterwards.
    pub action: String,
    /// The decision's `order_type` afterwards.
    pub order_type: String,
    /// The decision's `traders_equation_passes` afterwards.
    pub traders_equation_passes: bool,
    /// Whether `risk_reward_ratio` is cleared (a non-opening decision; the
    /// fallback carries none either).
    pub clears_risk_reward: bool,
    /// Whether the terminal state becomes `wait`.
    pub terminal_wait: bool,
    /// The proposal kept as the rejected one, when it was refused.
    pub rejected_proposal: Option<DecisionFacts>,
    /// The strategy id stamped on the decision.
    pub strategy_id: String,
    /// The strategy rules' version stamped on the decision.
    pub strategy_version: String,
}

/// The id stamped on a checked decision: the canonical id of the system,
/// or `unknown`.
pub open spec fn stamped_strategy_id(system: Seq<char>) -> Seq<char> {
    match spec_canonical(system) {
        Some(c) => c,
        None => "unknown"@,
    }
}

/// Why a decision is refused, or `None` when it passes. An opening
/// decision must say `OPEN` with an entry order type, find no open
/// position, have stage one's `proceed`, agree with the terminal state,
/// name a direction and pass the entry check; any other decision must pass
/// the management check.
pub open spec fn spec_enforce_refusal(
    d: DecisionFactsView,
    gate_proceed: bool,
    terminal_allows: bool,
    has_position: bool,
    entry_check: Result<(), Seq<char>>,
    management_check: Result<(), Seq<char>>,
) -> Option<Seq<char>> {
    if spec_is_opening(d.order_type, d.action) {
        if d.action != "OPEN"@ {
            Some("开仓订单类型与 action 冲突"@)
        } else if !is_entry_order(d.order_type) {
            Some("无效开仓订单类型"@)
        } else if has_position {
            Some("已有持仓，禁止新开仓"@)
        } else if !gate_proceed {
            Some("阶段一未放行"@)
        } else if !terminal_allows {
            Some("模型决策与终止状态冲突"@)
        } else if !(d.direction matches Some(x) && (x == "做多"@ || x == "做空"@)) {
            Some("无效交易方向"@)
        } else {
            match entry_check {
                Ok(_) => None,
                Err(e) => Some(e),
            }
        }
    } else {
        match management_check {
            Ok(_) => None,
            Err(e) => Some(e),
        }
    }
}

fn text_result(r: &Result<(), String>) -> (t: Option<String>)
    ensures
        match r {
            Ok(_) => t is None,
            Err(e) => t matches Some(x) && x@ == e@,
        },
{
    match r {
        Ok(_) => None,
        Err(e) => Some(e.clone()),
    }
}

/// Checks a model decision against the program's rules and says how it is
/// rewritten. `gate_proceed` is whether stage one said `proceed`,
/// `terminal_allows` whether the terminal state lets an order through,
/// `entry_check` the verdict of the evidence and entry-price checks for the
/// proposed direction and `management_check` that of the management
/// checks. A refused decision is replaced by `HOLD` (with a position) or
/// `WAIT`, places no order, and sends the run to a `wait` terminal; the
/// proposal is kept as the rejected one.
pub fn enforce_decision(
    d: &DecisionFacts,
    gate_proceed: bool,
    terminal_allows: bool,
    has_position: bool,
    entry_check: Result<(), String>,
    management_check: Result<(), String>,
) -> (r: EnforceOutcome)
    ensures
        ({
            let refusal = spec_enforce_refusal(
                d@,
                gate_proceed,
                terminal_allows,
                has_position,
                match entry_check {
                    Ok(_) => Ok(()),
                    Err(e) => Err(e@),
                },
                match management_check {
                    Ok(_) => Ok(()),
                    Err(e) => Err(e@),
                },
            );
            let opening = spec_is_opening(d.order_type@, d.action@);
            &&& r.strategy_id@ == stamped_strategy_id(d.system@)
            &&& r.strategy_version@ == spec_strategy_version()
            &&& r.entry_checked == opening
            &&& r.passed == refusal is None
            &&& match refusal {
                None => {
                    &&& r.reason is None
                    &&& r.rejected_proposal is None
                    &&& !r.terminal_wait
                    &&& r.order_type@ == d.order_type@
                    &&& r.action@ == (if opening { "OPEN"@ } else { d.action@ })
                    &&& r.traders_equation_passes == opening
                    &&& r.clears_risk_reward == !opening
                },
                Some(why) => {
                    &&& r.reason matches Some(x) && x@ == why
                    &&& r.rejected_proposal matches Some(p) && p@ == d@
                    &&& r.terminal_wait
                    &&& r.order_type@ == "不下单"@
                    &&& r.action@ == (if has_position { "HOLD"@ } else { "WAIT"@ })
                    &&& !r.traders_equation_passes
                    &&& r.clears_risk_reward
                },
            }
        }),
{
    let id = match canonical(d.system.as_str()) {
        Some(c) => c,
        None => "unknown",
    };
    let opening = is_opening(d.order_type.as_str(), d.action.as_str());
    let refusal: Option<String> = if opening {
        let t = d.order_type.as_str();
        if !str_eq(d.action.as_str(), "OPEN") {
            Some(owned("开仓订单类型与 action 冲突"))
        } else if !(str_eq(t, "限价单") || str_eq(t, "突破单") || str_eq(t, "市价单")) {
            Some(owned("无效开仓订单类型"))
        } else if has_position {
            Some(owned("已有持仓，禁止新开仓"))
        } else if !gate_proceed {
            Some(owned("阶段一未放行"))
        } else if !terminal_allows {
            Some(owned("模型决策与终止状态冲突"))
        } else {
            let named = match &d.direction {
                Some(x) => str_eq(x.as_str(), "做多") || str_eq(x.as_str(), "做空"),
                None => false,
            };
            if !named {
                Some(owned("无效交易方向"))
            } else {
                text_result(&entry_check)
            }
        }
    } else {
        text_result(&management_check)
    };
    match refusal {
        None => EnforceOutcome {
            passed: true,
            entry_checked: opening,
            reason: None,
            action: if opening { owned("OPEN") } else { d.action.clone() },
            order_type: d.order_type.clone(),
            traders_equation_passes: opening,
            clears_risk_reward: !opening,
            terminal_wait: false,
            rejected_proposal: None,
            strategy_id: owned(id),
            strategy_version: owned(strategy_version()),
        },
        Some(why) => EnforceOutcome {
            passed: false,
            entry_checked: opening,
            reason: Some(why),
            action: owned(fallback_action(has_position)),
            order_type: owned("不下单"),
            traders_equation_passes: false,
            clears_risk_reward: true,
            terminal_wait: true,
            rejected_proposal: Some(d.duplicate()),
            strategy_id: owned(id),
            strategy_version: owned(strategy_version()),
        },
    }
}

/// Stage one's refusal stops every opening: without `proceed` no opening
/// decision passes, whatever the entry check said.
pub proof fn law_no_opening_without_gate(
    d: DecisionFactsView,
    terminal_allows: bool,
    has_position: bool,
    entry_check: Result<(), Seq<char>>,
    management_check: Result<(), Seq<char>>,
)
    requires
        spec_is_opening(d.order_type, d.action),
    ensures
        spec_enforce_refusal(d, false, terminal_allows, has_position, entry_check, management_check) is Some,
{
}

/// An open position blocks every new opening.
pub proof fn law_no_opening_over_a_position(
    d: DecisionFactsView,
    gate_proceed: bool,
    terminal_allows: bool,
    entry_check: Result<(), Seq<char>>,
    management_check: Result<(), Seq<char>>,
)
    requires
        spec_is_opening(d.order_type, d.action),
    ensures
        spec_enforce_refusal(d, gate_proceed, terminal_allows, true, entry_check, management_check) is Some,
{
}

} // verus!
