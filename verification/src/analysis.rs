//! The decisions around one analysis run: which strategy it uses, how much
//! market data it reads, which higher timeframe confirms it, and what is
//! done with the decision it produces.
use vstd::prelude::*;
use crate::labels::{canonical, spec_canonical};
use crate::strategy::{check_gated_opening, is_opening, spec_gated_opening_check, spec_is_opening, OpeningFacts};
use crate::text::{contains, eq_ignore_ascii_case, is_blank, str_contains, str_eq, str_eq_ignore_ascii_case, trim};

verus! {

broadcast use vstd::string::group_string_axioms;

/// Refusal text for an unknown strategy.
pub open spec fn unknown_system() -> Seq<char> {
    "未知交易系统"@
}

/// Whether an analysis may run over `bar_count` bars: between 20 and 800.
pub fn check_bar_count(bar_count: usize) -> (r: Result<(), String>)
    ensures
        r is Ok <==> 20 <= bar_count <= 800,
        r matches Err(e) ==> e@ == "分析 K 线数量必须在 20 至 800 之间"@,
{
    if 20 <= bar_count && bar_count <= 800 {
        Ok(())
    } else {
        Err(String::from_str("分析 K 线数量必须在 20 至 800 之间"))
    }
}

/// The strategy an analysis runs: a non-blank override, named by its
/// canonical id, or else the current strategy; either way the name must
/// be known.
pub open spec fn spec_select_system(current: Seq<char>, requested: Option<Seq<char>>) -> Result<Seq<char>, Seq<char>> {
    let chosen: Result<Seq<char>, Seq<char>> = match requested {
        Some(s) if trim(s).len() > 0 => match spec_canonical(s) {
            Some(c) => Ok(c),
            None => Err(unknown_system()),
        },
        _ => Ok(current),
    };
    match chosen {
        Ok(name) => match spec_canonical(name) {
            Some(c) => Ok(c),
            None => Err(unknown_system()),
        },
        Err(e) => Err(e),
    }
}

/// Chooses the strategy for an analysis. When the request names one, the
/// caller makes it the current strategy (`override_applies`).
pub fn select_system(current: &str, requested: Option<&str>) -> (r: Result<&'static str, String>)
    ensures
        match r {
            Ok(c) => spec_select_system(current@, crate::positions::text_of(requested)) == Ok::<Seq<char>, Seq<char>>(c@),
            Err(e) => spec_select_system(current@, crate::positions::text_of(requested)) == Err::<Seq<char>, Seq<char>>(e@),
        },
{
    let chosen: &str = match requested {
        Some(s) if !is_blank(s) => match canonical(s) {
            Some(c) => c,
            None => {
                return Err(String::from_str("未知交易系统"));
            },
        },
        _ => current,
    };
    match canonical(chosen) {
        Some(c) => Ok(c),
        None => Err(String::from_str("未知交易系统")),
    }
}

/// Whether a request replaces the current strategy: it names a non-blank one.
pub fn override_applies(requested: Option<&str>) -> (r: bool)
    ensures
        r == (requested matches Some(s) && trim(s@).len() > 0),
{
    match requested {
        Some(s) => !is_blank(s),
        None => false,
    }
}

/// Whether a strategy is the adaptive, observation-only one.
pub open spec fn spec_is_adaptive(system: Seq<char>) -> bool {
    eq_ignore_ascii_case(system, "adaptive"@) || contains(system, "自适应"@)
}

/// Whether the strategy only observes and never opens positions.
pub fn is_adaptive(system: &str) -> (r: bool)
    ensures
        r == spec_is_adaptive(system@),
{
    str_eq_ignore_ascii_case(system, "adaptive") || str_contains(system, "自适应")
}

/// How many candles an analysis reads: the bars analysed, the indicator
/// warm-up and twenty more, at least 100; the adaptive strategy reads at
/// least 800.
pub open spec fn spec_fetch_limit(bar_count: int, warmup_bars: int, adaptive: bool) -> int {
    let need = bar_count + warmup_bars + 20;
    if adaptive {
        if need > 800 {
            need
        } else {
            800
        }
    } else if need > 100 {
        need
    } else {
        100
    }
}

/// The number of candles to fetch for an analysis.
pub fn fetch_limit(bar_count: usize, warmup_bars: usize, adaptive: bool) -> (r: usize)
    requires
        bar_count + warmup_bars + 20 <= usize::MAX,
    ensures
        r == spec_fetch_limit(bar_count as int, warmup_bars as int, adaptive),
{
    let need = bar_count + warmup_bars + 20;
    if adaptive {
        if need > 800 {
            need
        } else {
            800
        }
    } else if need > 100 {
        need
    } else {
        100
    }
}

/// The timeframe that confirms an analysis: one hour for minute charts up
/// to 15 minutes, four hours for 30 minutes and one hour, none otherwise.
pub open spec fn spec_higher_timeframe(timeframe: Seq<char>) -> Option<Seq<char>> {
    if timeframe == "1m"@ || timeframe == "3m"@ || timeframe == "5m"@ || timeframe == "15m"@ {
        Some("1H"@)
    } else if timeframe == "30m"@ || timeframe == "1h"@ {
        Some("4H"@)
    } else {
        None
    }
}

/// The higher timeframe read alongside an analysis.
pub fn higher_timeframe(timeframe: &str) -> (r: Option<&'static str>)
    ensures
        match r {
            Some(h) => spec_higher_timeframe(timeframe@) == Some(h@),
            None => spec_higher_timeframe(timeframe@) is None,
        },
{
    if str_eq(timeframe, "1m") || str_eq(timeframe, "3m") || str_eq(timeframe, "5m") || str_eq(timeframe, "15m") {
        Some("1H")
    } else if str_eq(timeframe, "30m") || str_eq(timeframe, "1h") {
        Some("4H")
    } else {
        None
    }
}

/// What an executed analysis does with its decision.
#[derive(Debug, Clone, Copy, PartialEq, Eq, Structural)]
pub enum ExecutionRoute {
    /// Place an entry order.
    Entry,
    /// Close or re-protect the held position.
    Management,
    /// Nothing to send.
    NoOrder,
}

/// Whether the order type opens a position.
pub open spec fn entry_order_type(order_type: Seq<char>) -> bool {
    order_type == "限价单"@ || order_type == "突破单"@ || order_type == "市价单"@
}

/// Whether the action stands aside.
pub open spec fn passive_action(action: Seq<char>) -> bool {
    action == "HOLD"@ || action == "WAIT"@ || action == "CLOSE_EARLY"@
}

/// Whether the decision manages the held position.
pub open spec fn management_decision(order_type: Seq<char>, action: Seq<char>) -> bool {
    order_type == "平仓"@ || order_type == "修改止损"@ || order_type == "修改止盈"@ || order_type == "修改止盈止损"@
        || action == "CLOSE_EARLY"@ || action == "MOVE_STOP_LOSS"@ || action == "MOVE_TAKE_PROFIT"@ || action
        == "TRAILING_TAKE_PROFIT"@ || action == "MOVE_SL_TP"@
}

/// The route of a decision: an entry order type with an active action is
/// an entry; otherwise a closing or re-protecting decision is management;
/// anything else sends nothing.
pub open spec fn spec_execution_route(order_type: Seq<char>, action: Seq<char>) -> ExecutionRoute {
    if entry_order_type(order_type) && !passive_action(action) {
        ExecutionRoute::Entry
    } else if management_decision(order_type, action) {
        ExecutionRoute::Management
    } else {
        ExecutionRoute::NoOrder
    }
}

/// Where an executed analysis sends its decision.
pub fn execution_route(order_type: &str, action: &str) -> (r: ExecutionRoute)
    ensures
        r == spec_execution_route(order_type@, action@),
{
    let entry = str_eq(order_type, "限价单") || str_eq(order_type, "突破单") || str_eq(order_type, "市价单");
    let passive = str_eq(action, "HOLD") || str_eq(action, "WAIT") || str_eq(action, "CLOSE_EARLY");
    if entry && !passive {
        return ExecutionRoute::Entry;
    }
    let manage = str_eq(order_type, "平仓") || str_eq(order_type, "修改止损") || str_eq(order_type, "修改止盈")
        || str_eq(order_type, "修改止盈止损") || str_eq(action, "CLOSE_EARLY") || str_eq(action, "MOVE_STOP_LOSS")
        || str_eq(action, "MOVE_TAKE_PROFIT") || str_eq(action, "TRAILING_TAKE_PROFIT") || str_eq(action, "MOVE_SL_TP");
    if manage {
        ExecutionRoute::Management
    } else {
        ExecutionRoute::NoOrder
    }
}

/// A closing decision is never sent as an entry, whatever its order type.
pub proof fn law_closing_is_never_an_entry(order_type: Seq<char>)
    ensures
        spec_execution_route(order_type, "CLOSE_EARLY"@) == ExecutionRoute::Management,
        spec_execution_route(order_type, "WAIT"@) != ExecutionRoute::Entry,
        spec_execution_route(order_type, "HOLD"@) != ExecutionRoute::Entry,
{
}

/// The display name of a strategy.
pub open spec fn spec_system_name(system: Seq<char>) -> Seq<char> {
    if system == "dog_reversion"@ {
        "🐕 遛狗系统 (SMA 14/170 均线回归)"@
    } else if system == "dog_trend"@ {
        "遛狗顺势回踩"@
    } else if system == "adaptive"@ {
        "🧠 自适应观察模式（不开新仓）"@
    } else {
        "2PA 价格行为系统 (Al Brooks)"@
    }
}

/// The name an analysis result shows for its strategy.
pub fn system_name(system: &str) -> (r: &'static str)
    ensures
        r@ == spec_system_name(system@),
{
    if str_eq(system, "dog_reversion") {
        "🐕 遛狗系统 (SMA 14/170 均线回归)"
    } else if str_eq(system, "dog_trend") {
        "遛狗顺势回踩"
    } else if str_eq(system, "adaptive") {
        "🧠 自适应观察模式（不开新仓）"
    } else {
        "2PA 价格行为系统 (Al Brooks)"
    }
}

// ---------------------------------------------------------------------------
// The two-stage run.
// ---------------------------------------------------------------------------

/// How many experience cases a stage-2 prompt may carry: none unless
/// learning is on and reading experience is allowed.
pub fn experience_max_entries(learning_enabled: bool, read_experience: bool, max_entries: usize) -> (r: usize)
    ensures
        r == (if !learning_enabled || !read_experience {
            0
        } else {
            max_entries
        }),
{
    if !learning_enabled || !read_experience {
        0
    } else {
        max_entries
    }
}

/// Where the stage-1 diagnosis comes from.
#[derive(Debug, Clone, Copy, PartialEq, Eq, Structural)]
pub enum Stage1Source {
    /// The TypeSafe evaluation answered.
    TypeSafe,
    /// TypeSafe was asked, gave nothing, and the run fails closed: wait.
    ForcedWait,
    /// The language model diagnoses.
    Model,
}

/// The source of the stage-1 diagnosis: TypeSafe when it is configured and
/// answered; when it is configured but gave nothing, a forced wait if the
/// run fails closed, else the model; the model when TypeSafe is not
/// configured.
pub fn stage1_source(typesafe_configured: bool, typesafe_answered: bool, fail_closed: bool) -> (r: Stage1Source)
    ensures
        r == (if !typesafe_configured {
            Stage1Source::Model
        } else if typesafe_answered {
            Stage1Source::TypeSafe
        } else if fail_closed {
            Stage1Source::ForcedWait
        } else {
            Stage1Source::Model
        }),
{
    if !typesafe_configured {
        Stage1Source::Model
    } else if typesafe_answered {
        Stage1Source::TypeSafe
    } else if fail_closed {
        Stage1Source::ForcedWait
    } else {
        Stage1Source::Model
    }
}

// ---------------------------------------------------------------------------
// The two-stage run.
// ---------------------------------------------------------------------------

/// Where a two-stage run stands.
#[derive(Debug, Clone, Copy, PartialEq, Eq, Structural)]
pub enum AnalysisPhase {
    /// Nothing asked yet.
    Start,
    /// Waiting for the TypeSafe evaluation of stage one.
    AwaitTypeSafe,
    /// Waiting for the model's stage-one diagnosis.
    AwaitStage1,
    /// Waiting for the model's stage-two decision.
    AwaitStage2,
    /// Finished or failed.
    Done,
}

/// The state of a two-stage run between the calls it awaits.
#[derive(Debug)]
pub struct AnalysisState {
    pub phase: AnalysisPhase,
    /// The canonical strategy id once the run has begun.
    pub system: String,
    pub typesafe_configured: bool,
    pub fail_closed: bool,
    /// Whether the program found an eligible long or short candidate.
    pub candidate_eligible: bool,
    /// Whether the stage-two request carries a stage-one gate of `proceed`.
    pub gate_proceed: bool,
}

/// The abstract content of an [`AnalysisState`].
pub struct AnalysisStateView {
    pub phase: AnalysisPhase,
    pub system: Seq<char>,
    pub typesafe_configured: bool,
    pub fail_closed: bool,
    pub candidate_eligible: bool,
    pub gate_proceed: bool,
}

impl View for AnalysisState {
    type V = AnalysisStateView;

    open spec fn view(&self) -> AnalysisStateView {
        AnalysisStateView {
            phase: self.phase,
            system: self.system@,
            typesafe_configured: self.typesafe_configured,
            fail_closed: self.fail_closed,
            candidate_eligible: self.candidate_eligible,
            gate_proceed: self.gate_proceed,
        }
    }
}

impl AnalysisState {
    /// A run that has not begun.
    pub fn new() -> (r: Self)
        ensures
            r@.phase == AnalysisPhase::Start,
            r@.system.len() == 0,
            !r@.typesafe_configured && !r@.fail_closed && !r@.candidate_eligible && !r@.gate_proceed,
    {
        AnalysisState {
            phase: AnalysisPhase::Start,
            system: String::new(),
            typesafe_configured: false,
            fail_closed: false,
            candidate_eligible: false,
            gate_proceed: false,
        }
    }
}

/// What happened since the last step.
#[derive(Debug)]
pub enum AnalysisEvent {
    /// The run is asked for on `system`, with the program's candidates.
    Begin { system: String, typesafe_configured: bool, fail_closed: bool, long_eligible: bool, short_eligible: bool },
    /// TypeSafe answered; `gate_proceed` is whether its diagnosis lets the
    /// run through.
    TypeSafeAnswered { gate_proceed: bool },
    /// TypeSafe gave nothing.
    TypeSafeUnavailable,
    /// The model's validated diagnosis; `gate_proceed` as above.
    Stage1Answered { gate_proceed: bool },
    /// The model's validated decision: what the opening checks read, the
    /// verdict on its evidence and prices (made on floating-point bars),
    /// and the verdict on a management decision.
    Stage2Answered { decision: OpeningFacts, evidence: Result<(), String>, management: Result<(), String> },
    /// A call failed beyond its retries.
    Failed(String),
}

/// What becomes of the stage-two decision.
#[derive(Debug)]
pub enum AnalysisVerdict {
    /// An opening that passed every check, with its direction's sign.
    Open { sign: i8 },
    /// A management decision that passed its checks.
    Manage,
    /// Refused: replaced by holding (when a position is open) or waiting.
    Refused { hold: bool, reason: String },
}

/// What the caller does next.
#[derive(Debug)]
pub enum AnalysisAction {
    AskTypeSafe,
    AskStage1,
    /// Ask the model for its decision, with the stage-one gate forced to
    /// `wait` unless `gate_proceed`.
    AskStage2 { gate_proceed: bool },
    Finish(AnalysisVerdict),
    Fail(String),
    /// The event does not belong to this phase; nothing changes.
    Ignore,
}

/// The abstract content of an [`AnalysisVerdict`].
pub enum AnalysisVerdictView {
    Open { sign: i8 },
    Manage,
    Refused { hold: bool, reason: Seq<char> },
}

/// The abstract content of an [`AnalysisAction`].
pub enum AnalysisActionView {
    AskTypeSafe,
    AskStage1,
    AskStage2 { gate_proceed: bool },
    Finish(AnalysisVerdictView),
    Fail(Seq<char>),
    Ignore,
}

impl View for AnalysisAction {
    type V = AnalysisActionView;

    open spec fn view(&self) -> AnalysisActionView {
        match self {
            AnalysisAction::AskTypeSafe => AnalysisActionView::AskTypeSafe,
            AnalysisAction::AskStage1 => AnalysisActionView::AskStage1,
            AnalysisAction::AskStage2 { gate_proceed } => AnalysisActionView::AskStage2 { gate_proceed: *gate_proceed },
            AnalysisAction::Finish(v) => AnalysisActionView::Finish(match v {
                AnalysisVerdict::Open { sign } => AnalysisVerdictView::Open { sign: *sign },
                AnalysisVerdict::Manage => AnalysisVerdictView::Manage,
                AnalysisVerdict::Refused { hold, reason } => AnalysisVerdictView::Refused { hold: *hold, reason: reason@ },
            }),
            AnalysisAction::Fail(m) => AnalysisActionView::Fail(m@),
            AnalysisAction::Ignore => AnalysisActionView::Ignore,
        }
    }
}

/// `s` in phase `phase` with the stage-one gate `gate`.
pub open spec fn moved(s: AnalysisStateView, phase: AnalysisPhase, gate: bool) -> AnalysisStateView {
    AnalysisStateView { phase, gate_proceed: gate, ..s }
}

/// The verdict on the stage-two decision: an opening must pass the
/// opening checks under the run's stage-one gate, then its evidence and
/// prices; anything else must pass the management checks. A refusal holds
/// an open position, else waits.
pub open spec fn spec_stage2_verdict(
    gate: bool,
    d: OpeningFacts,
    evidence: Result<(), String>,
    management: Result<(), String>,
) -> AnalysisVerdictView {
    if spec_is_opening(d.order_type@, d.action@) {
        match spec_gated_opening_check(d, gate) {
            Err(e) => AnalysisVerdictView::Refused { hold: d.has_position, reason: e },
            Ok(sign) => match evidence {
                Err(e) => AnalysisVerdictView::Refused { hold: d.has_position, reason: e@ },
                Ok(()) => AnalysisVerdictView::Open { sign },
            },
        }
    } else {
        match management {
            Err(e) => AnalysisVerdictView::Refused { hold: d.has_position, reason: e@ },
            Ok(()) => AnalysisVerdictView::Manage,
        }
    }
}

/// One step of a two-stage run. An unknown system fails. TypeSafe is asked
/// first when configured; when it gives nothing the run fails closed to a
/// waiting gate, or falls back to the model. The stage-one gate that stage
/// two sees proceeds only when the diagnosis lets it through and some
/// program candidate is eligible; the decision then passes the program's
/// checks or is replaced by holding or waiting.
pub open spec fn spec_analysis_step(s: AnalysisStateView, e: AnalysisEvent) -> (AnalysisStateView, AnalysisActionView) {
    match (s.phase, e) {
        (AnalysisPhase::Start, AnalysisEvent::Begin { system, typesafe_configured, fail_closed, long_eligible, short_eligible }) => {
            match spec_canonical(system@) {
                None => (moved(s, AnalysisPhase::Done, false), AnalysisActionView::Fail(unknown_system())),
                Some(c) => {
                    let next = AnalysisStateView {
                        phase: if typesafe_configured { AnalysisPhase::AwaitTypeSafe } else { AnalysisPhase::AwaitStage1 },
                        system: c,
                        typesafe_configured,
                        fail_closed,
                        candidate_eligible: long_eligible || short_eligible,
                        gate_proceed: false,
                    };
                    (next, if typesafe_configured { AnalysisActionView::AskTypeSafe } else { AnalysisActionView::AskStage1 })
                },
            }
        },
        (AnalysisPhase::AwaitTypeSafe, AnalysisEvent::TypeSafeAnswered { gate_proceed }) => {
            let g = gate_proceed && s.candidate_eligible;
            (moved(s, AnalysisPhase::AwaitStage2, g), AnalysisActionView::AskStage2 { gate_proceed: g })
        },
        (AnalysisPhase::AwaitTypeSafe, AnalysisEvent::TypeSafeUnavailable) => {
            if s.fail_closed {
                (moved(s, AnalysisPhase::AwaitStage2, false), AnalysisActionView::AskStage2 { gate_proceed: false })
            } else {
                (moved(s, AnalysisPhase::AwaitStage1, false), AnalysisActionView::AskStage1)
            }
        },
        (AnalysisPhase::AwaitStage1, AnalysisEvent::Stage1Answered { gate_proceed }) => {
            let g = gate_proceed && s.candidate_eligible;
            (moved(s, AnalysisPhase::AwaitStage2, g), AnalysisActionView::AskStage2 { gate_proceed: g })
        },
        (AnalysisPhase::AwaitStage2, AnalysisEvent::Stage2Answered { decision, evidence, management }) => {
            (
                moved(s, AnalysisPhase::Done, s.gate_proceed),
                AnalysisActionView::Finish(spec_stage2_verdict(s.gate_proceed, decision, evidence, management)),
            )
        },
        (AnalysisPhase::AwaitTypeSafe, AnalysisEvent::Failed(m)) => (moved(s, AnalysisPhase::Done, false), AnalysisActionView::Fail(m@)),
        (AnalysisPhase::AwaitStage1, AnalysisEvent::Failed(m)) => (moved(s, AnalysisPhase::Done, false), AnalysisActionView::Fail(m@)),
        (AnalysisPhase::AwaitStage2, AnalysisEvent::Failed(m)) => (moved(s, AnalysisPhase::Done, false), AnalysisActionView::Fail(m@)),
        _ => (s, AnalysisActionView::Ignore),
    }
}

fn copy_result(r: &Result<(), String>) -> (c: Result<(), String>)
    ensures
        match (r, c) {
            (Ok(()), Ok(())) => true,
            (Err(a), Err(b)) => a@ == b@,
            _ => false,
        },
{
    match r {
        Ok(()) => Ok(()),
        Err(e) => Err(e.clone()),
    }
}

fn moved_state(s: &AnalysisState, phase: AnalysisPhase, gate: bool) -> (r: AnalysisState)
    ensures
        r@ == moved(s@, phase, gate),
{
    AnalysisState {
        phase,
        system: s.system.clone(),
        typesafe_configured: s.typesafe_configured,
        fail_closed: s.fail_closed,
        candidate_eligible: s.candidate_eligible,
        gate_proceed: gate,
    }
}

/// The verdict on the stage-two decision.
fn stage2_verdict(gate: bool, d: &OpeningFacts, evidence: &Result<(), String>, management: &Result<(), String>) -> (r:
    AnalysisVerdict)
    ensures
        AnalysisAction::Finish(r)@ == AnalysisActionView::Finish(spec_stage2_verdict(gate, *d, *evidence, *management)),
{
    if is_opening(d.order_type.as_str(), d.action.as_str()) {
        match check_gated_opening(d, gate) {
            Err(e) => AnalysisVerdict::Refused { hold: d.has_position, reason: e },
            Ok(sign) => match copy_result(evidence) {
                Err(e) => AnalysisVerdict::Refused { hold: d.has_position, reason: e },
                Ok(()) => AnalysisVerdict::Open { sign },
            },
        }
    } else {
        match copy_result(management) {
            Err(e) => AnalysisVerdict::Refused { hold: d.has_position, reason: e },
            Ok(()) => AnalysisVerdict::Manage,
        }
    }
}

/// Decides the next step of a two-stage run from its state and what just
/// happened; the caller makes the calls the action names and reports back.
pub fn analysis_step(state: &AnalysisState, event: &AnalysisEvent) -> (r: (AnalysisState, AnalysisAction))
    ensures
        (r.0@, r.1@) == spec_analysis_step(state@, *event),
{
    match (state.phase, event) {
        (AnalysisPhase::Start, AnalysisEvent::Begin { system, typesafe_configured, fail_closed, long_eligible, short_eligible }) => {
            match canonical(system.as_str()) {
                None => (moved_state(state, AnalysisPhase::Done, false), AnalysisAction::Fail(String::from_str("未知交易系统"))),
                Some(c) => {
                    let ts = *typesafe_configured;
                    let next = AnalysisState {
                        phase: if ts { AnalysisPhase::AwaitTypeSafe } else { AnalysisPhase::AwaitStage1 },
                        system: String::from_str(c),
                        typesafe_configured: ts,
                        fail_closed: *fail_closed,
                        candidate_eligible: *long_eligible || *short_eligible,
                        gate_proceed: false,
                    };
                    (next, if ts { AnalysisAction::AskTypeSafe } else { AnalysisAction::AskStage1 })
                },
            }
        },
        (AnalysisPhase::AwaitTypeSafe, AnalysisEvent::TypeSafeAnswered { gate_proceed }) => {
            let g = *gate_proceed && state.candidate_eligible;
            (moved_state(state, AnalysisPhase::AwaitStage2, g), AnalysisAction::AskStage2 { gate_proceed: g })
        },
        (AnalysisPhase::AwaitTypeSafe, AnalysisEvent::TypeSafeUnavailable) => {
            if state.fail_closed {
                (moved_state(state, AnalysisPhase::AwaitStage2, false), AnalysisAction::AskStage2 { gate_proceed: false })
            } else {
                (moved_state(state, AnalysisPhase::AwaitStage1, false), AnalysisAction::AskStage1)
            }
        },
        (AnalysisPhase::AwaitStage1, AnalysisEvent::Stage1Answered { gate_proceed }) => {
            let g = *gate_proceed && state.candidate_eligible;
            (moved_state(state, AnalysisPhase::AwaitStage2, g), AnalysisAction::AskStage2 { gate_proceed: g })
        },
        (AnalysisPhase::AwaitStage2, AnalysisEvent::Stage2Answered { decision, evidence, management }) => {
            let v = stage2_verdict(state.gate_proceed, decision, evidence, management);
            (moved_state(state, AnalysisPhase::Done, state.gate_proceed), AnalysisAction::Finish(v))
        },
        (AnalysisPhase::AwaitTypeSafe, AnalysisEvent::Failed(m))
        | (AnalysisPhase::AwaitStage1, AnalysisEvent::Failed(m))
        | (AnalysisPhase::AwaitStage2, AnalysisEvent::Failed(m)) => {
            (moved_state(state, AnalysisPhase::Done, false), AnalysisAction::Fail(m.clone()))
        },
        _ => (moved_state(state, state.phase, state.gate_proceed), AnalysisAction::Ignore),
    }
}

/// Whether an open stage-one gate rests on an eligible candidate.
pub open spec fn analysis_inv(s: AnalysisStateView) -> bool {
    s.gate_proceed ==> s.candidate_eligible
}

/// The program never forces an order: a run whose gate rests on an
/// eligible candidate keeps it so, and a run without an eligible program
/// candidate never ends in an opening, whatever the model answers.
pub proof fn law_no_candidate_no_opening(s: AnalysisStateView, e: AnalysisEvent)
    requires
        analysis_inv(s),
    ensures
        analysis_inv(spec_analysis_step(s, e).0),
        !s.candidate_eligible && s.phase != AnalysisPhase::Start ==> !(spec_analysis_step(s, e).1 matches AnalysisActionView::Finish(
            AnalysisVerdictView::Open { .. },
        )),
{
}

/// An unknown strategy fails the run before anything is asked.
pub proof fn law_unknown_system_fails(s: AnalysisStateView, e: AnalysisEvent)
    requires
        s.phase == AnalysisPhase::Start,
        e matches AnalysisEvent::Begin { system, .. } && spec_canonical(system@) is None,
    ensures
        spec_analysis_step(s, e).1 == AnalysisActionView::Fail(unknown_system()),
        spec_analysis_step(s, e).0.phase == AnalysisPhase::Done,
{
}

} // verus!
