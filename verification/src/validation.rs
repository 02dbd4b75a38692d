//! Validation of the two model replies: the stage-1 diagnosis and the
//! stage-2 decision.
//!
//! A reply is first reduced to the JSON object it holds
//! (`parse_and_clean_json`), then checked for required fields and, for the
//! decision, for coherence between the order type, its prices and the
//! stage-1 diagnosis. Every failure is a `ValidationError` whose category
//! says what went wrong: `a` syntax, `b` missing fields, `c` incoherent
//! values, `d` no JSON object at all.
use vstd::prelude::*;
use crate::json_text::{extract_outer_json_object, repair_trailing_commas, spec_extract_outer_json_object, without_dangling_commas};
use crate::text::{concat2, is_blank, contains, contains_str, eq_ignore_ascii_case, owned, str_contains, str_eq, str_eq_ignore_ascii_case, trim, trim_str, views};

verus! {

/// Why a reply was refused.
#[derive(Debug)]
pub struct ValidationError {
    /// `a` syntax, `b` missing fields, `c` illegal values, `d` plain text,
    /// `e` provider error.
    pub category: String,
    pub stage: String,
    pub raw_text: String,
    pub parse_position: Option<String>,
    pub missing_fields: Vec<String>,
    pub invalid_fields: Vec<String>,
    pub message: String,
}

/// The contents of a `ValidationError` as plain text values.
pub struct ErrorView {
    pub category: Seq<char>,
    pub stage: Seq<char>,
    pub raw_text: Seq<char>,
    pub parse_position: Option<Seq<char>>,
    pub missing_fields: Seq<Seq<char>>,
    pub invalid_fields: Seq<Seq<char>>,
    pub message: Seq<char>,
}

impl View for ValidationError {
    type V = ErrorView;

    open spec fn view(&self) -> ErrorView {
        ErrorView {
            category: self.category@,
            stage: self.stage@,
            raw_text: self.raw_text@,
            parse_position: match self.parse_position {
                Some(p) => Some(p@),
                None => None,
            },
            missing_fields: views(self.missing_fields@),
            invalid_fields: views(self.invalid_fields@),
            message: self.message@,
        }
    }
}

/// An error with the given parts.
pub open spec fn error_of(
    category: Seq<char>,
    stage: Seq<char>,
    raw_text: Seq<char>,
    parse_position: Option<Seq<char>>,
    missing_fields: Seq<Seq<char>>,
    invalid_fields: Seq<Seq<char>>,
    message: Seq<char>,
) -> ErrorView {
    ErrorView {
        category,
        stage,
        raw_text,
        parse_position,
        missing_fields,
        invalid_fields,
        message,
    }
}

/// Builds an error from its parts.
fn make_error(
    category: &str,
    stage: &str,
    raw_text: &str,
    parse_position: Option<String>,
    missing_fields: Vec<String>,
    invalid_fields: Vec<String>,
    message: &str,
) -> (e: ValidationError)
    ensures
        e@ == error_of(
            category@,
            stage@,
            raw_text@,
            match parse_position {
                Some(p) => Some(p@),
                None => None,
            },
            views(missing_fields@),
            views(invalid_fields@),
            message@,
        ),
{
    ValidationError {
        category: owned(category),
        stage: owned(stage),
        raw_text: owned(raw_text),
        parse_position,
        missing_fields,
        invalid_fields,
        message: owned(message),
    }
}

// ---------------------------------------------------------------------------
// JSON parsing.
// ---------------------------------------------------------------------------

/// What `serde_json::from_str::<Value>` makes of `text`: `Ok(true)` for an
/// object, `Ok(false)` for any other JSON value, and `Err` with the text of
/// the parse error (its `Display` form) when `text` is not JSON.
pub uninterp spec fn json_parse_outcome(text: Seq<char>) -> Result<bool, Seq<char>>;

/// The keys of the top-level object of `text` as `serde_json` parses it, in
/// the order its map yields them; `None` when `text` is not a JSON object.
pub uninterp spec fn json_object_keys(text: Seq<char>) -> Option<Seq<Seq<char>>>;

/// Parses `text` with `serde_json::from_str::<serde_json::Value>` and tells
/// whether the value is an object (`Value::is_object`); a parse error is
/// returned as its `Display` text. The result is the named outcome of `text`.
#[verifier::external_body]
fn parse_json(text: &str) -> (r: Result<bool, String>)
    ensures
        match r {
            Ok(b) => json_parse_outcome(text@) == Ok::<bool, Seq<char>>(b),
            Err(m) => json_parse_outcome(text@) == Err::<bool, Seq<char>>(m@),
        },
{
    match serde_json::from_str::<serde_json::Value>(text) {
        Ok(v) => Ok(v.is_object()),
        Err(e) => Err(e.to_string()),
    }
}

/// Parses `text` with `serde_json::from_str::<serde_json::Value>` and lists
/// the keys of the top-level object (`Value::as_object`, `Map::keys`). The
/// result is the named key list of `text`.
#[verifier::external_body]
fn json_keys(text: &str) -> (r: Option<Vec<String>>)
    ensures
        match r {
            Some(k) => json_object_keys(text@) == Some(views(k@)),
            None => json_object_keys(text@) is None,
        },
{
    serde_json::from_str::<serde_json::Value>(text).ok().and_then(
        |v| v.as_object().map(|o| o.keys().cloned().collect()),
    )
}

/// How a reply that is not blank turns out: the JSON text that is accepted
/// (the extracted object, or the same with dangling commas removed) or the
/// error for it.
pub open spec fn spec_parse_and_clean(
    text: Seq<char>,
    stage: Seq<char>,
) -> Result<Seq<char>, ErrorView> {
    let raw = trim(text);
    if raw.len() == 0 {
        Err(
            error_of(
                "d"@,
                stage,
                text,
                None,
                Seq::empty(),
                Seq::empty(),
                "LLM output is empty"@,
            ),
        )
    } else {
        let candidate = spec_extract_outer_json_object(raw);
        match json_parse_outcome(candidate) {
            Ok(true) => Ok(candidate),
            Ok(false) => Err(
                error_of(
                    "d"@,
                    stage,
                    candidate,
                    None,
                    Seq::empty(),
                    Seq::empty(),
                    "Output is not a JSON object"@,
                ),
            ),
            Err(e) => {
                let repaired = without_dangling_commas(candidate, candidate.len() as int);
                if json_parse_outcome(repaired) == Ok::<bool, Seq<char>>(true) {
                    Ok(repaired)
                } else {
                    Err(
                        error_of(
                            "a"@,
                            stage,
                            candidate,
                            Some(e),
                            Seq::empty(),
                            Seq::empty(),
                            "JSON parse error: "@ + e,
                        ),
                    )
                }
            },
        }
    }
}

/// Reduces a model reply to the JSON object it holds and returns that
/// object's text. The reply is trimmed; an empty reply is refused; the
/// outermost object is extracted (reasoning blocks and fences removed); if
/// it does not parse, dangling commas are removed and it is tried again.
pub fn parse_and_clean_json(text: &str, stage: &str) -> (r: Result<String, ValidationError>)
    ensures
        match r {
            Ok(s) => spec_parse_and_clean(text@, stage@) == Ok::<Seq<char>, ErrorView>(s@),
            Err(e) => spec_parse_and_clean(text@, stage@) == Err::<Seq<char>, ErrorView>(e@),
        },
        r matches Ok(s) ==> json_parse_outcome(s@) == Ok::<bool, Seq<char>>(true),
{
    proof {
        assert(views(Seq::<String>::empty()) =~= Seq::<Seq<char>>::empty());
    }
    if is_blank(text) {
        return Err(
            make_error("d", stage, text, None, Vec::new(), Vec::new(), "LLM output is empty"),
        );
    }
    let raw = trim_str(text);
    let candidate = extract_outer_json_object(raw.as_str());
    match parse_json(candidate.as_str()) {
        Ok(true) => Ok(candidate),
        Ok(false) => Err(
            make_error(
                "d",
                stage,
                candidate.as_str(),
                None,
                Vec::new(),
                Vec::new(),
                "Output is not a JSON object",
            ),
        ),
        Err(e) => {
            let repaired = repair_trailing_commas(candidate.as_str());
            match parse_json(repaired.as_str()) {
                Ok(true) => {
                    return Ok(repaired);
                },
                _ => {},
            }
            let message = concat2("JSON parse error: ", e.as_str());
            Err(
                make_error(
                    "a",
                    stage,
                    candidate.as_str(),
                    Some(e),
                    Vec::new(),
                    Vec::new(),
                    message.as_str(),
                ),
            )
        },
    }
}

// ---------------------------------------------------------------------------
// Stage 1.
// ---------------------------------------------------------------------------

/// `[key]` when `key` is absent from `keys`, else nothing.
pub open spec fn absent(keys: Seq<Seq<char>>, key: Seq<char>) -> Seq<Seq<char>> {
    if keys.contains(key) {
        Seq::empty()
    } else {
        seq![key]
    }
}

/// The required stage-1 fields missing from an object with `keys`, in the
/// order the diagnosis lists them.
pub open spec fn stage1_missing(keys: Seq<Seq<char>>) -> Seq<Seq<char>> {
    absent(keys, "cycle_position"@) + absent(keys, "dominant_force"@) + absent(
        keys,
        "gate_result"@,
    )
}

/// The verdict on a stage-1 reply whose top-level keys are `keys` (`None`
/// when it is no object).
pub open spec fn spec_stage1_check(keys: Option<Seq<Seq<char>>>, raw: Seq<char>) -> Result<
    (),
    ErrorView,
> {
    match keys {
        None => Err(
            error_of(
                "d"@,
                "stage1"@,
                raw,
                None,
                seq!["root object"@],
                Seq::empty(),
                "Stage 1 output must be a JSON object"@,
            ),
        ),
        Some(k) => if stage1_missing(k).len() > 0 {
            Err(
                error_of(
                    "b"@,
                    "stage1"@,
                    raw,
                    None,
                    stage1_missing(k),
                    Seq::empty(),
                    "Missing required fields in Stage 1"@,
                ),
            )
        } else {
            Ok(())
        },
    }
}

/// Appends `key` to `missing` when it is not among `keys`.
fn note_absent(missing: &mut Vec<String>, keys: &Vec<String>, key: &str)
    ensures
        views(final(missing)@) == views(old(missing)@) + absent(views(keys@), key@),
{
    if !contains_str(keys, key) {
        missing.push(owned(key));
        proof {
            assert(views(final(missing)@) =~= views(old(missing)@) + absent(views(keys@), key@));
        }
    } else {
        proof {
            assert(views(final(missing)@) =~= views(old(missing)@) + absent(views(keys@), key@));
        }
    }
}

/// Checks a stage-1 reply by the top-level keys of its object (`None` when
/// it is no object): `cycle_position`, `dominant_force` and `gate_result`
/// must all be there.
pub fn check_stage1_keys(keys: Option<&Vec<String>>, raw_text: &str) -> (r: Result<
    (),
    ValidationError,
>)
    ensures
        match r {
            Ok(()) => spec_stage1_check(
                match keys {
                    Some(k) => Some(views(k@)),
                    None => None,
                },
                raw_text@,
            ) == Ok::<(), ErrorView>(()),
            Err(e) => spec_stage1_check(
                match keys {
                    Some(k) => Some(views(k@)),
                    None => None,
                },
                raw_text@,
            ) == Err::<(), ErrorView>(e@),
        },
{
    proof {
        assert(views(Seq::<String>::empty()) =~= Seq::<Seq<char>>::empty());
    }
    match keys {
        None => {
            let mut root = Vec::new();
            root.push(owned("root object"));
            proof {
                assert(views(root@) =~= seq!["root object"@]);
            }
            Err(
                make_error(
                    "d",
                    "stage1",
                    raw_text,
                    None,
                    root,
                    Vec::new(),
                    "Stage 1 output must be a JSON object",
                ),
            )
        },
        Some(k) => {
            let mut missing: Vec<String> = Vec::new();
            note_absent(&mut missing, k, "cycle_position");
            note_absent(&mut missing, k, "dominant_force");
            note_absent(&mut missing, k, "gate_result");
            proof {
                assert(views(missing@) =~= stage1_missing(views(k@)));
            }
            if missing.len() > 0 {
                Err(
                    make_error(
                        "b",
                        "stage1",
                        raw_text,
                        None,
                        missing,
                        Vec::new(),
                        "Missing required fields in Stage 1",
                    ),
                )
            } else {
                Ok(())
            }
        },
    }
}

/// Validates a stage-1 reply given as JSON text and returns that text when
/// the cycle position, dominant force and gate result are all present.
pub fn validate_stage1_json(val: &str, raw_text: &str) -> (r: Result<String, ValidationError>)
    ensures
        match r {
            Ok(s) => s@ == val@ && spec_stage1_check(json_object_keys(val@), raw_text@) == Ok::<
                (),
                ErrorView,
            >(()),
            Err(e) => spec_stage1_check(json_object_keys(val@), raw_text@) == Err::<
                (),
                ErrorView,
            >(e@),
        },
{
    let keys = json_keys(val);
    let verdict = match &keys {
        Some(k) => check_stage1_keys(Some(k), raw_text),
        None => check_stage1_keys(None, raw_text),
    };
    match verdict {
        Ok(()) => Ok(owned(val)),
        Err(e) => Err(e),
    }
}

// ---------------------------------------------------------------------------
// Stage 2.
// ---------------------------------------------------------------------------

/// What the coherence rules read from the `decision` object of a stage-2
/// reply.
#[derive(Debug)]
pub struct DecisionFields {
    /// Whether `decision` is present and is an object.
    pub present: bool,
    pub has_order_type: bool,
    pub has_order_direction: bool,
    /// `order_type` when it is a string, else empty.
    pub order_type: String,
    /// `action` when it is a string, else empty.
    pub action: String,
    /// `order_direction` when it is a string, else empty.
    pub direction: String,
}

/// Facts about the decision's prices that the coherence rules rest on.
#[derive(Debug)]
pub struct PriceFacts {
    /// `new_stop_loss_price`, or failing that `stop_loss_price`, is a number
    /// above zero.
    pub stop_positive: bool,
    /// `new_take_profit_price`, or failing that `take_profit_price`, is a
    /// number above zero.
    pub take_positive: bool,
    /// `entry_price`, `stop_loss_price` and `take_profit_price` are numbers.
    pub entry_complete: bool,
    /// stop < entry < target.
    pub long_ordered: bool,
    /// target < entry < stop.
    pub short_ordered: bool,
    /// The note on a stop closer to the entry than 0.3% of it, when entry and
    /// stop are both positive.
    pub narrow_stop: Option<String>,
}

/// What the conflict rules read from the stage-1 diagnosis.
#[derive(Debug)]
pub struct DiagnosisFacts {
    /// Whether the diagnosis carries `program_candidates` (versioned
    /// strategies, whose evidence is checked elsewhere).
    pub has_program_candidates: bool,
    /// `detected_patterns`, lowercased.
    pub patterns: Vec<String>,
    /// `dominant_force`, or empty.
    pub dominant_force: String,
    /// `cycle_position`, or empty.
    pub cycle_position: String,
}

/// Which price rule a decision falls under.
#[derive(PartialEq, Eq, Structural, Clone, Copy, Debug)]
pub enum OrderKind {
    /// No order, hold or close: prices may be empty.
    NoPrices,
    /// Moving the stop needs a stop price.
    MoveStop,
    /// Moving the target needs a target price.
    MoveTake,
    /// Moving both needs at least one of them.
    MoveBoth,
    /// A new limit, breakout or market order needs all three prices.
    Entry,
    /// Anything else is not checked.
    Unchecked,
}

/// The rule for an order type and action.
pub open spec fn spec_order_kind(ot: Seq<char>, action: Seq<char>) -> OrderKind {
    if ot == "不下单"@ || ot == "持有"@ || ot == "平仓"@ || action == "HOLD"@ || action
        == "CLOSE_EARLY"@ || action == "WAIT"@ {
        OrderKind::NoPrices
    } else if ot == "修改止损"@ || action == "MOVE_STOP_LOSS"@ {
        OrderKind::MoveStop
    } else if ot == "修改止盈"@ || action == "MOVE_TAKE_PROFIT"@ || action
        == "TRAILING_TAKE_PROFIT"@ {
        OrderKind::MoveTake
    } else if ot == "修改止盈止损"@ || action == "MOVE_SL_TP"@ {
        OrderKind::MoveBoth
    } else if ot == "限价单"@ || ot == "突破单"@ || ot == "市价单"@ {
        OrderKind::Entry
    } else {
        OrderKind::Unchecked
    }
}

/// Classifies a decision by its order type and action.
pub fn order_kind(order_type: &str, action: &str) -> (k: OrderKind)
    ensures
        k == spec_order_kind(order_type@, action@),
{
    if str_eq(order_type, "不下单") || str_eq(order_type, "持有") || str_eq(order_type, "平仓")
        || str_eq(action, "HOLD") || str_eq(action, "CLOSE_EARLY") || str_eq(action, "WAIT") {
        OrderKind::NoPrices
    } else if str_eq(order_type, "修改止损") || str_eq(action, "MOVE_STOP_LOSS") {
        OrderKind::MoveStop
    } else if str_eq(order_type, "修改止盈") || str_eq(action, "MOVE_TAKE_PROFIT") || str_eq(
        action,
        "TRAILING_TAKE_PROFIT",
    ) {
        OrderKind::MoveTake
    } else if str_eq(order_type, "修改止盈止损") || str_eq(action, "MOVE_SL_TP") {
        OrderKind::MoveBoth
    } else if str_eq(order_type, "限价单") || str_eq(order_type, "突破单") || str_eq(
        order_type,
        "市价单",
    ) {
        OrderKind::Entry
    } else {
        OrderKind::Unchecked
    }
}

pub open spec fn msg_move_stop() -> Seq<char> {
    "修改止损必须提供有效的 new_stop_loss_price 或 stop_loss_price"@
}

pub open spec fn msg_move_take() -> Seq<char> {
    "修改止盈必须提供有效的 new_take_profit_price 或 take_profit_price"@
}

pub open spec fn msg_move_both() -> Seq<char> {
    "修改止盈止损至少需要提供有效的止损或止盈价格"@
}

pub open spec fn msg_long_order() -> Seq<char> {
    "做多要求: 止损价 < 入场价 < 止盈价"@
}

pub open spec fn msg_short_order() -> Seq<char> {
    "做空要求: 止盈价 < 入场价 < 止损价"@
}

pub open spec fn msg_need_prices() -> Seq<char> {
    "下单状态必须填写有效的 entry_price, stop_loss_price, take_profit_price"@
}

pub open spec fn msg_long_at_high() -> Seq<char> {
    "阶段一已诊断出高位受阻 (rejection_at_high) 或双顶 (double_top_candidate)，阶段二严禁在高位做多，必须保持观望或寻找做空机会"@
}

pub open spec fn msg_long_against_bears() -> Seq<char> {
    "市场处于强空头单边下跌趋势 (bears) 且无明确底部反转形态确认时，严禁左侧逆势盲目猜底做多"@
}

pub open spec fn msg_short_at_low() -> Seq<char> {
    "阶段一已诊断出低位受阻 (rejection_at_low) 或双底 (double_bottom_candidate)，阶段二严禁在低位做空，必须保持观望或寻找做多机会"@
}

pub open spec fn msg_short_against_bulls() -> Seq<char> {
    "市场处于强多头单边上涨趋势 (bulls) 且无明确顶部反转形态确认时，严禁左侧逆势盲目摸顶做空"@
}

/// `[m]` when `b` holds, else nothing.
pub open spec fn listed_if(b: bool, m: Seq<char>) -> Seq<Seq<char>> {
    if b {
        seq![m]
    } else {
        Seq::empty()
    }
}

/// Whether the diagnosis detected `p`.
pub open spec fn detected(s: DiagnosisFacts, p: Seq<char>) -> bool {
    views(s.patterns@).contains(p)
}

/// Objections to a long order from the diagnosis.
pub open spec fn long_conflicts(s: DiagnosisFacts) -> Seq<Seq<char>> {
    let at_high = detected(s, "double_top_candidate"@) || detected(s, "rejection_at_high"@);
    let bear_run = eq_ignore_ascii_case(s.dominant_force@, "bears"@) && (contains(
        s.cycle_position@,
        "overstretched_bearish"@,
    ) || contains(s.cycle_position@, "spike"@));
    let reversal = detected(s, "double_bottom"@) || detected(s, "double_bottom_candidate"@)
        || detected(s, "h2"@) || detected(s, "break_above_sma14"@) || detected(s, "exhaustion"@);
    listed_if(at_high, msg_long_at_high()) + listed_if(bear_run && !reversal, msg_long_against_bears())
}

/// Objections to a short order from the diagnosis.
pub open spec fn short_conflicts(s: DiagnosisFacts) -> Seq<Seq<char>> {
    let at_low = detected(s, "double_bottom_candidate"@) || detected(s, "rejection_at_low"@);
    let bull_run = eq_ignore_ascii_case(s.dominant_force@, "bulls"@) && (contains(
        s.cycle_position@,
        "overstretched_bullish"@,
    ) || contains(s.cycle_position@, "spike"@));
    let reversal = detected(s, "double_top"@) || detected(s, "double_top_candidate"@) || detected(
        s,
        "l2"@,
    ) || detected(s, "break_below_sma14"@) || detected(s, "exhaustion"@);
    listed_if(at_low, msg_short_at_low()) + listed_if(bull_run && !reversal, msg_short_against_bulls())
}

/// Objections from the diagnosis to an order in `direction`; a diagnosis
/// with program candidates raises none.
pub open spec fn spec_diagnosis_conflicts(
    direction: Seq<char>,
    stage1: Option<DiagnosisFacts>,
) -> Seq<Seq<char>> {
    match stage1 {
        Some(s) => if s.has_program_candidates {
            Seq::empty()
        } else if direction == "做多"@ {
            long_conflicts(s)
        } else if direction == "做空"@ {
            short_conflicts(s)
        } else {
            Seq::empty()
        },
        None => Seq::empty(),
    }
}

/// Findings on a new order: all three prices must be there, ordered for the
/// direction, with a stop that is not too close, and the order must not
/// contradict the diagnosis.
pub open spec fn entry_findings(
    d: DecisionFields,
    p: PriceFacts,
    stage1: Option<DiagnosisFacts>,
) -> Seq<Seq<char>> {
    if !p.entry_complete {
        seq![msg_need_prices()]
    } else {
        let order = if d.direction@ == "做多"@ && !p.long_ordered {
            seq![msg_long_order()]
        } else if d.direction@ == "做空"@ && !p.short_ordered {
            seq![msg_short_order()]
        } else {
            Seq::empty()
        };
        let narrow = match p.narrow_stop {
            Some(m) => seq![m@],
            None => Seq::empty(),
        };
        order + narrow + spec_diagnosis_conflicts(d.direction@, stage1)
    }
}

/// The coherence findings on a complete decision.
pub open spec fn stage2_invalid(
    d: DecisionFields,
    p: PriceFacts,
    stage1: Option<DiagnosisFacts>,
) -> Seq<Seq<char>> {
    match spec_order_kind(d.order_type@, d.action@) {
        OrderKind::NoPrices => Seq::empty(),
        OrderKind::MoveStop => listed_if(!p.stop_positive, msg_move_stop()),
        OrderKind::MoveTake => listed_if(!p.take_positive, msg_move_take()),
        OrderKind::MoveBoth => listed_if(!p.stop_positive && !p.take_positive, msg_move_both()),
        OrderKind::Entry => entry_findings(d, p, stage1),
        OrderKind::Unchecked => Seq::empty(),
    }
}

/// The required decision fields that are missing.
pub open spec fn stage2_missing(d: DecisionFields) -> Seq<Seq<char>> {
    if !d.present {
        seq!["decision"@]
    } else {
        listed_if(!d.has_order_type, "decision.order_type"@) + listed_if(
            !d.has_order_direction,
            "decision.order_direction"@,
        )
    }
}

/// The verdict on a stage-2 reply (`decision` is `None` when the reply is
/// not a JSON object).
pub open spec fn spec_stage2_check(
    decision: Option<DecisionFields>,
    p: PriceFacts,
    stage1: Option<DiagnosisFacts>,
    raw: Seq<char>,
) -> Result<(), ErrorView> {
    match decision {
        None => Err(
            error_of(
                "d"@,
                "stage2"@,
                raw,
                None,
                seq!["root object"@],
                Seq::empty(),
                "Stage 2 output must be a JSON object"@,
            ),
        ),
        Some(d) => if stage2_missing(d).len() > 0 {
            Err(
                error_of(
                    "b"@,
                    "stage2"@,
                    raw,
                    None,
                    stage2_missing(d),
                    Seq::empty(),
                    "Missing required fields in Stage 2"@,
                ),
            )
        } else if stage2_invalid(d, p, stage1).len() > 0 {
            Err(
                error_of(
                    "c"@,
                    "stage2"@,
                    raw,
                    None,
                    Seq::empty(),
                    stage2_invalid(d, p, stage1),
                    "Logical consistency / price coherence failed"@,
                ),
            )
        } else {
            Ok(())
        },
    }
}

/// Appends `m` to `v`.
fn note(v: &mut Vec<String>, m: &str)
    ensures
        views(final(v)@) == views(old(v)@).push(m@),
{
    v.push(owned(m));
    proof {
        assert(views(final(v)@) =~= views(old(v)@).push(m@));
    }
}

/// Whether the diagnosis detected `p`.
fn has_pattern(s: &DiagnosisFacts, p: &str) -> (r: bool)
    ensures
        r == detected(*s, p@),
{
    contains_str(&s.patterns, p)
}

/// The objections the diagnosis raises against an order in `direction`.
pub fn diagnosis_conflicts(direction: &str, stage1: Option<&DiagnosisFacts>) -> (r: Vec<String>)
    ensures
        views(r@) == spec_diagnosis_conflicts(
            direction@,
            match stage1 {
                Some(s) => Some(*s),
                None => None,
            },
        ),
{
    let mut out: Vec<String> = Vec::new();
    proof {
        assert(views(out@) =~= Seq::<Seq<char>>::empty());
    }
    let s = match stage1 {
        Some(s) => s,
        None => {
            return out;
        },
    };
    if s.has_program_candidates {
        return out;
    }
    if str_eq(direction, "做多") {
        let at_high = has_pattern(s, "double_top_candidate") || has_pattern(s, "rejection_at_high");
        if at_high {
            note(
                &mut out,
                "阶段一已诊断出高位受阻 (rejection_at_high) 或双顶 (double_top_candidate)，阶段二严禁在高位做多，必须保持观望或寻找做空机会",
            );
        }
        let bear_run = str_eq_ignore_ascii_case(s.dominant_force.as_str(), "bears") && (
        str_contains(s.cycle_position.as_str(), "overstretched_bearish") || str_contains(
            s.cycle_position.as_str(),
            "spike",
        ));
        let reversal = has_pattern(s, "double_bottom") || has_pattern(s, "double_bottom_candidate")
            || has_pattern(s, "h2") || has_pattern(s, "break_above_sma14") || has_pattern(
            s,
            "exhaustion",
        );
        if bear_run && !reversal {
            note(
                &mut out,
                "市场处于强空头单边下跌趋势 (bears) 且无明确底部反转形态确认时，严禁左侧逆势盲目猜底做多",
            );
        }
        proof {
            assert(views(out@) =~= long_conflicts(*s));
        }
    } else if str_eq(direction, "做空") {
        let at_low = has_pattern(s, "double_bottom_candidate") || has_pattern(s, "rejection_at_low");
        if at_low {
            note(
                &mut out,
                "阶段一已诊断出低位受阻 (rejection_at_low) 或双底 (double_bottom_candidate)，阶段二严禁在低位做空，必须保持观望或寻找做多机会",
            );
        }
        let bull_run = str_eq_ignore_ascii_case(s.dominant_force.as_str(), "bulls") && (
        str_contains(s.cycle_position.as_str(), "overstretched_bullish") || str_contains(
            s.cycle_position.as_str(),
            "spike",
        ));
        let reversal = has_pattern(s, "double_top") || has_pattern(s, "double_top_candidate")
            || has_pattern(s, "l2") || has_pattern(s, "break_below_sma14") || has_pattern(
            s,
            "exhaustion",
        );
        if bull_run && !reversal {
            note(
                &mut out,
                "市场处于强多头单边上涨趋势 (bulls) 且无明确顶部反转形态确认时，严禁左侧逆势盲目摸顶做空",
            );
        }
        proof {
            assert(views(out@) =~= short_conflicts(*s));
        }
    }
    out
}

/// The coherence findings on a decision whose required fields are present.
pub fn stage2_findings(
    d: &DecisionFields,
    p: &PriceFacts,
    stage1: Option<&DiagnosisFacts>,
) -> (r: Vec<String>)
    ensures
        views(r@) == stage2_invalid(
            *d,
            *p,
            match stage1 {
                Some(s) => Some(*s),
                None => None,
            },
        ),
{
    let mut out: Vec<String> = Vec::new();
    proof {
        assert(views(out@) =~= Seq::<Seq<char>>::empty());
    }
    match order_kind(d.order_type.as_str(), d.action.as_str()) {
        OrderKind::NoPrices => {},
        OrderKind::Unchecked => {},
        OrderKind::MoveStop => {
            if !p.stop_positive {
                note(&mut out, "修改止损必须提供有效的 new_stop_loss_price 或 stop_loss_price");
            }
        },
        OrderKind::MoveTake => {
            if !p.take_positive {
                note(
                    &mut out,
                    "修改止盈必须提供有效的 new_take_profit_price 或 take_profit_price",
                );
            }
        },
        OrderKind::MoveBoth => {
            if !p.stop_positive && !p.take_positive {
                note(&mut out, "修改止盈止损至少需要提供有效的止损或止盈价格");
            }
        },
        OrderKind::Entry => {
            if !p.entry_complete {
                note(
                    &mut out,
                    "下单状态必须填写有效的 entry_price, stop_loss_price, take_profit_price",
                );
            } else {
                let dir = d.direction.as_str();
                if str_eq(dir, "做多") && !p.long_ordered {
                    note(&mut out, "做多要求: 止损价 < 入场价 < 止盈价");
                } else if str_eq(dir, "做空") && !p.short_ordered {
                    note(&mut out, "做空要求: 止盈价 < 入场价 < 止损价");
                }
                match &p.narrow_stop {
                    Some(m) => {
                        note(&mut out, m.as_str());
                    },
                    None => {},
                }
                let conflicts = diagnosis_conflicts(dir, stage1);
                let ghost before = views(out@);
                let mut k: usize = 0;
                while k < conflicts.len()
                    invariant
                        0 <= k <= conflicts.len(),
                        views(out@) == before + views(conflicts@).take(k as int),
                    decreases conflicts.len() - k,
                {
                    note(&mut out, conflicts[k].as_str());
                    proof {
                        assert(views(conflicts@).take(k + 1) =~= views(conflicts@).take(
                            k as int,
                        ).push(conflicts@[k as int]@));
                    }
                    k += 1;
                }
                proof {
                    assert(views(conflicts@).take(conflicts.len() as int) =~= views(conflicts@));
                }
            }
        },
    }
    proof {
        assert(views(out@) =~= stage2_invalid(
            *d,
            *p,
            match stage1 {
                Some(s) => Some(*s),
                None => None,
            },
        ));
    }
    out
}

/// Validates a stage-2 decision against its required fields, its prices and
/// the stage-1 diagnosis. `decision` is `None` when the reply is not a JSON
/// object.
pub fn validate_stage2_json_with_stage1(
    decision: Option<&DecisionFields>,
    prices: &PriceFacts,
    stage1: Option<&DiagnosisFacts>,
    raw_text: &str,
) -> (r: Result<(), ValidationError>)
    ensures
        match r {
            Ok(()) => spec_stage2_check(
                match decision {
                    Some(d) => Some(*d),
                    None => None,
                },
                *prices,
                match stage1 {
                    Some(s) => Some(*s),
                    None => None,
                },
                raw_text@,
            ) == Ok::<(), ErrorView>(()),
            Err(e) => spec_stage2_check(
                match decision {
                    Some(d) => Some(*d),
                    None => None,
                },
                *prices,
                match stage1 {
                    Some(s) => Some(*s),
                    None => None,
                },
                raw_text@,
            ) == Err::<(), ErrorView>(e@),
        },
{
    proof {
        assert(views(Seq::<String>::empty()) =~= Seq::<Seq<char>>::empty());
    }
    let d = match decision {
        Some(d) => d,
        None => {
            let mut root = Vec::new();
            root.push(owned("root object"));
            proof {
                assert(views(root@) =~= seq!["root object"@]);
            }
            return Err(
                make_error(
                    "d",
                    "stage2",
                    raw_text,
                    None,
                    root,
                    Vec::new(),
                    "Stage 2 output must be a JSON object",
                ),
            );
        },
    };
    let mut missing: Vec<String> = Vec::new();
    if !d.present {
        note(&mut missing, "decision");
    } else {
        if !d.has_order_type {
            note(&mut missing, "decision.order_type");
        }
        if !d.has_order_direction {
            note(&mut missing, "decision.order_direction");
        }
    }
    proof {
        assert(views(missing@) =~= stage2_missing(*d));
    }
    if missing.len() > 0 {
        return Err(
            make_error(
                "b",
                "stage2",
                raw_text,
                None,
                missing,
                Vec::new(),
                "Missing required fields in Stage 2",
            ),
        );
    }
    let invalid = stage2_findings(d, prices, stage1);
    if invalid.len() > 0 {
        return Err(
            make_error(
                "c",
                "stage2",
                raw_text,
                None,
                Vec::new(),
                invalid,
                "Logical consistency / price coherence failed",
            ),
        );
    }
    Ok(())
}

/// Validates a stage-2 decision without a stage-1 diagnosis to check it
/// against.
pub fn validate_stage2_json(
    decision: Option<&DecisionFields>,
    prices: &PriceFacts,
    raw_text: &str,
) -> (r: Result<(), ValidationError>)
    ensures
        match r {
            Ok(()) => spec_stage2_check(
                match decision {
                    Some(d) => Some(*d),
                    None => None,
                },
                *prices,
                None,
                raw_text@,
            ) == Ok::<(), ErrorView>(()),
            Err(e) => spec_stage2_check(
                match decision {
                    Some(d) => Some(*d),
                    None => None,
                },
                *prices,
                None,
                raw_text@,
            ) == Err::<(), ErrorView>(e@),
        },
{
    validate_stage2_json_with_stage1(decision, prices, None, raw_text)
}

/// A complete new short order whose prices are not ordered
/// target < entry < stop is refused as incoherent (category `c`) with the
/// short-order finding, whatever the diagnosis says.
pub proof fn law_short_entry_must_be_ordered(
    d: DecisionFields,
    p: PriceFacts,
    stage1: Option<DiagnosisFacts>,
    raw: Seq<char>,
)
    requires
        d.present && d.has_order_type && d.has_order_direction,
        d.order_type@ == "限价单"@ || d.order_type@ == "突破单"@ || d.order_type@ == "市价单"@,
        d.action@ == "OPEN"@,
        d.direction@ == "做空"@,
        p.entry_complete,
        !p.short_ordered,
    ensures
        spec_stage2_check(Some(d), p, stage1, raw) matches Err(e) && e.category == "c"@
            && e.invalid_fields.contains("做空要求: 止盈价 < 入场价 < 止损价"@),
{
    lemma_entry_kind(d.order_type@, d.action@);
    reveal_strlit("做多");
    reveal_strlit("做空");
    assert("做多"@[1] != "做空"@[1]);
    let f = stage2_invalid(d, p, stage1);
    assert(f[0] == "做空要求: 止盈价 < 入场价 < 止损价"@);
}

/// A complete new long order whose prices are not ordered
/// stop < entry < target is refused as incoherent (category `c`) with the
/// long-order finding, whatever the diagnosis says.
pub proof fn law_long_entry_must_be_ordered(
    d: DecisionFields,
    p: PriceFacts,
    stage1: Option<DiagnosisFacts>,
    raw: Seq<char>,
)
    requires
        d.present && d.has_order_type && d.has_order_direction,
        d.order_type@ == "限价单"@ || d.order_type@ == "突破单"@ || d.order_type@ == "市价单"@,
        d.action@ == "OPEN"@,
        d.direction@ == "做多"@,
        p.entry_complete,
        !p.long_ordered,
    ensures
        spec_stage2_check(Some(d), p, stage1, raw) matches Err(e) && e.category == "c"@
            && e.invalid_fields.contains("做多要求: 止损价 < 入场价 < 止盈价"@),
{
    lemma_entry_kind(d.order_type@, d.action@);
    let f = stage2_invalid(d, p, stage1);
    assert(f[0] == "做多要求: 止损价 < 入场价 < 止盈价"@);
}

/// A limit, breakout or market order with the `OPEN` action is a new entry.
proof fn lemma_entry_kind(ot: Seq<char>, action: Seq<char>)
    requires
        ot == "限价单"@ || ot == "突破单"@ || ot == "市价单"@,
        action == "OPEN"@,
    ensures
        spec_order_kind(ot, action) == OrderKind::Entry,
{
    reveal_strlit("限价单");
    reveal_strlit("突破单");
    reveal_strlit("市价单");
    reveal_strlit("不下单");
    reveal_strlit("持有");
    reveal_strlit("平仓");
    reveal_strlit("修改止损");
    reveal_strlit("修改止盈");
    reveal_strlit("修改止盈止损");
    reveal_strlit("OPEN");
    reveal_strlit("HOLD");
    reveal_strlit("CLOSE_EARLY");
    reveal_strlit("WAIT");
    reveal_strlit("MOVE_STOP_LOSS");
    reveal_strlit("MOVE_TAKE_PROFIT");
    reveal_strlit("TRAILING_TAKE_PROFIT");
    reveal_strlit("MOVE_SL_TP");
    assert("OPEN"@[0] == 'O');
    assert(ot[0] == '限' || ot[0] == '突' || ot[0] == '市');
}

} // verus!
