//! Decision stance: how aggressively the strategist may act, always inside
//! the same structural, cost and risk gates.
use vstd::prelude::*;
use crate::text::{concat3, lemma_plain_key_is_fixed, plain_key, str_eq, trim, trim_lower, unicode_lowercase};

verus! {

/// The canonical stance named by free-form user input; unknown input is
/// `balanced`.
pub open spec fn stance_of(value: Seq<char>) -> Seq<char> {
    let key = unicode_lowercase(trim(value));
    if key == "conservative"@ || key == "保守"@ {
        "conservative"@
    } else if key == "balanced"@ || key == "均衡"@ {
        "balanced"@
    } else if key == "aggressive"@ || key == "激进"@ {
        "aggressive"@
    } else if key == "extreme_aggressive"@ || key == "extreme"@ || key == "极度激进"@ {
        "extreme_aggressive"@
    } else {
        "balanced"@
    }
}

/// The Chinese label of the canonical stance named by `value`.
pub open spec fn stance_label_of(value: Seq<char>) -> Seq<char> {
    let s = stance_of(value);
    if s == "conservative"@ {
        "保守"@
    } else if s == "balanced"@ {
        "均衡"@
    } else if s == "aggressive"@ {
        "激进"@
    } else if s == "extreme_aggressive"@ {
        "极度激进"@
    } else {
        "均衡"@
    }
}

/// The guidance sentence text placed before the stance label.
pub open spec fn guidance_head() -> Seq<char> {
    "决策风格："@
}

/// The guidance sentence text placed after the stance label.
pub open spec fn guidance_tail() -> Seq<char> {
    "。所有风格必须满足相同的结构确认、成本和风险门槛；不得强制下单，不得把主观信心度当作胜率，不得调整止损制造盈亏比。"@
}

/// Maps a stance name (English or Chinese, any case, surrounding whitespace
/// ignored) to one of `conservative`, `balanced`, `aggressive`,
/// `extreme_aggressive`; anything else is `balanced`.
pub fn normalize_stance(value: &str) -> (r: &'static str)
    ensures
        r@ == stance_of(value@),
{
    let key = trim_lower(value);
    let k = key.as_str();
    if str_eq(k, "conservative") || str_eq(k, "保守") {
        "conservative"
    } else if str_eq(k, "balanced") || str_eq(k, "均衡") {
        "balanced"
    } else if str_eq(k, "aggressive") || str_eq(k, "激进") {
        "aggressive"
    } else if str_eq(k, "extreme_aggressive") || str_eq(k, "extreme") || str_eq(k, "极度激进") {
        "extreme_aggressive"
    } else {
        "balanced"
    }
}

/// The Chinese label of the stance `stance` normalises to.
pub fn stance_label_zh(stance: &str) -> (r: &'static str)
    ensures
        r@ == stance_label_of(stance@),
{
    let s = normalize_stance(stance);
    if str_eq(s, "conservative") {
        "保守"
    } else if str_eq(s, "balanced") {
        "均衡"
    } else if str_eq(s, "aggressive") {
        "激进"
    } else if str_eq(s, "extreme_aggressive") {
        "极度激进"
    } else {
        "均衡"
    }
}

/// The stance sentence injected into the stage-two prompt.
pub fn build_decision_stance_guidance(stance: &str) -> (r: String)
    ensures
        r@ == guidance_head() + stance_label_of(stance@) + guidance_tail(),
{
    concat3(
        "决策风格：",
        stance_label_zh(stance),
        "。所有风格必须满足相同的结构确认、成本和风险门槛；不得强制下单，不得把主观信心度当作胜率，不得调整止损制造盈亏比。",
    )
}

} // verus!

verus! {

/// The four canonical stances are plain keys.
proof fn lemma_stances_are_plain()
    ensures
        plain_key("conservative"@),
        plain_key("balanced"@),
        plain_key("aggressive"@),
        plain_key("extreme_aggressive"@),
{
    reveal_strlit("conservative");
    reveal_strlit("balanced");
    reveal_strlit("aggressive");
    reveal_strlit("extreme_aggressive");
    reveal_with_fuel(plain_key, 19);
}

/// A stance names one of the four canonical stances; naming a canonical
/// stance again gives it back, and its label is the label of what it was
/// named from.
pub proof fn law_stance_is_canonical_and_stable(value: Seq<char>)
    ensures
        stance_of(value) == "conservative"@ || stance_of(value) == "balanced"@ || stance_of(value) == "aggressive"@
            || stance_of(value) == "extreme_aggressive"@,
        stance_of(stance_of(value)) == stance_of(value),
        stance_label_of(stance_of(value)) == stance_label_of(value),
{
    lemma_stances_are_plain();
    lemma_plain_key_is_fixed("conservative"@);
    lemma_plain_key_is_fixed("balanced"@);
    lemma_plain_key_is_fixed("aggressive"@);
    lemma_plain_key_is_fixed("extreme_aggressive"@);
    reveal_strlit("conservative");
    reveal_strlit("balanced");
    reveal_strlit("aggressive");
    reveal_strlit("extreme_aggressive");
    reveal_strlit("extreme");
    reveal_strlit("保守");
    reveal_strlit("均衡");
    reveal_strlit("激进");
    reveal_strlit("极度激进");
    assert("balanced"@ != "conservative"@ && "balanced"@ != "保守"@);
    assert("aggressive"@ != "conservative"@ && "aggressive"@ != "保守"@ && "aggressive"@ != "balanced"@ && "aggressive"@ != "均衡"@);
    assert("extreme_aggressive"@ != "conservative"@ && "extreme_aggressive"@ != "保守"@ && "extreme_aggressive"@ != "balanced"@
        && "extreme_aggressive"@ != "均衡"@ && "extreme_aggressive"@ != "aggressive"@ && "extreme_aggressive"@ != "激进"@);
}

} // verus!
