//! Reading venue positions and deciding how a held position is managed.
//!
//! The venue's rows are parsed outside the library, which hands in the
//! fields these rules read.
use vstd::prelude::*;
use crate::execution::{dash_count, spec_is_derivative, BROKER_TAG, PA_CLIENT_ORDER_PREFIX};
use crate::text::{chars_of, ends_with, starts_with, str_ends_with, str_eq, str_starts_with};

verus! {

broadcast use vstd::string::group_string_axioms;

// ---------------------------------------------------------------------------
// Position side.
// ---------------------------------------------------------------------------

/// The side of a position row: its `posSide` (`net` when absent), and for a
/// net position the sign of its size. A row without a valid size, or with an
/// unknown side, is refused.
pub open spec fn spec_position_side(pos_side: Option<Seq<char>>, size_negative: Option<bool>) -> Result<Seq<char>, Seq<char>> {
    match size_negative {
        None => Err("持仓数量无效，拒绝推断仓位"@),
        Some(negative) => {
            let s = match pos_side {
                Some(s) => s,
                None => "net"@,
            };
            if s == "long"@ {
                Ok("long"@)
            } else if s == "short"@ {
                Ok("short"@)
            } else if s == "net"@ || s.len() == 0 {
                if negative {
                    Ok("short"@)
                } else {
                    Ok("long"@)
                }
            } else {
                Err("未知的持仓方向"@)
            }
        },
    }
}

/// The text of an optional string.
pub open spec fn text_of(o: Option<&str>) -> Option<Seq<char>> {
    match o {
        Some(s) => Some(s@),
        None => None,
    }
}

/// The side of a position, from the row's `posSide` (when it is a string)
/// and whether its size is negative (`None` when the size is missing or not
/// a finite number).
pub fn position_side(pos_side: Option<&str>, size_negative: Option<bool>) -> (r: Result<&'static str, String>)
    ensures
        match r {
            Ok(s) => spec_position_side(text_of(pos_side), size_negative) == Ok::<Seq<char>, Seq<char>>(s@),
            Err(e) => spec_position_side(text_of(pos_side), size_negative) == Err::<Seq<char>, Seq<char>>(e@),
        },
{
    let negative = match size_negative {
        None => {
            return Err(String::from_str("持仓数量无效，拒绝推断仓位"));
        },
        Some(n) => n,
    };
    let s = match pos_side {
        Some(s) => s,
        None => "net",
    };
    proof {
        reveal_strlit("net");
    }
    if str_eq(s, "long") {
        Ok("long")
    } else if str_eq(s, "short") {
        Ok("short")
    } else if str_eq(s, "net") || s.is_empty() {
        if negative {
            Ok("short")
        } else {
            Ok("long")
        }
    } else {
        Err(String::from_str("未知的持仓方向"))
    }
}

// ---------------------------------------------------------------------------
// Orders this strategy placed.
// ---------------------------------------------------------------------------

/// The identifying fields of a venue order row.
#[derive(Debug)]
pub struct OrderTags {
    pub tag: Option<String>,
    pub cl_ord_id: Option<String>,
    pub algo_cl_ord_id: Option<String>,
    pub attach_algo_cl_ord_id: Option<String>,
}

/// Whether a client id is one this strategy assigns.
pub open spec fn ours(id: Option<String>) -> bool {
    id matches Some(s) && starts_with(s@, PA_CLIENT_ORDER_PREFIX@)
}

/// An order is this strategy's when it carries the broker tag or any of its
/// client ids starts with the strategy's prefix.
pub open spec fn spec_owned_order(t: OrderTags) -> bool {
    (t.tag matches Some(g) && g@ == BROKER_TAG@) || ours(t.cl_ord_id) || ours(t.algo_cl_ord_id) || ours(
        t.attach_algo_cl_ord_id,
    )
}

fn is_ours(id: &Option<String>) -> (r: bool)
    ensures
        r == ours(*id),
{
    match id {
        Some(s) => str_starts_with(s.as_str(), PA_CLIENT_ORDER_PREFIX),
        None => false,
    }
}

/// Whether the order was placed by this strategy.
pub fn owned_order(tags: &OrderTags) -> (r: bool)
    ensures
        r == spec_owned_order(*tags),
{
    let tagged = match &tags.tag {
        Some(g) => str_eq(g.as_str(), BROKER_TAG),
        None => false,
    };
    tagged || is_ours(&tags.cl_ord_id) || is_ours(&tags.algo_cl_ord_id) || is_ours(&tags.attach_algo_cl_ord_id)
}

/// A pending stop/target order as the venue lists it.
#[derive(Debug)]
pub struct ProtectionRow {
    pub tags: OrderTags,
    pub inst_id: Option<String>,
    pub side: Option<String>,
    pub pos_side: Option<String>,
    pub td_mode: Option<String>,
}

/// The order side that closes a position of the given side.
pub open spec fn closing_side(pos_side: Seq<char>) -> Seq<char> {
    if pos_side == "long"@ {
        "sell"@
    } else {
        "buy"@
    }
}

/// Whether a pending order protects the held position: it is this
/// strategy's, on the same instrument, on the closing side, on the same
/// position side in long/short mode, and in the same margin mode when it
/// states one.
pub open spec fn spec_protection_matches(
    row: ProtectionRow,
    symbol: Seq<char>,
    pos_side: Seq<char>,
    mgn_mode: Seq<char>,
    mode: Seq<char>,
) -> bool {
    &&& spec_owned_order(row.tags)
    &&& row.inst_id matches Some(i) && i@ == symbol
    &&& row.side matches Some(s) && s@ == closing_side(pos_side)
    &&& mode != "long_short"@ || (row.pos_side matches Some(p) && p@ == pos_side)
    &&& row.td_mode matches Some(t) ==> t@ == mgn_mode
}

fn is_text(v: &Option<String>, s: &str) -> (r: bool)
    ensures
        r == (v matches Some(x) && x@ == s@),
{
    match v {
        Some(x) => str_eq(x.as_str(), s),
        None => false,
    }
}

/// Whether the pending order protects the position held on `symbol`.
pub fn protection_matches(row: &ProtectionRow, symbol: &str, pos_side: &str, mgn_mode: &str, mode: &str) -> (r: bool)
    ensures
        r == spec_protection_matches(*row, symbol@, pos_side@, mgn_mode@, mode@),
{
    let closing = if str_eq(pos_side, "long") {
        "sell"
    } else {
        "buy"
    };
    let mode_ok = !str_eq(mode, "long_short") || is_text(&row.pos_side, pos_side);
    let margin_ok = match &row.td_mode {
        Some(t) => str_eq(t.as_str(), mgn_mode),
        None => true,
    };
    owned_order(&row.tags) && is_text(&row.inst_id, symbol) && is_text(&row.side, closing) && mode_ok && margin_ok
}

/// How many entries are `true`.
pub open spec fn count_true(s: Seq<bool>) -> nat
    decreases s.len(),
{
    if s.len() == 0 {
        0
    } else {
        count_true(s.drop_last()) + if s.last() {
            1nat
        } else {
            0nat
        }
    }
}

/// The protection order to amend: the only matching one. With none, or
/// with several, there is nothing to amend, since guessing could move the
/// wrong order.
pub fn unique_protection(matches: &Vec<bool>) -> (r: Option<usize>)
    ensures
        match r {
            Some(i) => count_true(matches@) == 1 && i < matches.len() && matches@[i as int],
            None => count_true(matches@) != 1,
        },
{
    let mut found: Option<usize> = None;
    let mut count: usize = 0;
    let mut i: usize = 0;
    while i < matches.len()
        invariant
            0 <= i <= matches.len(),
            count == count_true(matches@.take(i as int)),
            count <= i,
            count == 0 <==> found is None,
            found matches Some(k) ==> k < i && matches@[k as int],
        decreases matches.len() - i,
    {
        proof {
            assert(matches@.take(i + 1).drop_last() =~= matches@.take(i as int));
        }
        if matches[i] {
            if count == 0 {
                found = Some(i);
            }
            count += 1;
        }
        i += 1;
    }
    proof {
        assert(matches@.take(matches.len() as int) =~= matches@);
    }
    if count == 1 {
        found
    } else {
        None
    }
}

// ---------------------------------------------------------------------------
// Managing a held position.
// ---------------------------------------------------------------------------

/// What a management decision does to the held position.
#[derive(Debug, Clone, Copy, PartialEq, Eq, Structural)]
pub enum ManagementPlan {
    /// Close the position at market.
    Close,
    /// Amend the protection order's stop and/or target.
    Amend { change_sl: bool, change_tp: bool },
}

/// How a management decision is carried out, from its action and its
/// order type.
pub open spec fn spec_management_plan(action: Seq<char>, order_type: Seq<char>) -> ManagementPlan {
    if action == "CLOSE_EARLY"@ || order_type == "平仓"@ {
        ManagementPlan::Close
    } else {
        let combined = action == "MOVE_SL_TP"@ || order_type == "修改止盈止损"@;
        ManagementPlan::Amend {
            change_sl: combined || action == "MOVE_STOP_LOSS"@ || order_type == "修改止损"@,
            change_tp: combined || action == "MOVE_TAKE_PROFIT"@ || action == "TRAILING_TAKE_PROFIT"@
                || order_type == "修改止盈"@,
        }
    }
}

/// How a management decision is carried out.
pub fn management_plan(action: &str, order_type: &str) -> (r: ManagementPlan)
    ensures
        r == spec_management_plan(action@, order_type@),
{
    if str_eq(action, "CLOSE_EARLY") || str_eq(order_type, "平仓") {
        return ManagementPlan::Close;
    }
    let combined = str_eq(action, "MOVE_SL_TP") || str_eq(order_type, "修改止盈止损");
    let change_sl = combined || str_eq(action, "MOVE_STOP_LOSS") || str_eq(order_type, "修改止损");
    let change_tp = combined || str_eq(action, "MOVE_TAKE_PROFIT") || str_eq(action, "TRAILING_TAKE_PROFIT")
        || str_eq(order_type, "修改止盈");
    ManagementPlan::Amend { change_sl, change_tp }
}

/// The instrument type of a symbol: a swap, a future (four or more
/// dash-separated parts), or spot.
pub open spec fn spec_inst_type(symbol: Seq<char>) -> Seq<char> {
    if ends_with(symbol, "-SWAP"@) {
        "SWAP"@
    } else if dash_count(symbol) >= 3 {
        "FUTURES"@
    } else {
        "SPOT"@
    }
}

/// The instrument type the venue lists a symbol under.
pub fn inst_type(symbol: &str) -> (r: &'static str)
    ensures
        r@ == spec_inst_type(symbol@),
{
    if str_ends_with(symbol, "-SWAP") {
        return "SWAP";
    }
    let v = chars_of(symbol);
    let mut count: usize = 0;
    let mut i: usize = 0;
    while i < v.len()
        invariant
            0 <= i <= v.len(),
            count == dash_count(v@.take(i as int)),
            count <= i,
        decreases v.len() - i,
    {
        proof {
            assert(v@.take(i + 1).drop_last() =~= v@.take(i as int));
        }
        if v[i] == '-' {
            count += 1;
        }
        i += 1;
    }
    proof {
        assert(v@.take(v.len() as int) =~= v@);
    }
    if count >= 3 {
        "FUTURES"
    } else {
        "SPOT"
    }
}

/// A symbol listed as a swap or a future is exactly a derivative.
pub proof fn law_derivatives_are_swaps_or_futures(symbol: Seq<char>)
    ensures
        spec_is_derivative(symbol) <==> spec_inst_type(symbol) != "SPOT"@,
{
    reveal_strlit("SPOT");
    reveal_strlit("SWAP");
    reveal_strlit("FUTURES");
    assert("SWAP"@[1] != "SPOT"@[1]);
    assert("FUTURES"@.len() != "SPOT"@.len());
}

} // verus!
