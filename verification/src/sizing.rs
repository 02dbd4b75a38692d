//! Position sizing: how many units an order may carry so that the loss at
//! the stop stays within the risk budget and the margin within the margin
//! budget, rounded down to whole lots and never raised to the minimum.
//!
//! All values are exact decimals. The contracts write each of them with a
//! common number of places `S` (see `common_scale`), so that a value `v`
//! stands as the integer `v * 10^S`.
use vstd::prelude::*;
use crate::decimal::{
    add_checked, align, floor_div, floor_mod, in_i128, lemma_ten_pow_monotone, lemma_ten_pow_positive,
    mul_checked, sub_checked, ten_i128, ten_pow, Dec, MAX_SCALE,
};
use crate::text::str_eq;

verus! {

/// Why no order size is given.
#[derive(Debug, Clone, Copy, PartialEq, Eq)]
pub enum SizingError {
    /// A price, the lot size or the minimum size is not positive, or the
    /// entry equals the stop.
    InvalidSpec,
    /// Coin-margined (inverse) contracts are not sized.
    InverseContract,
    /// A derivative's contract value is missing or not positive.
    BadContractValue,
    /// The product does not settle in USDT.
    NotUsdtSettled,
    /// The account reported no balance.
    EmptyBalance,
    /// The account equity is missing or not positive.
    BadEquity,
    /// The account has no USDT balance row.
    NoUsdtBalance,
    /// The USDT available margin is not reported.
    UnknownMargin,
    /// The USDT available margin is not positive.
    NoMargin,
    /// The leverage is not positive.
    BadLeverage,
    /// The largest size within the budgets is below the minimum order size.
    BelowMinimum { min_sz: Dec, size: Dec },
    /// A value of the computation does not fit in 128 bits.
    OutOfRange,
}

impl SizingError {
    /// The message of an error whose text holds no number.
    pub fn fixed_message(&self) -> (r: Option<&'static str>)
        ensures
            r is None <==> (*self is BelowMinimum || *self is OutOfRange),
    {
        match self {
            SizingError::InvalidSpec => Some("无效的价格或下单规格"),
            SizingError::InverseContract => Some(
                "当前资金风控仅支持 USDT 线性合约及 USDT 现货，拒绝按 USDT 余额估算币本位保证金",
            ),
            SizingError::BadContractValue => Some("合约面值无效"),
            SizingError::NotUsdtSettled => Some("当前资金风控仅支持 USDT 结算产品"),
            SizingError::EmptyBalance => Some("账户余额为空，拒绝使用默认数量"),
            SizingError::BadEquity => Some("账户权益无效"),
            SizingError::NoUsdtBalance => Some("缺少 USDT 可用余额"),
            SizingError::UnknownMargin => Some("USDT 可用保证金未知"),
            SizingError::NoMargin => Some("USDT 可用保证金不足，拒绝新开仓"),
            SizingError::BadLeverage => Some("杠杆必须为正数"),
            SizingError::BelowMinimum { .. } => None,
            SizingError::OutOfRange => None,
        }
    }
}

/// What sizing reads: the instrument, the prices, the account and the
/// risk settings.
#[derive(Debug)]
pub struct SizingInputs {
    /// `SWAP`, `FUTURES` or `SPOT`.
    pub inst_type: String,
    /// Whether the contract type is `inverse`.
    pub inverse: bool,
    /// The contract value, when it could be read.
    pub ct_val: Option<Dec>,
    /// The settlement currency (`settleCcy`, or `quoteCcy` on spot), when
    /// stated.
    pub settlement: Option<String>,
    pub entry: Dec,
    pub stop: Dec,
    pub lot_sz: Dec,
    pub min_sz: Dec,
    /// Whether the account reported any balance.
    pub has_balance: bool,
    /// The account equity (`totalEq`), when it could be read.
    pub total_eq: Option<Dec>,
    /// Whether the account has a USDT balance row.
    pub has_usdt_row: bool,
    /// The USDT available margin (`availEq`, else `availBal`), when read.
    pub available: Option<Dec>,
    /// The configured leverage (spot trades at 1).
    pub leverage: Dec,
    /// The risk per trade in percent of equity, clamped to [0.1, 20].
    pub risk_percent: Dec,
    /// The margin per trade in percent of available margin, clamped to
    /// [1, 100].
    pub max_margin_percent: Dec,
    /// Whether the size is the largest the budgets allow.
    pub auto_sizing: bool,
    /// Otherwise the configured size, capped by the budgets.
    pub default_order_size: Dec,
}

pub open spec fn opt_wf(d: Option<Dec>) -> bool {
    match d {
        Some(x) => x.wf(),
        None => true,
    }
}

impl SizingInputs {
    pub open spec fn wf(&self) -> bool {
        &&& opt_wf(self.ct_val)
        &&& opt_wf(self.total_eq)
        &&& opt_wf(self.available)
        &&& self.entry.wf()
        &&& self.stop.wf()
        &&& self.lot_sz.wf()
        &&& self.min_sz.wf()
        &&& self.leverage.wf()
        &&& self.risk_percent.wf()
        &&& self.max_margin_percent.wf()
        &&& self.default_order_size.wf()
    }
}

/// Swaps and futures are sized by contract value and derivative fees.
pub open spec fn spec_derivative_type(t: Seq<char>) -> bool {
    t == "SWAP"@ || t == "FUTURES"@
}

/// Whether an instrument type is a derivative.
pub fn derivative_type(t: &str) -> (r: bool)
    ensures
        r == spec_derivative_type(t@),
{
    str_eq(t, "SWAP") || str_eq(t, "FUTURES")
}

pub open spec fn max_nat(a: nat, b: nat) -> nat {
    if a >= b {
        a
    } else {
        b
    }
}

pub open spec fn opt_scale(d: Option<Dec>) -> nat {
    match d {
        Some(x) => x.scale as nat,
        None => 0,
    }
}

/// The number of places every value is written with: the most any input
/// has, and at least one (the 0.1% risk floor needs it).
pub open spec fn common_scale(i: &SizingInputs) -> nat {
    max_nat(
        max_nat(
            max_nat(max_nat(1, i.entry.scale as nat), max_nat(i.stop.scale as nat, i.lot_sz.scale as nat)),
            max_nat(max_nat(i.min_sz.scale as nat, opt_scale(i.ct_val)), max_nat(opt_scale(i.total_eq), opt_scale(i.available))),
        ),
        max_nat(
            max_nat(i.leverage.scale as nat, i.risk_percent.scale as nat),
            max_nat(i.max_margin_percent.scale as nat, i.default_order_size.scale as nat),
        ),
    )
}

pub open spec fn opt_at(d: Option<Dec>, s: nat) -> int {
    match d {
        Some(x) => x.at(s),
        None => 0,
    }
}

/// Every input written with the common number of places fits in 128 bits.
pub open spec fn aligned_fit(i: &SizingInputs) -> bool {
    let s = common_scale(i);
    &&& in_i128(i.entry.at(s))
    &&& in_i128(i.stop.at(s))
    &&& in_i128(i.lot_sz.at(s))
    &&& in_i128(i.min_sz.at(s))
    &&& in_i128(opt_at(i.ct_val, s))
    &&& in_i128(opt_at(i.total_eq, s))
    &&& in_i128(opt_at(i.available, s))
    &&& in_i128(i.leverage.at(s))
    &&& in_i128(i.risk_percent.at(s))
    &&& in_i128(i.max_margin_percent.at(s))
    &&& in_i128(i.default_order_size.at(s))
}

/// The refusal, if any, that comes before any arithmetic, in the order the
/// checks are made.
pub open spec fn spec_precheck(i: &SizingInputs) -> Option<SizingError> {
    let s = common_scale(i);
    let e = i.entry.at(s);
    let st = i.stop.at(s);
    let deriv = spec_derivative_type(i.inst_type@);
    if !(e > 0 && st > 0 && e != st && i.lot_sz.at(s) > 0 && i.min_sz.at(s) > 0) {
        Some(SizingError::InvalidSpec)
    } else if i.inverse {
        Some(SizingError::InverseContract)
    } else if deriv && !(i.ct_val matches Some(c) && c.at(s) > 0) {
        Some(SizingError::BadContractValue)
    } else if !(i.settlement matches Some(c) ==> c@ == "USDT"@) {
        Some(SizingError::NotUsdtSettled)
    } else if !i.has_balance {
        Some(SizingError::EmptyBalance)
    } else if !(i.total_eq matches Some(t) && t.at(s) > 0) {
        Some(SizingError::BadEquity)
    } else if !i.has_usdt_row {
        Some(SizingError::NoUsdtBalance)
    } else if i.available is None {
        Some(SizingError::UnknownMargin)
    } else if opt_at(i.available, s) <= 0 {
        Some(SizingError::NoMargin)
    } else if i.inst_type@ != "SPOT"@ && i.leverage.at(s) <= 0 {
        Some(SizingError::BadLeverage)
    } else {
        None
    }
}

/// The integers of the computation, each a value times a power of ten.
pub struct SizingTerms {
    /// The common number of places.
    pub s: nat,
    pub e: int,
    pub st: int,
    pub l: int,
    pub mn: int,
    /// The contract value (1 on spot).
    pub c: int,
    pub t: int,
    pub a: int,
    /// The leverage (1 on spot).
    pub lev: int,
    /// The clamped risk percent.
    pub rp: int,
    /// The clamped margin percent.
    pub mp: int,
    pub d: int,
    /// Entry plus the higher of entry and stop.
    pub em: int,
    /// The fee rate in units of 0.0001: 7 on derivatives, 12 on spot.
    pub fr: int,
    /// The fees per unit, times `10^(2S+4)`.
    pub fee: int,
    /// The loss per unit at the stop plus fees, times `10^(2S+4)`.
    pub rpu: int,
    /// The margin per unit plus fees, times `10^(2S+4) * lev`.
    pub mpu: int,
    /// The risk budget over the risk per unit, times `rpu * l`.
    pub nr: int,
    /// The margin budget over the margin per unit, times `mpu * l`.
    pub nm: int,
    /// The largest whole number of lots within both budgets and, without
    /// automatic sizing, within the configured size.
    pub k: int,
}

pub open spec fn clamp(x: int, lo: int, hi: int) -> int {
    if x < lo {
        lo
    } else if x > hi {
        hi
    } else {
        x
    }
}

/// Entry plus the higher of entry and stop.
pub open spec fn spec_em(e: int, st: int) -> int {
    e + (if st > e {
        st
    } else {
        e
    })
}

/// The distance from entry to stop.
pub open spec fn spec_dist(e: int, st: int) -> int {
    if e > st {
        e - st
    } else {
        st - e
    }
}

/// The fees per unit: contract value times entry-plus-higher-price times
/// the fee rate.
pub open spec fn spec_fee(c: int, e: int, st: int, fr: int) -> int {
    c * spec_em(e, st) * fr
}

/// The loss per unit at the stop plus fees.
pub open spec fn spec_rpu(c: int, e: int, st: int, fr: int) -> int {
    spec_dist(e, st) * c * 10000 + spec_fee(c, e, st, fr)
}

/// The margin per unit (notional over leverage) plus fees.
pub open spec fn spec_mpu(c: int, e: int, st: int, fr: int, lev: int, s: nat) -> int {
    c * e * ten_pow(s + 4) + spec_fee(c, e, st, fr) * lev
}

/// Every step of the per-unit amounts fits in 128 bits.
pub open spec fn per_unit_fit(c: int, e: int, st: int, fr: int, lev: int, s: nat) -> bool {
    &&& in_i128(spec_em(e, st))
    &&& in_i128(c * spec_em(e, st))
    &&& in_i128(spec_fee(c, e, st, fr))
    &&& in_i128(spec_dist(e, st) * c)
    &&& in_i128(spec_dist(e, st) * c * 10000)
    &&& in_i128(spec_rpu(c, e, st, fr))
    &&& in_i128(c * e)
    &&& in_i128(c * e * ten_pow(s + 4))
    &&& in_i128(spec_fee(c, e, st, fr) * lev)
    &&& in_i128(spec_mpu(c, e, st, fr, lev, s))
}

/// The risk budget's numerator: equity times risk percent, over 100,
/// written with `3S + 4` places once divided by the per-unit loss.
pub open spec fn spec_nr(t: int, rp: int, s: nat) -> int {
    t * rp * 100 * ten_pow(s)
}

/// The margin budget's numerator.
pub open spec fn spec_nm(a: int, mp: int, lev: int, s: nat) -> int {
    a * mp * lev * 100 * ten_pow(s)
}

/// Every step of the budgets fits in 128 bits.
pub open spec fn budget_fit(t: int, rp: int, a: int, mp: int, lev: int, s: nat) -> bool {
    &&& in_i128(t * rp)
    &&& in_i128(t * rp * 100)
    &&& in_i128(spec_nr(t, rp, s))
    &&& in_i128(a * mp)
    &&& in_i128(a * mp * lev)
    &&& in_i128(a * mp * lev * 100)
    &&& in_i128(spec_nm(a, mp, lev, s))
}

pub open spec fn sizing_terms(i: &SizingInputs) -> SizingTerms {
    let s = common_scale(i);
    let one = ten_pow(s);
    let deriv = spec_derivative_type(i.inst_type@);
    let e = i.entry.at(s);
    let st = i.stop.at(s);
    let l = i.lot_sz.at(s);
    let c = if deriv {
        opt_at(i.ct_val, s)
    } else {
        one
    };
    let lev = if i.inst_type@ == "SPOT"@ {
        one
    } else {
        i.leverage.at(s)
    };
    let t = opt_at(i.total_eq, s);
    let a = opt_at(i.available, s);
    let rp = clamp(i.risk_percent.at(s), one / 10, 20 * one);
    let mp = clamp(i.max_margin_percent.at(s), one, 100 * one);
    let fr = if deriv {
        7int
    } else {
        12int
    };
    let rpu = spec_rpu(c, e, st, fr);
    let mpu = spec_mpu(c, e, st, fr, lev, s);
    let nr = spec_nr(t, rp, s);
    let nm = spec_nm(a, mp, lev, s);
    let kr = nr / (rpu * l);
    let km = nm / (mpu * l);
    let kmax = if kr <= km {
        kr
    } else {
        km
    };
    let d = i.default_order_size.at(s);
    let k = if i.auto_sizing {
        kmax
    } else if d / l <= kmax {
        d / l
    } else {
        kmax
    };
    SizingTerms {
        s,
        e,
        st,
        l,
        mn: i.min_sz.at(s),
        c,
        t,
        a,
        lev,
        rp,
        mp,
        d,
        em: spec_em(e, st),
        fr,
        fee: spec_fee(c, e, st, fr),
        rpu,
        mpu,
        nr,
        nm,
        k,
    }
}

/// Every intermediate product and sum of the computation fits in 128 bits.
pub open spec fn terms_fit(i: &SizingInputs) -> bool {
    let x = sizing_terms(i);
    &&& per_unit_fit(x.c, x.e, x.st, x.fr, x.lev, x.s)
    &&& budget_fit(x.t, x.rp, x.a, x.mp, x.lev, x.s)
    &&& in_i128(x.rpu * x.l)
    &&& in_i128(x.mpu * x.l)
    &&& in_i128(x.k * x.l)
    &&& in_i128(x.k * i.lot_sz.mantissa)
}

/// The size as a decimal with the lot size's places: `k` lots.
pub open spec fn sized(i: &SizingInputs) -> Dec {
    Dec { mantissa: (sizing_terms(i).k * i.lot_sz.mantissa) as i128, scale: i.lot_sz.scale }
}

/// The order size, or why there is none.
pub open spec fn spec_order_size(i: &SizingInputs) -> Result<Dec, SizingError> {
    if !aligned_fit(i) {
        Err(SizingError::OutOfRange)
    } else if spec_precheck(i) is Some {
        Err(spec_precheck(i)->0)
    } else if !terms_fit(i) {
        Err(SizingError::OutOfRange)
    } else if sizing_terms(i).k * sizing_terms(i).l < sizing_terms(i).mn {
        Err(SizingError::BelowMinimum { min_sz: i.min_sz, size: sized(i) })
    } else {
        Ok(sized(i))
    }
}

/// What a granted size `n` satisfies: it is whole lots and at least the
/// minimum; the loss at the stop plus fees stays within
/// `equity * risk% / 100`; the margin plus fees within
/// `available * margin% / 100`; without automatic sizing it is at most the
/// configured size; and one more lot would break one of these bounds.
/// Each inequality is the rational one multiplied through by its positive
/// denominators.
pub open spec fn size_within_limits(i: &SizingInputs, n: Dec) -> bool {
    let x = sizing_terms(i);
    let q = n.at(x.s);
    &&& n.scale == i.lot_sz.scale
    &&& q >= x.mn
    &&& q % x.l == 0
    &&& q * x.rpu <= x.t * x.rp * 100 * ten_pow(x.s)
    &&& q * x.mpu <= x.a * x.mp * x.lev * 100 * ten_pow(x.s)
    &&& (!i.auto_sizing ==> q <= x.d)
    &&& ((q + x.l) * x.rpu > x.t * x.rp * 100 * ten_pow(x.s) || (q + x.l) * x.mpu > x.a * x.mp
        * x.lev * 100 * ten_pow(x.s) || (!i.auto_sizing && q + x.l > x.d))
}

pub proof fn lemma_floor_bounds(n: int, d: int)
    requires
        d > 0,
    ensures
        (n / d) * d <= n,
        (n / d + 1) * d > n,
{
    vstd::arithmetic::div_mod::lemma_fundamental_div_mod(n, d);
    assert((n / d) * d == d * (n / d)) by (nonlinear_arith);
    assert((n / d + 1) * d == (n / d) * d + d) by (nonlinear_arith);
}

pub proof fn lemma_scaled_le(k: int, kk: int, d: int)
    requires
        k <= kk,
        d > 0,
    ensures
        k * d <= kk * d,
{
    assert(k * d <= kk * d) by (nonlinear_arith)
        requires
            k <= kk,
            d > 0,
    ;
}

/// The positive per-unit amounts of a sizing that passed its checks.
pub proof fn lemma_per_unit_positive(i: &SizingInputs)
    requires
        i.wf(),
        spec_precheck(i) is None,
    ensures
        sizing_terms(i).l > 0,
        sizing_terms(i).rpu > 0,
        sizing_terms(i).mpu > 0,
        sizing_terms(i).t * sizing_terms(i).rp * 100 * ten_pow(sizing_terms(i).s) > 0,
        sizing_terms(i).a * sizing_terms(i).mp * sizing_terms(i).lev * 100 * ten_pow(sizing_terms(i).s) > 0,
{
    let x = sizing_terms(i);
    lemma_ten_pow_positive(x.s);
    lemma_ten_pow_positive(x.s + 4);
    assert(x.s >= 1);
    assert(ten_pow(x.s) == 10 * ten_pow((x.s - 1) as nat));
    lemma_ten_pow_positive((x.s - 1) as nat);
    assert(ten_pow(x.s) / 10 >= 1);
    assert(x.c > 0);
    assert(x.lev > 0);
    assert(x.em > 0);
    assert(x.rp > 0);
    assert(x.mp > 0);
    let dist = if x.e > x.st {
        x.e - x.st
    } else {
        x.st - x.e
    };
    assert(dist > 0);
    assert(x.fee >= 0) by (nonlinear_arith)
        requires
            x.fee == x.c * x.em * x.fr,
            x.c > 0,
            x.em > 0,
            x.fr > 0,
    ;
    assert(dist * x.c * 10000 > 0) by (nonlinear_arith)
        requires
            dist > 0,
            x.c > 0,
    ;
    assert(x.c * x.e * ten_pow(x.s + 4) > 0) by (nonlinear_arith)
        requires
            x.c > 0,
            x.e > 0,
            ten_pow(x.s + 4) > 0,
    ;
    assert(x.fee * x.lev >= 0) by (nonlinear_arith)
        requires
            x.fee >= 0,
            x.lev > 0,
    ;
    let one = ten_pow(x.s);
    assert(x.t * x.rp * 100 * one > 0) by (nonlinear_arith)
        requires
            x.t > 0,
            x.rp > 0,
            one > 0,
    ;
    assert(x.a * x.mp * x.lev * 100 * one > 0) by (nonlinear_arith)
        requires
            x.a > 0,
            x.mp > 0,
            x.lev > 0,
            one > 0,
    ;
}

/// A granted size satisfies the budgets, is whole lots, and is the largest
/// such size.
pub proof fn lemma_size_limits(i: &SizingInputs)
    requires
        i.wf(),
        aligned_fit(i),
        spec_precheck(i) is None,
        terms_fit(i),
        sizing_terms(i).k * sizing_terms(i).l >= sizing_terms(i).mn,
    ensures
        size_within_limits(i, sized(i)),
{
    let x = sizing_terms(i);
    lemma_per_unit_positive(i);
    let n = sized(i);
    let p = ten_pow((x.s - i.lot_sz.scale) as nat);
    let q = n.at(x.s);
    assert(q == x.k * x.l) by (nonlinear_arith)
        requires
            q == (x.k * i.lot_sz.mantissa) * p,
            x.l == i.lot_sz.mantissa * p,
    ;
    vstd::arithmetic::div_mod::lemma_mod_multiples_basic(x.k, x.l);
    let one = ten_pow(x.s);
    let dr = x.rpu * x.l;
    let dm = x.mpu * x.l;
    assert(dr > 0) by (nonlinear_arith)
        requires
            dr == x.rpu * x.l,
            x.rpu > 0,
            x.l > 0,
    ;
    assert(dm > 0) by (nonlinear_arith)
        requires
            dm == x.mpu * x.l,
            x.mpu > 0,
            x.l > 0,
    ;
    let kr = x.nr / dr;
    let km = x.nm / dm;
    lemma_floor_bounds(x.nr, dr);
    lemma_floor_bounds(x.nm, dm);
    lemma_floor_bounds(x.d, x.l);
    assert(x.k <= kr && x.k <= km);
    lemma_scaled_le(x.k, kr, dr);
    lemma_scaled_le(x.k, km, dm);
    assert(q * x.rpu == x.k * dr) by (nonlinear_arith)
        requires
            q == x.k * x.l,
            dr == x.rpu * x.l,
    ;
    assert(q * x.mpu == x.k * dm) by (nonlinear_arith)
        requires
            q == x.k * x.l,
            dm == x.mpu * x.l,
    ;
    assert((q + x.l) * x.rpu == (x.k + 1) * dr) by (nonlinear_arith)
        requires
            q == x.k * x.l,
            dr == x.rpu * x.l,
    ;
    assert((q + x.l) * x.mpu == (x.k + 1) * dm) by (nonlinear_arith)
        requires
            q == x.k * x.l,
            dm == x.mpu * x.l,
    ;
    assert(q + x.l == (x.k + 1) * x.l) by (nonlinear_arith)
        requires
            q == x.k * x.l,
    ;
    if !i.auto_sizing {
        lemma_scaled_le(x.k, x.d / x.l, x.l);
    }
}

fn scale_of(d: Option<Dec>) -> (r: u32)
    ensures
        r == opt_scale(d),
{
    match d {
        Some(x) => x.scale,
        None => 0,
    }
}

fn max_u32(a: u32, b: u32) -> (r: u32)
    ensures
        r == max_nat(a as nat, b as nat),
{
    if a >= b {
        a
    } else {
        b
    }
}

fn align_opt(d: Option<Dec>, s: u32) -> (r: Option<i128>)
    requires
        opt_wf(d),
        opt_scale(d) <= s <= 36,
    ensures
        match r {
            Some(v) => v == opt_at(d, s as nat),
            None => !in_i128(opt_at(d, s as nat)),
        },
{
    match d {
        Some(x) => align(x, s),
        None => Some(0),
    }
}

fn checked(r: Option<i128>, ok: &mut bool) -> (v: i128)
    ensures
        *final(ok) == (*old(ok) && r is Some),
        r matches Some(x) ==> v == x,
{
    match r {
        Some(x) => x,
        None => {
            *ok = false;
            0
        },
    }
}

/// The loss and margin per unit, or `None` when a step does not fit.
fn per_unit(c: i128, e: i128, st: i128, fr: i128, lev: i128, s: u32) -> (r: Option<(i128, i128)>)
    requires
        c > 0,
        e > 0,
        st > 0,
        s <= MAX_SCALE,
    ensures
        match r {
            Some((rpu, mpu)) => {
                &&& per_unit_fit(c as int, e as int, st as int, fr as int, lev as int, s as nat)
                &&& rpu == spec_rpu(c as int, e as int, st as int, fr as int)
                &&& mpu == spec_mpu(c as int, e as int, st as int, fr as int, lev as int, s as nat)
            },
            None => !per_unit_fit(c as int, e as int, st as int, fr as int, lev as int, s as nat),
        },
{
    let mut ok = true;
    let higher: i128 = if st > e { st } else { e };
    let em = checked(add_checked(e, higher), &mut ok);
    if !ok {
        return None;
    }
    let ce = checked(mul_checked(c, em), &mut ok);
    if !ok {
        return None;
    }
    let fee = checked(mul_checked(ce, fr), &mut ok);
    if !ok {
        return None;
    }
    let dist: i128 = if e > st { e - st } else { st - e };
    let dc = checked(mul_checked(dist, c), &mut ok);
    if !ok {
        return None;
    }
    let dc4 = checked(mul_checked(dc, 10000), &mut ok);
    if !ok {
        return None;
    }
    let rpu = checked(add_checked(dc4, fee), &mut ok);
    if !ok {
        return None;
    }
    let cev = checked(mul_checked(c, e), &mut ok);
    if !ok {
        return None;
    }
    let p4 = ten_i128(s + 4);
    let cep = checked(mul_checked(cev, p4), &mut ok);
    if !ok {
        return None;
    }
    let fl = checked(mul_checked(fee, lev), &mut ok);
    if !ok {
        return None;
    }
    let mpu = checked(add_checked(cep, fl), &mut ok);
    if !ok {
        return None;
    }
    Some((rpu, mpu))
}

/// The numerators of the two budgets, or `None` when a step does not fit.
fn budgets(t: i128, rp: i128, a: i128, mp: i128, lev: i128, one: i128, s: u32) -> (r: Option<(i128, i128)>)
    requires
        one == ten_pow(s as nat),
    ensures
        match r {
            Some((nr, nm)) => {
                &&& budget_fit(t as int, rp as int, a as int, mp as int, lev as int, s as nat)
                &&& nr == spec_nr(t as int, rp as int, s as nat)
                &&& nm == spec_nm(a as int, mp as int, lev as int, s as nat)
            },
            None => !budget_fit(t as int, rp as int, a as int, mp as int, lev as int, s as nat),
        },
{
    let mut ok = true;
    let trp = checked(mul_checked(t, rp), &mut ok);
    if !ok {
        return None;
    }
    let trp100 = checked(mul_checked(trp, 100), &mut ok);
    if !ok {
        return None;
    }
    let nr = checked(mul_checked(trp100, one), &mut ok);
    if !ok {
        return None;
    }
    let amp = checked(mul_checked(a, mp), &mut ok);
    if !ok {
        return None;
    }
    let ampl = checked(mul_checked(amp, lev), &mut ok);
    if !ok {
        return None;
    }
    let ampl100 = checked(mul_checked(ampl, 100), &mut ok);
    if !ok {
        return None;
    }
    let nm = checked(mul_checked(ampl100, one), &mut ok);
    if !ok {
        return None;
    }
    Some((nr, nm))
}

/// The inputs written with `s` places.
struct Aligned {
    e: i128,
    st: i128,
    l: i128,
    mn: i128,
    c: i128,
    t: i128,
    a: i128,
    lev: i128,
    rp: i128,
    mp: i128,
    d: i128,
}

fn aligned_values(i: &SizingInputs, s: u32) -> (r: Option<Aligned>)
    requires
        i.wf(),
        s == common_scale(i),
        s <= MAX_SCALE,
    ensures
        match r {
            Some(v) => {
                &&& aligned_fit(i)
                &&& v.e == i.entry.at(s as nat)
                &&& v.st == i.stop.at(s as nat)
                &&& v.l == i.lot_sz.at(s as nat)
                &&& v.mn == i.min_sz.at(s as nat)
                &&& v.c == opt_at(i.ct_val, s as nat)
                &&& v.t == opt_at(i.total_eq, s as nat)
                &&& v.a == opt_at(i.available, s as nat)
                &&& v.lev == i.leverage.at(s as nat)
                &&& v.rp == i.risk_percent.at(s as nat)
                &&& v.mp == i.max_margin_percent.at(s as nat)
                &&& v.d == i.default_order_size.at(s as nat)
            },
            None => !aligned_fit(i),
        },
{
    let mut ok = true;
    let e = checked(align(i.entry, s), &mut ok);
    let st = checked(align(i.stop, s), &mut ok);
    let l = checked(align(i.lot_sz, s), &mut ok);
    let mn = checked(align(i.min_sz, s), &mut ok);
    let c = checked(align_opt(i.ct_val, s), &mut ok);
    let t = checked(align_opt(i.total_eq, s), &mut ok);
    let a = checked(align_opt(i.available, s), &mut ok);
    let lev = checked(align(i.leverage, s), &mut ok);
    let rp = checked(align(i.risk_percent, s), &mut ok);
    let mp = checked(align(i.max_margin_percent, s), &mut ok);
    let d = checked(align(i.default_order_size, s), &mut ok);
    if ok {
        Some(Aligned { e, st, l, mn, c, t, a, lev, rp, mp, d })
    } else {
        None
    }
}

fn common_scale_of(i: &SizingInputs) -> (s: u32)
    requires
        i.wf(),
    ensures
        s == common_scale(i),
        1 <= s <= MAX_SCALE,
{
    max_u32(
        max_u32(
            max_u32(max_u32(1, i.entry.scale), max_u32(i.stop.scale, i.lot_sz.scale)),
            max_u32(
                max_u32(i.min_sz.scale, scale_of(i.ct_val)),
                max_u32(scale_of(i.total_eq), scale_of(i.available)),
            ),
        ),
        max_u32(
            max_u32(i.leverage.scale, i.risk_percent.scale),
            max_u32(i.max_margin_percent.scale, i.default_order_size.scale),
        ),
    )
}

fn precheck(i: &SizingInputs, v: &Aligned, s: u32) -> (r: Option<SizingError>)
    requires
        i.wf(),
        s == common_scale(i),
        v.e == i.entry.at(s as nat),
        v.st == i.stop.at(s as nat),
        v.l == i.lot_sz.at(s as nat),
        v.mn == i.min_sz.at(s as nat),
        v.c == opt_at(i.ct_val, s as nat),
        v.t == opt_at(i.total_eq, s as nat),
        v.a == opt_at(i.available, s as nat),
        v.lev == i.leverage.at(s as nat),
    ensures
        r == spec_precheck(i),
{
    if !(v.e > 0 && v.st > 0 && v.e != v.st && v.l > 0 && v.mn > 0) {
        return Some(SizingError::InvalidSpec);
    }
    if i.inverse {
        return Some(SizingError::InverseContract);
    }
    if derivative_type(i.inst_type.as_str()) && !(i.ct_val.is_some() && v.c > 0) {
        return Some(SizingError::BadContractValue);
    }
    match &i.settlement {
        Some(c) => {
            if !str_eq(c.as_str(), "USDT") {
                return Some(SizingError::NotUsdtSettled);
            }
        },
        None => {},
    }
    if !i.has_balance {
        return Some(SizingError::EmptyBalance);
    }
    if !(i.total_eq.is_some() && v.t > 0) {
        return Some(SizingError::BadEquity);
    }
    if !i.has_usdt_row {
        return Some(SizingError::NoUsdtBalance);
    }
    if i.available.is_none() {
        return Some(SizingError::UnknownMargin);
    }
    if v.a <= 0 {
        return Some(SizingError::NoMargin);
    }
    if !str_eq(i.inst_type.as_str(), "SPOT") && v.lev <= 0 {
        return Some(SizingError::BadLeverage);
    }
    None
}

/// The order size for the inputs: the largest whole number of lots whose
/// loss at the stop (plus fees) stays within the risk budget and whose
/// margin (plus fees) stays within the margin budget, capped by the
/// configured size without automatic sizing. A size below the minimum
/// order size is refused, never raised.
#[verifier::rlimit(50)]
pub fn order_size(i: &SizingInputs) -> (r: Result<Dec, SizingError>)
    requires
        i.wf(),
    ensures
        r == spec_order_size(i),
        r matches Ok(n) ==> size_within_limits(i, n),
{
    let ghost x = sizing_terms(i);
    let s = common_scale_of(i);
    let v = match aligned_values(i, s) {
        Some(v) => v,
        None => {
            return Err(SizingError::OutOfRange);
        },
    };
    match precheck(i, &v, s) {
        Some(err) => {
            return Err(err);
        },
        None => {},
    }
    proof {
        lemma_per_unit_positive(i);
        assert(ten_pow(28) == 10000000000000000000000000000int) by {
            reveal_with_fuel(ten_pow, 29);
        }
        lemma_ten_pow_monotone(s as nat, 28);
        lemma_ten_pow_positive(s as nat);
    }
    let deriv = derivative_type(i.inst_type.as_str());
    let spot = str_eq(i.inst_type.as_str(), "SPOT");
    let one = ten_i128(s);
    let c: i128 = if deriv { v.c } else { one };
    let lev: i128 = if spot { one } else { v.lev };
    let rp_lo = one / 10;
    let rp_hi = 20 * one;
    let rp: i128 = if v.rp < rp_lo { rp_lo } else if v.rp > rp_hi { rp_hi } else { v.rp };
    let mp_hi = 100 * one;
    let mp: i128 = if v.mp < one { one } else if v.mp > mp_hi { mp_hi } else { v.mp };
    let fr: i128 = if deriv { 7 } else { 12 };
    assert(c == x.c && lev == x.lev && rp == x.rp && mp == x.mp && fr == x.fr);
    let (rpu, mpu) = match per_unit(c, v.e, v.st, fr, lev, s) {
        Some(p) => p,
        None => {
            return Err(SizingError::OutOfRange);
        },
    };
    let (nr, nm) = match budgets(v.t, rp, v.a, mp, lev, one, s) {
        Some(p) => p,
        None => {
            return Err(SizingError::OutOfRange);
        },
    };
    let mut ok = true;
    let dr = checked(mul_checked(rpu, v.l), &mut ok);
    let dm = checked(mul_checked(mpu, v.l), &mut ok);
    if !ok {
        return Err(SizingError::OutOfRange);
    }
    proof {
        assert(dr > 0) by (nonlinear_arith)
            requires
                dr == rpu * v.l,
                rpu > 0,
                v.l > 0,
        ;
        assert(dm > 0) by (nonlinear_arith)
            requires
                dm == mpu * v.l,
                mpu > 0,
                v.l > 0,
        ;
    }
    let kr = nr / dr;
    let km = nm / dm;
    let kmax = if kr <= km { kr } else { km };
    let k = if i.auto_sizing {
        kmax
    } else {
        let dl = floor_div(v.d, v.l);
        if dl <= kmax { dl } else { kmax }
    };
    assert(k == x.k);
    let size_al = checked(mul_checked(k, v.l), &mut ok);
    let size_m = checked(mul_checked(k, i.lot_sz.mantissa), &mut ok);
    if !ok {
        return Err(SizingError::OutOfRange);
    }
    let size = Dec { mantissa: size_m, scale: i.lot_sz.scale };
    if size_al < v.mn {
        return Err(SizingError::BelowMinimum { min_sz: i.min_sz, size });
    }
    proof {
        lemma_size_limits(i);
    }
    Ok(size)
}

/// Why an order's prices are refused.
#[derive(Debug, Clone, Copy, PartialEq, Eq)]
pub enum PriceError {
    /// A price is not positive.
    NotPositive,
    /// A long order does not have stop < entry < target.
    LongOrder,
    /// A short order does not have target < entry < stop.
    ShortOrder,
    /// The direction is neither `做多` nor `做空`.
    BadDirection,
    /// The stop is closer to the entry than 0.30% of the entry (both
    /// written with the same places).
    TooTight { stop_dist: Dec, entry: Dec },
    /// The stop is closer to the entry than 0.8 ATR.
    BelowAtr { stop_dist: Dec, min_atr_dist: Dec },
    /// A value of the computation does not fit in 128 bits.
    OutOfRange,
}

impl PriceError {
    /// The message of an error whose text holds no number.
    pub fn fixed_message(&self) -> (r: Option<&'static str>)
        ensures
            r is None <==> (*self is TooTight || *self is BelowAtr || *self is OutOfRange),
    {
        match self {
            PriceError::NotPositive => Some("价格必须为正数"),
            PriceError::LongOrder => Some("做多价格关系异常：必须满足 止损价 < 入场价 < 止盈价"),
            PriceError::ShortOrder => Some("做空价格关系异常：必须满足 止盈价 < 入场价 < 止损价"),
            PriceError::BadDirection => Some("订单方向必须为 做多 或 做空"),
            _ => None,
        }
    }
}

/// The number of places the price checks write the prices with.
pub open spec fn price_scale(entry: Dec, stop: Dec, target: Dec, atr: Option<Dec>) -> nat {
    max_nat(max_nat(entry.scale as nat, stop.scale as nat), max_nat(target.scale as nat, opt_scale(atr)))
}

/// The verdict on an order's prices: all positive; ordered stop < entry <
/// target for a long and target < entry < stop for a short; the stop at
/// least 0.30% of the entry away from it; and, given a positive ATR, at
/// least 0.8 ATR away.
pub open spec fn spec_check_prices(entry: Dec, stop: Dec, target: Dec, direction: Seq<char>, atr: Option<Dec>) -> Result<(), PriceError> {
    let s = price_scale(entry, stop, target, atr);
    let e = entry.at(s);
    let st = stop.at(s);
    let t = target.at(s);
    let dist = spec_dist(e, st);
    if !(entry.mantissa > 0 && stop.mantissa > 0 && target.mantissa > 0) {
        Err(PriceError::NotPositive)
    } else if !(in_i128(e) && in_i128(st) && in_i128(t) && in_i128(opt_at(atr, s))) {
        Err(PriceError::OutOfRange)
    } else if direction == "做多"@ && !(st < e && e < t) {
        Err(PriceError::LongOrder)
    } else if direction == "做空"@ && !(t < e && e < st) {
        Err(PriceError::ShortOrder)
    } else if direction != "做多"@ && direction != "做空"@ {
        Err(PriceError::BadDirection)
    } else if !(in_i128(dist * 10000) && in_i128(30 * e)) {
        Err(PriceError::OutOfRange)
    } else if dist * 10000 < 30 * e {
        Err(
            PriceError::TooTight {
                stop_dist: Dec { mantissa: dist as i128, scale: s as u32 },
                entry: Dec { mantissa: e as i128, scale: s as u32 },
            },
        )
    } else if atr matches Some(a) && a.mantissa > 0 {
        let aa = opt_at(atr, s);
        if !(in_i128(dist * 10) && in_i128(aa * 8) && in_i128(atr->0.mantissa * 8)) {
            Err(PriceError::OutOfRange)
        } else if dist * 10 < aa * 8 {
            Err(
                PriceError::BelowAtr {
                    stop_dist: Dec { mantissa: dist as i128, scale: s as u32 },
                    min_atr_dist: Dec { mantissa: (atr->0.mantissa * 8) as i128, scale: (atr->0.scale + 1) as u32 },
                },
            )
        } else {
            Ok(())
        }
    } else {
        Ok(())
    }
}

/// Checks an order's prices. `atr` is the 14-bar ATR when the decision
/// carries one.
pub fn check_prices(entry: Dec, stop: Dec, target: Dec, direction: &str, atr: Option<Dec>) -> (r: Result<(), PriceError>)
    requires
        entry.wf(),
        stop.wf(),
        target.wf(),
        opt_wf(atr),
    ensures
        r == spec_check_prices(entry, stop, target, direction@, atr),
{
    if !(entry.mantissa > 0 && stop.mantissa > 0 && target.mantissa > 0) {
        return Err(PriceError::NotPositive);
    }
    let s = max_u32(max_u32(entry.scale, stop.scale), max_u32(target.scale, scale_of(atr)));
    let mut ok = true;
    let e = checked(align(entry, s), &mut ok);
    let st = checked(align(stop, s), &mut ok);
    let t = checked(align(target, s), &mut ok);
    let aa = checked(align_opt(atr, s), &mut ok);
    if !ok {
        return Err(PriceError::OutOfRange);
    }
    proof {
        lemma_ten_pow_positive((s - entry.scale) as nat);
        lemma_ten_pow_positive((s - stop.scale) as nat);
        lemma_ten_pow_positive((s - target.scale) as nat);
        assert(e > 0 && st > 0 && t > 0) by (nonlinear_arith)
            requires
                e == entry.mantissa * ten_pow((s - entry.scale) as nat),
                st == stop.mantissa * ten_pow((s - stop.scale) as nat),
                t == target.mantissa * ten_pow((s - target.scale) as nat),
                entry.mantissa > 0,
                stop.mantissa > 0,
                target.mantissa > 0,
                ten_pow((s - entry.scale) as nat) > 0,
                ten_pow((s - stop.scale) as nat) > 0,
                ten_pow((s - target.scale) as nat) > 0,
        ;
    }
    let long = str_eq(direction, "做多");
    let short = str_eq(direction, "做空");
    if long && !(st < e && e < t) {
        return Err(PriceError::LongOrder);
    }
    if short && !(t < e && e < st) {
        return Err(PriceError::ShortOrder);
    }
    if !long && !short {
        return Err(PriceError::BadDirection);
    }
    let dist: i128 = if e > st { e - st } else { st - e };
    let d4 = checked(mul_checked(dist, 10000), &mut ok);
    let e30 = checked(mul_checked(30, e), &mut ok);
    if !ok {
        return Err(PriceError::OutOfRange);
    }
    if d4 < e30 {
        return Err(PriceError::TooTight { stop_dist: Dec { mantissa: dist, scale: s }, entry: Dec { mantissa: e, scale: s } });
    }
    match atr {
        Some(a) => {
            if a.mantissa > 0 {
                let d10 = checked(mul_checked(dist, 10), &mut ok);
                let a8 = checked(mul_checked(aa, 8), &mut ok);
                let m8 = checked(mul_checked(a.mantissa, 8), &mut ok);
                if !ok {
                    return Err(PriceError::OutOfRange);
                }
                if d10 < a8 {
                    return Err(
                        PriceError::BelowAtr {
                            stop_dist: Dec { mantissa: dist, scale: s },
                            min_atr_dist: Dec { mantissa: m8, scale: a.scale + 1 },
                        },
                    );
                }
            }
            Ok(())
        },
        None => Ok(()),
    }
}

/// `v` rounded to the nearest multiple of `tick`, ties to the even
/// multiple; `v` itself when `tick` is not positive. `None` when a value of
/// the computation does not fit in 128 bits.
pub open spec fn spec_round_to_tick(v: Dec, tick: Dec) -> Option<Dec> {
    let s = max_nat(v.scale as nat, tick.scale as nat);
    let n = v.at(s);
    let d = tick.at(s);
    if tick.mantissa <= 0 {
        Some(v)
    } else if !(in_i128(n) && in_i128(d)) {
        None
    } else {
        let q = n / d;
        let r = n % d;
        let k = if 2 * r < d {
            q
        } else if 2 * r > d {
            q + 1
        } else if q % 2 == 0 {
            q
        } else {
            q + 1
        };
        if in_i128(k * tick.mantissa) {
            Some(Dec { mantissa: (k * tick.mantissa) as i128, scale: tick.scale })
        } else {
            None
        }
    }
}

/// A price rounded to a positive tick is a whole number of ticks, at most
/// half a tick away from the price.
pub proof fn law_round_to_tick_nearest(v: Dec, tick: Dec)
    requires
        tick.mantissa > 0,
        spec_round_to_tick(v, tick) is Some,
    ensures
        ({
            let s = max_nat(v.scale as nat, tick.scale as nat);
            let x = spec_round_to_tick(v, tick)->0;
            let d = tick.at(s);
            let dist = if x.at(s) >= v.at(s) { x.at(s) - v.at(s) } else { v.at(s) - x.at(s) };
            &&& x.scale == tick.scale
            &&& x.at(s) % d == 0
            &&& 2 * dist <= d
        }),
{
    let s = max_nat(v.scale as nat, tick.scale as nat);
    let n = v.at(s);
    let d = tick.at(s);
    let p = ten_pow((s - tick.scale) as nat);
    lemma_ten_pow_positive((s - tick.scale) as nat);
    assert(d > 0) by (nonlinear_arith)
        requires
            d == tick.mantissa * p,
            tick.mantissa > 0,
            p > 0,
    ;
    let q = n / d;
    let r = n % d;
    vstd::arithmetic::div_mod::lemma_fundamental_div_mod(n, d);
    let k = if 2 * r < d {
        q
    } else if 2 * r > d {
        q + 1
    } else if q % 2 == 0 {
        q
    } else {
        q + 1
    };
    let x = spec_round_to_tick(v, tick)->0;
    assert(x.mantissa == k * tick.mantissa);
    assert(x.at(s) == k * d) by (nonlinear_arith)
        requires
            x.at(s) == x.mantissa * p,
            x.mantissa == k * tick.mantissa,
            d == tick.mantissa * p,
    ;
    vstd::arithmetic::div_mod::lemma_mod_multiples_basic(k, d);
    assert(n == d * q + r);
    assert(d * q == q * d) by (nonlinear_arith);
    assert((q + 1) * d == q * d + d) by (nonlinear_arith);
}

/// Rounds a price to the instrument's tick size.
pub fn round_to_tick(v: Dec, tick: Dec) -> (r: Option<Dec>)
    requires
        v.wf(),
        tick.wf(),
    ensures
        r == spec_round_to_tick(v, tick),
        r matches Some(x) ==> (tick.mantissa > 0 ==> x.scale == tick.scale),
{
    if tick.mantissa <= 0 {
        return Some(v);
    }
    let s = max_u32(v.scale, tick.scale);
    let mut ok = true;
    let n = checked(align(v, s), &mut ok);
    let d = checked(align(tick, s), &mut ok);
    if !ok {
        return None;
    }
    proof {
        lemma_ten_pow_positive((s - tick.scale) as nat);
        assert(d > 0) by (nonlinear_arith)
            requires
                d == tick.mantissa * ten_pow((s - tick.scale) as nat),
                tick.mantissa > 0,
                ten_pow((s - tick.scale) as nat) > 0,
        ;
        vstd::arithmetic::div_mod::lemma_fundamental_div_mod(n as int, d as int);
    }
    let q = floor_div(n, d);
    proof {
        lemma_floor_bounds(n as int, d as int);
        if d >= 2 {
            assert(q < i128::MAX) by (nonlinear_arith)
                requires
                    q * d <= n,
                    n <= i128::MAX,
                    d >= 2,
            ;
        }
    }
    let r: i128 = floor_mod(n, d);
    let k: i128 = if r < d - r {
        q
    } else if r > d - r {
        q + 1
    } else if q % 2 == 0 {
        q
    } else {
        q + 1
    };
    let m = checked(mul_checked(k, tick.mantissa), &mut ok);
    if !ok {
        return None;
    }
    Some(Dec { mantissa: m, scale: tick.scale })
}

/// Why a scaled-down size is refused.
#[derive(Debug, Clone, Copy, PartialEq, Eq)]
pub enum ScaleError {
    /// The position scale is not in (0, 1].
    BadScale,
    /// The scaled size is below the minimum order size.
    BelowMinimum,
    /// A value of the computation does not fit in 128 bits.
    OutOfRange,
}

impl ScaleError {
    pub fn message(&self) -> (r: &'static str)
        ensures
            *self is BadScale ==> r@ == "目标仓位比例必须在 (0,1] 内"@,
            *self is BelowMinimum ==> r@ == "目标仓位低于最小下单量，拒绝向上补量"@,
            *self is OutOfRange ==> r@ == "仓位数值超出可计算范围"@,
    {
        match self {
            ScaleError::BadScale => "目标仓位比例必须在 (0,1] 内",
            ScaleError::BelowMinimum => "目标仓位低于最小下单量，拒绝向上补量",
            ScaleError::OutOfRange => "仓位数值超出可计算范围",
        }
    }
}

/// The size times the position scale, rounded down to whole lots; refused
/// when the scale is not in (0, 1] or the result is below the minimum (it
/// is never raised).
pub open spec fn spec_apply_position_scale(size: Dec, scale: Dec, lot: Dec, min_sz: Dec) -> Result<Dec, ScaleError> {
    let ps = size.scale + scale.scale;
    let s = max_nat(ps as nat, max_nat(lot.scale as nat, min_sz.scale as nat));
    let prod = size.mantissa * scale.mantissa;
    if !(scale.mantissa > 0 && scale.mantissa <= ten_pow(scale.scale as nat)) {
        Err(ScaleError::BadScale)
    } else if s > 36 || !in_i128(prod) {
        Err(ScaleError::OutOfRange)
    } else {
        let p = prod * ten_pow((s - ps) as nat);
        let l = lot.at(s);
        let m = min_sz.at(s);
        if !(in_i128(p) && in_i128(l) && in_i128(m)) {
            Err(ScaleError::OutOfRange)
        } else {
            let k = p / l;
            if !(in_i128(k * l) && in_i128(k * lot.mantissa)) {
                Err(ScaleError::OutOfRange)
            } else if k * l < m {
                Err(ScaleError::BelowMinimum)
            } else {
                Ok(Dec { mantissa: (k * lot.mantissa) as i128, scale: lot.scale })
            }
        }
    }
}

/// Scales an order size down by the decision's position scale.
pub fn apply_position_scale(size: Dec, scale: Dec, lot: Dec, min_sz: Dec) -> (r: Result<Dec, ScaleError>)
    requires
        size.wf(),
        scale.wf(),
        lot.wf(),
        min_sz.wf(),
        lot.mantissa > 0,
    ensures
        r == spec_apply_position_scale(size, scale, lot, min_sz),
{
    proof {
        assert(ten_pow(28) == 10000000000000000000000000000int) by {
            reveal_with_fuel(ten_pow, 29);
        }
        lemma_ten_pow_monotone(scale.scale as nat, 28);
    }
    let unit = ten_i128(scale.scale);
    if !(scale.mantissa > 0 && scale.mantissa <= unit) {
        return Err(ScaleError::BadScale);
    }
    let ps = size.scale + scale.scale;
    let s = max_u32(ps, max_u32(lot.scale, min_sz.scale));
    if s > 36 {
        return Err(ScaleError::OutOfRange);
    }
    let mut ok = true;
    let prod = checked(mul_checked(size.mantissa, scale.mantissa), &mut ok);
    if !ok {
        return Err(ScaleError::OutOfRange);
    }
    let pw = ten_i128(s - ps);
    let p = checked(mul_checked(prod, pw), &mut ok);
    let l = checked(align(lot, s), &mut ok);
    let m = checked(align(min_sz, s), &mut ok);
    if !ok {
        return Err(ScaleError::OutOfRange);
    }
    proof {
        lemma_ten_pow_positive((s - lot.scale) as nat);
        assert(l > 0) by (nonlinear_arith)
            requires
                l == lot.mantissa * ten_pow((s - lot.scale) as nat),
                lot.mantissa > 0,
                ten_pow((s - lot.scale) as nat) > 0,
        ;
    }
    let k = floor_div(p, l);
    let kl = checked(mul_checked(k, l), &mut ok);
    let km = checked(mul_checked(k, lot.mantissa), &mut ok);
    if !ok {
        return Err(ScaleError::OutOfRange);
    }
    if kl < m {
        return Err(ScaleError::BelowMinimum);
    }
    Ok(Dec { mantissa: km, scale: lot.scale })
}

/// Why the fee gate refuses an order.
#[derive(Debug, Clone, Copy, PartialEq, Eq)]
pub enum FeeGateError {
    /// The reward at the target does not exceed the estimated round-trip
    /// fee.
    RewardBelowFees,
    /// The loss at the stop is positive but below 1.5 times the estimated
    /// round-trip fee. The loss is `risk / risk_div` (the divisor is the
    /// entry written with the common places for inverse contracts, else 1)
    /// and `fee` the fee.
    RiskTooClose { risk: Dec, risk_div: Dec, fee: Dec },
    /// A value of the computation does not fit in 128 bits.
    OutOfRange,
}

/// What the fee gate reads of an order.
#[derive(Debug, Clone, Copy)]
pub struct FeeGateInputs {
    pub size: Dec,
    pub entry: Dec,
    pub stop: Dec,
    pub target: Dec,
    /// The contract value (1 when not given).
    pub ct_val: Dec,
    /// Whether the instrument is a swap or a future.
    pub derivative: bool,
    /// Whether the contract type is `inverse`.
    pub inverse: bool,
}

impl FeeGateInputs {
    pub open spec fn wf(self) -> bool {
        &&& self.size.wf()
        &&& self.entry.wf()
        &&& self.stop.wf()
        &&& self.target.wf()
        &&& self.ct_val.wf()
    }

    /// The number of places every value is written with.
    pub open spec fn scale(self) -> nat {
        max_nat(
            max_nat(self.size.scale as nat, self.entry.scale as nat),
            max_nat(max_nat(self.stop.scale as nat, self.target.scale as nat), self.ct_val.scale as nat),
        )
    }
}

/// The values of the fee gate, each times a power of ten: the notional
/// and the reward and the loss times `10^(3S)`, the fee times `10^(3S+4)`.
pub struct FeeGateTerms {
    pub notional: int,
    pub fee: int,
    pub gross: int,
    pub risk: int,
    pub risk_div: int,
}

pub open spec fn fee_gate_terms(g: FeeGateInputs) -> FeeGateTerms {
    let s = g.scale();
    let one = ten_pow(s);
    let z = g.size.at(s);
    let e = g.entry.at(s);
    let st = g.stop.at(s);
    let t = g.target.at(s);
    let c = g.ct_val.at(s);
    let tk = if g.derivative {
        5int
    } else {
        10int
    };
    let notional = if g.derivative {
        if g.inverse {
            z * c * one
        } else {
            z * c * e
        }
    } else {
        z * e * one
    };
    let gross = if g.derivative {
        spec_dist(t, e) * z * c
    } else {
        spec_dist(t, e) * z * one
    };
    let dist = spec_dist(e, st);
    let (risk, risk_div) = if g.derivative {
        if g.inverse {
            if e > 0 {
                (dist * z * c * one, e)
            } else {
                (z * c * one * one, 1int)
            }
        } else {
            (dist * z * c, 1int)
        }
    } else {
        (dist * z * one, 1int)
    };
    FeeGateTerms { notional, fee: notional * tk * 2, gross, risk, risk_div }
}

/// Every value of the fee gate fits in 128 bits, with the powers of ten
/// it is written with.
pub open spec fn fee_gate_fit(g: FeeGateInputs) -> bool {
    let s = g.scale();
    let x = fee_gate_terms(g);
    let one = ten_pow(s);
    let z = g.size.at(s);
    let e = g.entry.at(s);
    let st = g.stop.at(s);
    let t = g.target.at(s);
    let c = g.ct_val.at(s);
    &&& 3 * s + 4 <= u32::MAX
    &&& in_i128(z) && in_i128(e) && in_i128(st) && in_i128(t) && in_i128(c)
    &&& in_i128(z * c) && in_i128(z * e) && in_i128(z * one) && in_i128(z * c * one) && in_i128(z * c * e)
    &&& in_i128(spec_dist(t, e)) && in_i128(spec_dist(e, st))
    &&& in_i128(z * e * one) && in_i128(x.notional * 5) && in_i128(x.notional * 10) && in_i128(x.fee)
    &&& in_i128(spec_dist(t, e) * z) && in_i128(x.gross) && in_i128(x.gross * 10000)
    &&& in_i128(spec_dist(e, st) * z) && in_i128(spec_dist(e, st) * z * c) && in_i128(spec_dist(e, st) * z * one)
    &&& in_i128(x.risk) && in_i128(x.risk * 20000) && in_i128(3 * x.fee) && in_i128(3 * x.fee * x.risk_div)
    &&& in_i128(z * c * one * one) && in_i128(spec_dist(e, st) * z * c * one)
}

/// The fee gate: the reward at the target must exceed the estimated
/// round-trip taker fee (0.05% a side on derivatives, 0.10% on spot), and
/// a positive loss at the stop must be at least 1.5 times that fee.
pub open spec fn spec_fee_risk_gate(g: FeeGateInputs) -> Result<(), FeeGateError> {
    let s = g.scale();
    let x = fee_gate_terms(g);
    if !fee_gate_fit(g) {
        Err(FeeGateError::OutOfRange)
    } else if !(x.gross * 10000 > x.fee) {
        Err(FeeGateError::RewardBelowFees)
    } else if x.risk > 0 && x.risk * 20000 < 3 * x.fee * x.risk_div {
        Err(
            FeeGateError::RiskTooClose {
                risk: Dec { mantissa: x.risk as i128, scale: (3 * s) as u32 },
                risk_div: Dec { mantissa: x.risk_div as i128, scale: 0 },
                fee: Dec { mantissa: x.fee as i128, scale: (3 * s + 4) as u32 },
            },
        )
    } else {
        Ok(())
    }
}

/// Checks that an order's reward and risk are not eaten by trading fees.
#[verifier::rlimit(50)]
pub fn fee_risk_gate(g: &FeeGateInputs) -> (r: Result<(), FeeGateError>)
    requires
        g.wf(),
    ensures
        r == spec_fee_risk_gate(*g),
{
    let ghost x = fee_gate_terms(*g);
    let s = max_u32(max_u32(g.size.scale, g.entry.scale), max_u32(max_u32(g.stop.scale, g.target.scale), g.ct_val.scale));
    assert(s == g.scale() && s <= MAX_SCALE);
    let mut ok = true;
    let z = checked(align(g.size, s), &mut ok);
    let e = checked(align(g.entry, s), &mut ok);
    let st = checked(align(g.stop, s), &mut ok);
    let t = checked(align(g.target, s), &mut ok);
    let c = checked(align(g.ct_val, s), &mut ok);
    if !ok {
        return Err(FeeGateError::OutOfRange);
    }
    let one = ten_i128(s);
    let zc = checked(mul_checked(z, c), &mut ok);
    let ze = checked(mul_checked(z, e), &mut ok);
    let zo = checked(mul_checked(z, one), &mut ok);
    if !ok {
        return Err(FeeGateError::OutOfRange);
    }
    let zco = checked(mul_checked(zc, one), &mut ok);
    let zce = checked(mul_checked(zc, e), &mut ok);
    let zeo = checked(mul_checked(ze, one), &mut ok);
    if !ok {
        return Err(FeeGateError::OutOfRange);
    }
    let notional = if g.derivative {
        if g.inverse { zco } else { zce }
    } else {
        zeo
    };
    assert(notional == x.notional);
    let n5 = checked(mul_checked(notional, 5), &mut ok);
    let n10 = checked(mul_checked(notional, 10), &mut ok);
    if !ok {
        return Err(FeeGateError::OutOfRange);
    }
    let fee = checked(mul_checked(if g.derivative { n5 } else { n10 }, 2), &mut ok);
    let tdist = checked(if t > e { sub_checked(t, e) } else { sub_checked(e, t) }, &mut ok);
    let dist = checked(if e > st { sub_checked(e, st) } else { sub_checked(st, e) }, &mut ok);
    if !ok {
        return Err(FeeGateError::OutOfRange);
    }
    let tz = checked(mul_checked(tdist, z), &mut ok);
    if !ok {
        return Err(FeeGateError::OutOfRange);
    }
    let gross = checked(mul_checked(tz, if g.derivative { c } else { one }), &mut ok);
    if !ok {
        return Err(FeeGateError::OutOfRange);
    }
    assert(gross == x.gross);
    let gross4 = checked(mul_checked(gross, 10000), &mut ok);
    let dz = checked(mul_checked(dist, z), &mut ok);
    if !ok {
        return Err(FeeGateError::OutOfRange);
    }
    let dzc = checked(mul_checked(dz, c), &mut ok);
    let dzo = checked(mul_checked(dz, one), &mut ok);
    let zcoo = checked(mul_checked(zco, one), &mut ok);
    if !ok {
        return Err(FeeGateError::OutOfRange);
    }
    let dzco = checked(mul_checked(dzc, one), &mut ok);
    let (risk, risk_div): (i128, i128) = if g.derivative {
        if g.inverse {
            if e > 0 { (dzco, e) } else { (zcoo, 1) }
        } else {
            (dzc, 1)
        }
    } else {
        (dzo, 1)
    };
    let r2 = checked(mul_checked(risk, 20000), &mut ok);
    let f3 = checked(mul_checked(3, fee), &mut ok);
    if !ok {
        return Err(FeeGateError::OutOfRange);
    }
    let f3d = checked(mul_checked(f3, risk_div), &mut ok);
    if !ok || s > 1431655764 {
        return Err(FeeGateError::OutOfRange);
    }
    proof {
        assert(fee_gate_fit(*g));
    }
    if !(gross4 > fee) {
        return Err(FeeGateError::RewardBelowFees);
    }
    if risk > 0 && r2 < f3d {
        return Err(
            FeeGateError::RiskTooClose {
                risk: Dec { mantissa: risk, scale: 3 * s },
                risk_div: Dec { mantissa: risk_div, scale: 0 },
                fee: Dec { mantissa: fee, scale: 3 * s + 4 },
            },
        );
    }
    Ok(())
}

/// The ATR floor holds for both directions: for a long or a short whose
/// prices are ordered and whose stop is at least 0.30% of the entry away,
/// a positive ATR refuses the order with `BelowAtr` exactly when
/// `10 * |entry - stop| < 8 * ATR` (all written with the same places), and
/// lets it through otherwise.
pub proof fn law_atr_floor_for_both_directions(entry: Dec, stop: Dec, target: Dec, direction: Seq<char>, atr: Dec)
    requires
        entry.mantissa > 0,
        stop.mantissa > 0,
        target.mantissa > 0,
        atr.mantissa > 0,
        ({
            let s = max_nat(max_nat(entry.scale as nat, stop.scale as nat), max_nat(target.scale as nat, atr.scale as nat));
            let e = entry.at(s);
            let st = stop.at(s);
            let t = target.at(s);
            let a = atr.at(s);
            let dist = if e > st { e - st } else { st - e };
            &&& in_i128(e) && in_i128(st) && in_i128(t) && in_i128(a)
            &&& (direction == "做多"@ && st < e && e < t) || (direction == "做空"@ && t < e && e < st)
            &&& in_i128(dist * 10000) && in_i128(30 * e) && in_i128(dist * 10) && in_i128(a * 8)
            &&& in_i128(atr.mantissa * 8)
            &&& dist * 10000 >= 30 * e
        }),
    ensures
        ({
            let s = max_nat(max_nat(entry.scale as nat, stop.scale as nat), max_nat(target.scale as nat, atr.scale as nat));
            let e = entry.at(s);
            let st = stop.at(s);
            let dist = if e > st { e - st } else { st - e };
            &&& dist * 10 < atr.at(s) * 8 ==> (spec_check_prices(entry, stop, target, direction, Some(atr)) matches Err(
                PriceError::BelowAtr { stop_dist, min_atr_dist },
            ) && stop_dist.mantissa == dist && min_atr_dist.mantissa == atr.mantissa * 8)
            &&& dist * 10 >= atr.at(s) * 8 ==> spec_check_prices(entry, stop, target, direction, Some(atr)) == Ok::<
                (),
                PriceError,
            >(())
        }),
{
    reveal_strlit("做多");
    reveal_strlit("做空");
    assert("做多"@ != "做空"@) by {
        assert("做多"@[1] != "做空"@[1]);
    }
}

/// Prices out of order for their direction are refused, and in either
/// direction a stop closer to the entry than 0.30% of the entry is refused
/// as too tight, before any ATR is looked at.
pub proof fn law_price_order_and_distance(entry: Dec, stop: Dec, target: Dec, direction: Seq<char>, atr: Option<Dec>)
    requires
        entry.mantissa > 0,
        stop.mantissa > 0,
        target.mantissa > 0,
        ({
            let s = price_scale(entry, stop, target, atr);
            in_i128(entry.at(s)) && in_i128(stop.at(s)) && in_i128(target.at(s)) && in_i128(opt_at(atr, s))
        }),
    ensures
        ({
            let s = price_scale(entry, stop, target, atr);
            let e = entry.at(s);
            let st = stop.at(s);
            let t = target.at(s);
            let dist = if e > st { e - st } else { st - e };
            let r = spec_check_prices(entry, stop, target, direction, atr);
            &&& direction == "做多"@ && !(st < e && e < t) ==> r == Err::<(), PriceError>(PriceError::LongOrder)
            &&& direction == "做空"@ && !(t < e && e < st) ==> r == Err::<(), PriceError>(PriceError::ShortOrder)
            &&& direction != "做多"@ && direction != "做空"@ ==> r == Err::<(), PriceError>(PriceError::BadDirection)
            &&& ((direction == "做多"@ && st < e && e < t) || (direction == "做空"@ && t < e && e < st)) && in_i128(
                dist * 10000,
            ) && in_i128(30 * e) && dist * 10000 < 30 * e ==> (r matches Err(PriceError::TooTight { stop_dist, .. })
                && stop_dist.mantissa == dist)
            &&& r is Ok ==> dist * 10000 >= 30 * e && ((direction == "做多"@ && st < e && e < t) || (direction
                == "做空"@ && t < e && e < st))
        }),
{
    reveal_strlit("做多");
    reveal_strlit("做空");
    assert("做多"@[1] != "做空"@[1]);
}

/// An order that passes the fee gate has a reward at the target larger
/// than the round-trip taker fee: on spot `|target - entry| > 0.2% * entry`,
/// on a linear derivative `|target - entry| > 0.1% * entry` (per unit and
/// contract, all written with the same places); and a positive loss at the
/// stop that is at least 1.5 times the fee.
pub proof fn law_fee_gate_passes_only_rewarding_orders(g: FeeGateInputs)
    requires
        spec_fee_risk_gate(g) is Ok,
        g.size.mantissa > 0,
        !g.inverse,
    ensures
        ({
            let s = g.scale();
            let one = ten_pow(s);
            let z = g.size.at(s);
            let e = g.entry.at(s);
            let t = g.target.at(s);
            let c = g.ct_val.at(s);
            let reward = if t > e { t - e } else { e - t };
            &&& !g.derivative ==> reward * z * one * 10000 > z * e * one * 20
            &&& g.derivative ==> reward * z * c * 10000 > z * c * e * 10
        }),
{
}


} // verus!
