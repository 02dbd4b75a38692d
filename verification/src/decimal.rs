//! Exact decimal numbers: a mantissa and a count of decimal places, the
//! form in which the exchange quotes prices, steps and balances.
use vstd::prelude::*;

verus! {

/// The largest number of decimal places a quoted value carries.
pub const MAX_SCALE: u32 = 28;

/// `mantissa / 10^scale`.
#[derive(Debug, Clone, Copy, PartialEq, Eq)]
pub struct Dec {
    pub mantissa: i128,
    pub scale: u32,
}

/// `10^n`.
pub open spec fn ten_pow(n: nat) -> int
    decreases n,
{
    if n == 0 {
        1
    } else {
        10 * ten_pow((n - 1) as nat)
    }
}

/// Whether `x` is an `i128`.
pub open spec fn in_i128(x: int) -> bool {
    i128::MIN <= x <= i128::MAX
}

impl Dec {
    /// The number of decimal places is within what a quote can carry.
    pub open spec fn wf(self) -> bool {
        self.scale <= MAX_SCALE
    }

    /// The mantissa of the same value written with `s >= scale` places:
    /// the value is `at(s) / 10^s`.
    pub open spec fn at(self, s: nat) -> int {
        self.mantissa * ten_pow((s - self.scale) as nat)
    }
}

pub proof fn lemma_ten_pow_positive(n: nat)
    ensures
        ten_pow(n) >= 1,
    decreases n,
{
    if n > 0 {
        lemma_ten_pow_positive((n - 1) as nat);
    }
}

pub proof fn lemma_ten_pow_monotone(a: nat, b: nat)
    requires
        a <= b,
    ensures
        ten_pow(a) <= ten_pow(b),
    decreases b,
{
    if a < b {
        lemma_ten_pow_monotone(a, (b - 1) as nat);
        lemma_ten_pow_positive((b - 1) as nat);
    }
}

/// `10^n` for `n <= 36`.
pub fn ten_i128(n: u32) -> (r: i128)
    requires
        n <= 36,
    ensures
        r == ten_pow(n as nat),
{
    proof {
        assert(ten_pow(36) == 1000000000000000000000000000000000000int) by {
            reveal_with_fuel(ten_pow, 37);
        }
        lemma_ten_pow_monotone(n as nat, 36);
    }
    let mut r: i128 = 1;
    let mut k: u32 = 0;
    while k < n
        invariant
            k <= n <= 36,
            r == ten_pow(k as nat),
            ten_pow(n as nat) <= 1000000000000000000000000000000000000int,
        decreases n - k,
    {
        proof {
            lemma_ten_pow_monotone((k + 1) as nat, n as nat);
            assert(ten_pow((k + 1) as nat) == 10 * ten_pow(k as nat));
            assert(r * 10 == ten_pow((k + 1) as nat));
            assert(r * 10 <= 1000000000000000000000000000000000000int);
            lemma_ten_pow_positive(k as nat);
        }
        r = r * 10;
        k = k + 1;
    }
    r
}

/// `a * b`, or `None` when it is not an `i128`.
pub fn mul_checked(a: i128, b: i128) -> (r: Option<i128>)
    ensures
        match r {
            Some(x) => x == a * b,
            None => !in_i128(a * b),
        },
{
    a.checked_mul(b)
}

/// `a + b`, or `None` when it is not an `i128`.
pub fn add_checked(a: i128, b: i128) -> (r: Option<i128>)
    ensures
        match r {
            Some(x) => x == a + b,
            None => !in_i128(a + b),
        },
{
    a.checked_add(b)
}

/// `a - b`, or `None` when it is not an `i128`.
pub fn sub_checked(a: i128, b: i128) -> (r: Option<i128>)
    ensures
        match r {
            Some(x) => x == a - b,
            None => !in_i128(a - b),
        },
{
    a.checked_sub(b)
}

/// The mantissa of `d` written with `s` places, or `None` when it is not
/// an `i128`.
pub fn align(d: Dec, s: u32) -> (r: Option<i128>)
    requires
        d.scale <= s <= 36,
    ensures
        match r {
            Some(x) => x == d.at(s as nat),
            None => !in_i128(d.at(s as nat)),
        },
{
    let p = ten_i128(s - d.scale);
    mul_checked(d.mantissa, p)
}

/// `floor(a / b)` for `b > 0`.
pub fn floor_div(a: i128, b: i128) -> (r: i128)
    requires
        b > 0,
    ensures
        r == a / b,
{
    if a >= 0 {
        a / b
    } else {
        let n: i128 = -(a + 1);
        let q: i128 = n / b;
        proof {
            let rem = n % b;
            assert(n == q * b + rem && 0 <= rem < b) by {
                vstd::arithmetic::div_mod::lemma_fundamental_div_mod(n as int, b as int);
            }
            assert(a == (-q - 1) * b + (b - rem - 1)) by (nonlinear_arith)
                requires
                    n == q * b + rem,
                    n == -(a + 1),
            ;
            vstd::arithmetic::div_mod::lemma_fundamental_div_mod_converse(
                a as int,
                b as int,
                (-q - 1) as int,
                (b - rem - 1) as int,
            );
        }
        -q - 1
    }
}

/// `a` modulo `b > 0`, in `[0, b)`.
pub fn floor_mod(a: i128, b: i128) -> (r: i128)
    requires
        b > 0,
    ensures
        r == a % b,
{
    if a >= 0 {
        a % b
    } else {
        let n: i128 = -(a + 1);
        let rem: i128 = n % b;
        proof {
            let q = n / b;
            assert(n == q * b + rem && 0 <= rem < b) by {
                vstd::arithmetic::div_mod::lemma_fundamental_div_mod(n as int, b as int);
            }
            assert(a == (-q - 1) * b + (b - rem - 1)) by (nonlinear_arith)
                requires
                    n == q * b + rem,
                    n == -(a + 1),
            ;
            vstd::arithmetic::div_mod::lemma_fundamental_div_mod_converse(
                a as int,
                b as int,
                (-q - 1) as int,
                (b - rem - 1) as int,
            );
        }
        b - rem - 1
    }
}

} // verus!
