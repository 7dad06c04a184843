use vstd::prelude::*;
use vstd::arithmetic::div_mod::{
    lemma_fundamental_div_mod, lemma_fundamental_div_mod_converse,
};
use vstd::arithmetic::mul::{lemma_mul_inequality, lemma_mul_is_commutative};

use crate::errors::AstrolendError;

verus! {

/// Raw scale of every fixed-point quantity: values carry 48 fractional bits.
pub const FX_FRAC_RAW: i128 = 0x1_0000_0000_0000;

/// The scale as a mathematical integer, for contracts.
pub open spec fn fx_frac() -> int {
    0x1_0000_0000_0000
}

/// Signed fixed-point number with 48 fractional bits on a 128-bit backing.
/// The mathematical value is `raw / 2^48`. Shares, share values, rates,
/// prices and health values are all carried in this type so that protocol
/// arithmetic is deterministic and exact.
#[derive(Clone, Copy, Debug, PartialEq, Eq, Structural)]
pub struct Fx {
    pub raw: i128,
}

/// Raw value of the fixed-point product `a * b`, rounded toward negative
/// infinity at the 2^-48 granularity.
pub open spec fn fx_mul_spec(a: int, b: int) -> int {
    (a * b) / fx_frac()
}

/// Raw value of the fixed-point quotient `a / b`, rounded toward negative
/// infinity at the 2^-48 granularity.
pub open spec fn fx_div_spec(a: int, b: int) -> int {
    (a * fx_frac()) / b
}

/// Raw value of the fixed-point quotient `a / b`, rounded toward positive
/// infinity at the 2^-48 granularity.
pub open spec fn fx_div_ceil_spec(a: int, b: int) -> int {
    if (a * fx_frac()) % b == 0 {
        (a * fx_frac()) / b
    } else {
        (a * fx_frac()) / b + 1
    }
}

impl Fx {
    /// The value zero.
    pub fn zero() -> (r: Fx)
        ensures
            r.raw == 0,
    {
        Fx { raw: 0 }
    }

    /// The value one.
    pub fn one() -> (r: Fx)
        ensures
            r.raw == fx_frac(),
    {
        Fx { raw: FX_FRAC_RAW }
    }

    /// Builds a fixed-point value from its raw representation.
    pub fn from_raw(raw: i128) -> (r: Fx)
        ensures
            r.raw == raw,
    {
        Fx { raw }
    }

    /// Exact conversion of a nominal token amount.
    pub fn from_tokens(t: u64) -> (r: Fx)
        ensures
            r.raw == t * fx_frac(),
            r.raw >= 0,
    {
        Fx { raw: (t as i128) * FX_FRAC_RAW }
    }

    /// Checked addition; `None` exactly when the raw sum leaves the backing range.
    pub fn checked_add(self, rhs: Fx) -> (r: Option<Fx>)
        ensures
            r matches Some(c) ==> c.raw == self.raw + rhs.raw,
            r is Some <==> i128::MIN <= self.raw + rhs.raw <= i128::MAX,
    {
        if rhs.raw >= 0 {
            if self.raw <= i128::MAX - rhs.raw {
                Some(Fx { raw: self.raw + rhs.raw })
            } else {
                None
            }
        } else {
            if self.raw >= i128::MIN - rhs.raw {
                Some(Fx { raw: self.raw + rhs.raw })
            } else {
                None
            }
        }
    }

    /// Checked subtraction; `None` exactly when the raw difference leaves the
    /// backing range.
    pub fn checked_sub(self, rhs: Fx) -> (r: Option<Fx>)
        ensures
            r matches Some(c) ==> c.raw == self.raw - rhs.raw,
            r is Some <==> i128::MIN <= self.raw - rhs.raw <= i128::MAX,
    {
        if rhs.raw <= 0 {
            if self.raw <= i128::MAX + rhs.raw {
                Some(Fx { raw: self.raw - rhs.raw })
            } else {
                None
            }
        } else {
            if self.raw >= i128::MIN + rhs.raw {
                Some(Fx { raw: self.raw - rhs.raw })
            } else {
                None
            }
        }
    }

    /// Whole-token part of a non-negative value, rounded down.
    pub fn floor_tokens(self) -> (r: Option<u64>)
        requires
            self.raw >= 0,
        ensures
            r matches Some(t) ==> t == self.raw as int / fx_frac(),
            r is Some <==> self.raw as int / fx_frac() <= u64::MAX,
    {
        let q: u128 = (self.raw as u128) / (FX_FRAC_RAW as u128);
        if q <= u64::MAX as u128 {
            Some(q as u64)
        } else {
            None
        }
    }

    /// Whole-token part of a non-negative value, rounded up.
    pub fn ceil_tokens(self) -> (r: Option<u64>)
        requires
            self.raw >= 0,
        ensures
            r matches Some(t) ==> t == (self.raw as int + fx_frac() - 1) / fx_frac(),
            r is Some <==> (self.raw as int + fx_frac() - 1) / fx_frac() <= u64::MAX,
    {
        let q: u128 = ((self.raw as u128) + (FX_FRAC_RAW as u128 - 1)) / (FX_FRAC_RAW as u128);
        if q <= u64::MAX as u128 {
            Some(q as u64)
        } else {
            None
        }
    }
}

/// Relies on `fixed::types::I80F48::checked_mul` (crate `fixed`): the result's
/// raw bits are the 256-bit product of the operands' raw bits shifted right
/// arithmetically by 48, returned exactly when that value fits the 128-bit
/// backing, `None` otherwise.
#[verifier::external_body]
pub fn fx_checked_mul(a: Fx, b: Fx) -> (r: Option<Fx>)
    requires
        a.raw >= 0,
        b.raw >= 0,
    ensures
        r matches Some(c) ==> c.raw == fx_mul_spec(a.raw as int, b.raw as int),
        r is Some <==> fx_mul_spec(a.raw as int, b.raw as int) <= i128::MAX,
{
    let x = fixed::types::I80F48::from_bits(a.raw);
    let y = fixed::types::I80F48::from_bits(b.raw);
    match x.checked_mul(y) {
        Some(c) => Some(Fx { raw: c.to_bits() }),
        None => None,
    }
}

/// Relies on `fixed::types::I80F48::checked_div` (crate `fixed`): the result's
/// raw bits are the dividend's raw bits widened by 48 zero bits divided by the
/// divisor's raw bits, truncated, returned exactly when that value fits the
/// 128-bit backing, `None` otherwise.
#[verifier::external_body]
pub fn fx_checked_div(a: Fx, b: Fx) -> (r: Option<Fx>)
    requires
        a.raw >= 0,
        b.raw > 0,
    ensures
        r matches Some(c) ==> c.raw == fx_div_spec(a.raw as int, b.raw as int),
        r is Some <==> fx_div_spec(a.raw as int, b.raw as int) <= i128::MAX,
{
    let x = fixed::types::I80F48::from_bits(a.raw);
    let y = fixed::types::I80F48::from_bits(b.raw);
    match x.checked_div(y) {
        Some(c) => Some(Fx { raw: c.to_bits() }),
        None => None,
    }
}

/// `q * b` rounded down never exceeds `a` when `q` is `a / b` rounded down.
pub proof fn lemma_div_then_mul_le(a: int, b: int)
    requires
        a >= 0,
        b > 0,
    ensures
        fx_mul_spec(fx_div_spec(a, b), b) <= a,
        fx_div_spec(a, b) >= 0,
        fx_mul_spec(fx_div_spec(a, b), b) == a <==> (a * fx_frac()) % b == 0,
{
    let f = fx_frac();
    let x = a * f;
    let q = x / b;
    let r = x % b;
    lemma_mul_inequality(0, a, f);
    assert(x >= 0);
    lemma_fundamental_div_mod(x, b);
    assert(x == b * q + r);
    assert(0 <= r < b);
    assert(q >= 0) by {
        if q < 0 {
            lemma_mul_inequality(q, -1, b);
            lemma_mul_is_commutative(q, b);
        }
    }
    // q * b == x - r, so (q * b) / f == (x - r) / f, and x == a * f.
    assert(q * b == x - r) by {
        lemma_mul_is_commutative(q, b);
    }
    // floor((a*f - r)/f) == a iff r == 0, and < a when 0 < r (since r < b <= ...).
    if r == 0 {
        assert(q * b == a * f);
        lemma_fundamental_div_mod_converse(q * b, f, a, 0);
        assert((q * b) / f == a);
    } else {
        assert(q * b < a * f);
        // (q*b)/f < a because q*b <= a*f - 1.
        let qq = (q * b) / f;
        let rr = (q * b) % f;
        lemma_fundamental_div_mod(q * b, f);
        assert(q * b == f * qq + rr);
        assert(0 <= rr < f);
        if qq >= a {
            lemma_mul_inequality(a, qq, f);
            lemma_mul_is_commutative(qq, f);
            assert(f * qq >= a * f);
            assert(q * b >= a * f);
        }
        assert(qq < a);
    }
}

/// Ceiling division at the 2^-48 granularity, built from the two rounded-down
/// primitives: the quotient is exact iff multiplying it back returns the
/// dividend unchanged.
pub fn fx_div_ceil(a: Fx, b: Fx) -> (r: Option<Fx>)
    requires
        a.raw >= 0,
        b.raw > 0,
    ensures
        r matches Some(c) ==> c.raw == fx_div_ceil_spec(a.raw as int, b.raw as int),
        r is Some <==> fx_div_ceil_spec(a.raw as int, b.raw as int) <= i128::MAX,
{
    proof {
        lemma_div_then_mul_le(a.raw as int, b.raw as int);
    }
    match fx_checked_div(a, b) {
        None => None,
        Some(q) => {
            let back = fx_checked_mul(q, b);
            // back is always Some: q*b rounded down is at most a.
            match back {
                Some(p) => {
                    if p.raw == a.raw {
                        Some(q)
                    } else if q.raw == i128::MAX {
                        None
                    } else {
                        Some(Fx { raw: q.raw + 1 })
                    }
                },
                None => None,
            }
        },
    }
}

/// A rounded-up quotient of non-negative operands is non-negative.
pub proof fn lemma_fx_div_ceil_nonneg(a: int, b: int)
    requires
        a >= 0,
        b > 0,
    ensures
        fx_div_ceil_spec(a, b) >= 0,
{
    lemma_mul_inequality(0, a, fx_frac());
    lemma_mul_is_commutative(a, fx_frac());
    vstd::arithmetic::div_mod::lemma_div_pos_is_pos(a * fx_frac(), b);
}

/// Maps an exhausted `Option` from checked arithmetic onto the protocol's
/// arithmetic error.
pub fn fx_require(v: Option<Fx>) -> (r: Result<Fx, AstrolendError>)
    ensures
        v matches Some(c) ==> r == Result::<Fx, AstrolendError>::Ok(c),
        v is None ==> r == Result::<Fx, AstrolendError>::Err(AstrolendError::MathError),
{
    match v {
        Some(c) => Ok(c),
        None => Err(AstrolendError::MathError),
    }
}

} // verus!
