use vstd::prelude::*;
use vstd::arithmetic::div_mod::{
    lemma_div_is_ordered, lemma_div_multiples_vanish, lemma_div_pos_is_pos,
};
use vstd::arithmetic::mul::{lemma_mul_inequality, lemma_mul_is_commutative};

use crate::fixed_point::{fx_div_spec, fx_frac, fx_mul_spec, Fx};

verus! {

/// Upper bound on every configured rate, weight and fee, in raw units:
/// about a million in value, far beyond any plausible configuration, yet
/// small enough that all intermediate products fit the backing type.
pub const RATE_BOUND_RAW: i128 = 0x10_0000_0000_0000_0000;

pub open spec fn rate_bound() -> int {
    0x10_0000_0000_0000_0000
}

/// Utilization-based rate curve with insurance and protocol fees:
/// a plateau rate at the optimal utilization and a steeper segment up to the
/// maximal rate at full utilization.
#[derive(Clone, Copy, Debug, PartialEq, Eq, Structural)]
pub struct InterestRateConfig {
    pub optimal_utilization_rate: Fx,
    pub plateau_interest_rate: Fx,
    pub max_interest_rate: Fx,
    pub insurance_fee_fixed_apr: Fx,
    pub insurance_ir_fee: Fx,
    pub protocol_fixed_fee_apr: Fx,
    pub protocol_ir_fee: Fx,
}

impl InterestRateConfig {
    /// The optimal utilization lies strictly between zero and one, the curve
    /// is nondecreasing, fixed fee rates are bounded, and the interest-share
    /// fees are fractions of one.
    pub open spec fn wf(self) -> bool {
        &&& 0 < self.optimal_utilization_rate.raw < fx_frac()
        &&& 0 <= self.plateau_interest_rate.raw <= self.max_interest_rate.raw
        &&& self.max_interest_rate.raw <= rate_bound()
        &&& 0 <= self.insurance_fee_fixed_apr.raw <= rate_bound()
        &&& 0 <= self.protocol_fixed_fee_apr.raw <= rate_bound()
        &&& 0 <= self.insurance_ir_fee.raw <= fx_frac()
        &&& 0 <= self.protocol_ir_fee.raw <= fx_frac()
    }
}

/// Borrower base rate for a clamped utilization `u`: linear up to the
/// optimal utilization, then linear up to the maximal rate at one.
pub open spec fn spec_base_rate(cfg: InterestRateConfig, u: int) -> int {
    if u <= cfg.optimal_utilization_rate.raw {
        fx_div_spec(
            fx_mul_spec(cfg.plateau_interest_rate.raw as int, u),
            cfg.optimal_utilization_rate.raw as int,
        )
    } else {
        cfg.plateau_interest_rate.raw + fx_div_spec(
            fx_mul_spec(
                cfg.max_interest_rate.raw - cfg.plateau_interest_rate.raw,
                u - cfg.optimal_utilization_rate.raw,
            ),
            fx_frac() - cfg.optimal_utilization_rate.raw,
        )
    }
}

/// APR credited to lenders: the base rate scaled by utilization, so that
/// interest paid on liabilities covers interest earned on assets.
pub open spec fn spec_lending_apr(cfg: InterestRateConfig, u: int) -> int {
    fx_mul_spec(spec_base_rate(cfg, u), u)
}

/// APR accrued to the insurance vault.
pub open spec fn spec_insurance_apr(cfg: InterestRateConfig, u: int) -> int {
    cfg.insurance_fee_fixed_apr.raw + fx_mul_spec(
        cfg.insurance_ir_fee.raw as int,
        spec_base_rate(cfg, u),
    )
}

/// APR accrued to the protocol fee vault.
pub open spec fn spec_protocol_apr(cfg: InterestRateConfig, u: int) -> int {
    cfg.protocol_fixed_fee_apr.raw + fx_mul_spec(
        cfg.protocol_ir_fee.raw as int,
        spec_base_rate(cfg, u),
    )
}

/// Gross APR paid by borrowers: base rate plus both fee components.
pub open spec fn spec_borrowing_apr(cfg: InterestRateConfig, u: int) -> int {
    spec_base_rate(cfg, u) + spec_insurance_apr(cfg, u) + spec_protocol_apr(cfg, u)
}

/// The four APR components at one utilization point.
#[derive(Clone, Copy, Debug, PartialEq, Eq, Structural)]
pub struct ComputedInterestRates {
    pub lending_apr: Fx,
    pub borrowing_apr: Fx,
    pub insurance_apr: Fx,
    pub protocol_apr: Fx,
}

/// `0 <= (a*b)/2^48 <= a` whenever `0 <= b <= 2^48`.
pub proof fn lemma_fx_mul_fraction_le(a: int, b: int)
    requires
        a >= 0,
        0 <= b <= fx_frac(),
    ensures
        0 <= fx_mul_spec(a, b) <= a,
{
    let f = fx_frac();
    lemma_mul_inequality(0, a, b);
    lemma_mul_is_commutative(a, b);
    lemma_div_pos_is_pos(a * b, f);
    lemma_mul_inequality(b, f, a);
    lemma_mul_is_commutative(b, a);
    lemma_mul_is_commutative(f, a);
    assert(a * b <= a * f);
    lemma_div_is_ordered(a * b, a * f, f);
    lemma_mul_is_commutative(a, f);
    lemma_div_multiples_vanish(a, f);
}

/// `(x*2^48)/d <= c` whenever `x*2^48 <= c*d`, for positive `d`.
pub proof fn lemma_fx_div_bound(x: int, d: int, c: int)
    requires
        d > 0,
        x >= 0,
        x * fx_frac() <= c * d,
    ensures
        0 <= fx_div_spec(x, d) <= c,
{
    let f = fx_frac();
    lemma_mul_inequality(0, x, f);
    lemma_mul_is_commutative(x, f);
    lemma_div_pos_is_pos(x * f, d);
    lemma_div_is_ordered(x * f, c * d, d);
    lemma_mul_is_commutative(c, d);
    lemma_div_multiples_vanish(c, d);
}

/// Monotonicity of the fixed-point product in its second operand.
pub proof fn lemma_fx_mul_le_mono(a: int, b1: int, b2: int)
    requires
        a >= 0,
        0 <= b1 <= b2,
    ensures
        fx_mul_spec(a, b1) <= fx_mul_spec(a, b2),
{
    lemma_mul_inequality(b1, b2, a);
    lemma_mul_is_commutative(b1, a);
    lemma_mul_is_commutative(b2, a);
    lemma_div_is_ordered(a * b1, a * b2, fx_frac());
}

/// The base rate is bounded by the maximal configured rate on clamped
/// utilization.
pub proof fn lemma_base_rate_bounds(cfg: InterestRateConfig, u: int)
    requires
        cfg.wf(),
        0 <= u <= fx_frac(),
    ensures
        0 <= spec_base_rate(cfg, u) <= cfg.max_interest_rate.raw,
{
    let f = fx_frac();
    let opt = cfg.optimal_utilization_rate.raw as int;
    let r1 = cfg.plateau_interest_rate.raw as int;
    let r2 = cfg.max_interest_rate.raw as int;
    if u <= opt {
        let x = fx_mul_spec(r1, u);
        lemma_fx_mul_fraction_le(r1, u);
        // x * f <= r1 * opt, so the quotient is at most r1.
        lemma_fx_mul_le_mono(r1, u, opt);
        lemma_fx_mul_fraction_le(r1, opt);
        assert(x <= (r1 * opt) / f);
        lemma_mul_inequality(x, (r1 * opt) / f, f);
        assert(x * f <= ((r1 * opt) / f) * f);
        vstd::arithmetic::div_mod::lemma_fundamental_div_mod(r1 * opt, f);
        vstd::arithmetic::mul::lemma_mul_is_commutative((r1 * opt) / f, f);
        assert(((r1 * opt) / f) * f <= r1 * opt);
        lemma_fx_div_bound(x, opt, r1);
    } else {
        let du = u - opt;
        let dr = r2 - r1;
        let x = fx_mul_spec(dr, du);
        lemma_fx_mul_fraction_le(dr, du);
        lemma_fx_mul_le_mono(dr, du, f - opt);
        lemma_fx_mul_fraction_le(dr, f - opt);
        assert(x <= (dr * (f - opt)) / f);
        lemma_mul_inequality(x, (dr * (f - opt)) / f, f);
        vstd::arithmetic::div_mod::lemma_fundamental_div_mod(dr * (f - opt), f);
        vstd::arithmetic::mul::lemma_mul_is_commutative((dr * (f - opt)) / f, f);
        assert(x * f <= dr * (f - opt));
        lemma_fx_div_bound(x, f - opt, dr);
    }
}

/// Computes the four APR components for a clamped utilization.
pub fn calc_interest_rate(cfg: &InterestRateConfig, utilization: Fx) -> (r: ComputedInterestRates)
    requires
        cfg.wf(),
        0 <= utilization.raw <= fx_frac(),
    ensures
        r.lending_apr.raw == spec_lending_apr(*cfg, utilization.raw as int),
        r.borrowing_apr.raw == spec_borrowing_apr(*cfg, utilization.raw as int),
        r.insurance_apr.raw == spec_insurance_apr(*cfg, utilization.raw as int),
        r.protocol_apr.raw == spec_protocol_apr(*cfg, utilization.raw as int),
        0 <= r.lending_apr.raw <= r.borrowing_apr.raw,
        r.borrowing_apr.raw <= 5 * rate_bound(),
        0 <= r.insurance_apr.raw <= 2 * rate_bound(),
        0 <= r.protocol_apr.raw <= 2 * rate_bound(),
{
    let u = utilization;
    proof {
        lemma_base_rate_bounds(*cfg, u.raw as int);
    }
    let base = if u.raw <= cfg.optimal_utilization_rate.raw {
        let x = match crate::fixed_point::fx_checked_mul(cfg.plateau_interest_rate, u) {
            Some(v) => v,
            None => {
                proof {
                    lemma_fx_mul_fraction_le(cfg.plateau_interest_rate.raw as int, u.raw as int);
                }
                unreached()
            },
        };
        match crate::fixed_point::fx_checked_div(x, cfg.optimal_utilization_rate) {
            Some(v) => v,
            None => unreached(),
        }
    } else {
        let du = Fx { raw: u.raw - cfg.optimal_utilization_rate.raw };
        let dr = Fx { raw: cfg.max_interest_rate.raw - cfg.plateau_interest_rate.raw };
        let x = match crate::fixed_point::fx_checked_mul(dr, du) {
            Some(v) => v,
            None => {
                proof {
                    lemma_fx_mul_fraction_le(dr.raw as int, du.raw as int);
                }
                unreached()
            },
        };
        let denom = Fx { raw: crate::fixed_point::FX_FRAC_RAW - cfg.optimal_utilization_rate.raw };
        let q = match crate::fixed_point::fx_checked_div(x, denom) {
            Some(v) => v,
            None => unreached(),
        };
        Fx { raw: cfg.plateau_interest_rate.raw + q.raw }
    };
    proof {
        lemma_fx_mul_fraction_le(base.raw as int, u.raw as int);
        lemma_fx_mul_fraction_le(base.raw as int, cfg.insurance_ir_fee.raw as int);
        lemma_fx_mul_fraction_le(base.raw as int, cfg.protocol_ir_fee.raw as int);
        lemma_mul_is_commutative(base.raw as int, cfg.insurance_ir_fee.raw as int);
        lemma_mul_is_commutative(base.raw as int, cfg.protocol_ir_fee.raw as int);
        lemma_mul_is_commutative(base.raw as int, u.raw as int);
    }
    let lending_apr = match crate::fixed_point::fx_checked_mul(base, u) {
        Some(v) => v,
        None => unreached(),
    };
    let ins_ir = match crate::fixed_point::fx_checked_mul(cfg.insurance_ir_fee, base) {
        Some(v) => v,
        None => unreached(),
    };
    let prot_ir = match crate::fixed_point::fx_checked_mul(cfg.protocol_ir_fee, base) {
        Some(v) => v,
        None => unreached(),
    };
    let insurance_apr = Fx { raw: cfg.insurance_fee_fixed_apr.raw + ins_ir.raw };
    let protocol_apr = Fx { raw: cfg.protocol_fixed_fee_apr.raw + prot_ir.raw };
    let borrowing_apr = Fx { raw: base.raw + insurance_apr.raw + protocol_apr.raw };
    proof {
        lemma_fx_mul_le_mono(base.raw as int, 0, u.raw as int);
    }
    ComputedInterestRates { lending_apr, borrowing_apr, insurance_apr, protocol_apr }
}

} // verus!
