use vstd::prelude::*;
use vstd::arithmetic::div_mod::lemma_div_pos_is_pos;

use crate::account::{BalanceSlot, LendingAccount};
use crate::bank::{Bank, RiskTier};
use crate::errors::AstrolendError;
use crate::fixed_point::{fx_frac, fx_mul_spec, Fx};
use crate::price::{OraclePrice, PriceBias};

verus! {

/// Which weight set a health evaluation uses: initialization weights gate
/// actions, maintenance weights gate liquidation, equity (unit weights)
/// measures bankruptcy.
#[derive(Clone, Copy, Debug, PartialEq, Eq, Structural)]
pub enum RiskRequirementType {
    Initial,
    Maintenance,
    Equity,
}

pub open spec fn spec_pow10(n: nat) -> int
    decreases n,
{
    if n == 0 {
        1
    } else {
        10 * spec_pow10((n - 1) as nat)
    }
}

/// The concrete powers of ten up to the largest supported decimals.
proof fn lemma_pow10_values()
    ensures
        spec_pow10(11) == 100_000_000_000,
        spec_pow10(12) == 1_000_000_000_000,
{
    assert(spec_pow10(0) == 1);
    assert(spec_pow10(1) == 10);
    assert(spec_pow10(2) == 100);
    assert(spec_pow10(3) == 1000);
    assert(spec_pow10(4) == 10000);
    assert(spec_pow10(5) == 100_000);
    assert(spec_pow10(6) == 1_000_000);
    assert(spec_pow10(7) == 10_000_000);
    assert(spec_pow10(8) == 100_000_000);
    assert(spec_pow10(9) == 1_000_000_000);
    assert(spec_pow10(10) == 10_000_000_000);
    assert(spec_pow10(11) == 100_000_000_000);
    assert(spec_pow10(12) == 1_000_000_000_000);
}

/// Powers of ten grow with the exponent.
proof fn lemma_pow10_mono(m: nat, n: nat)
    requires
        m <= n,
    ensures
        spec_pow10(m) <= spec_pow10(n),
    decreases n,
{
    lemma_pow10_pos(m);
    if m < n {
        lemma_pow10_mono(m, (n - 1) as nat);
    }
}

/// Powers of ten for token decimals.
pub fn pow10(d: u8) -> (r: u64)
    requires
        d <= 12,
    ensures
        r == spec_pow10(d as nat),
        r >= 1,
{
    proof {
        lemma_pow10_pos(d as nat);
    }
    let mut r: u64 = 1;
    let mut i: u8 = 0;
    while i < d
        invariant
            i <= d <= 12,
            r == spec_pow10(i as nat),
        decreases d - i,
    {
        proof {
            lemma_pow10_mono(i as nat, 11);
            lemma_pow10_values();
        }
        r = r * 10;
        i = i + 1;
    }
    r
}

/// The asset weight of a bank under a requirement type.
pub open spec fn spec_asset_weight(bank: Bank, req: RiskRequirementType) -> int {
    match req {
        RiskRequirementType::Initial => bank.config.asset_weight_init.raw as int,
        RiskRequirementType::Maintenance => bank.config.asset_weight_maint.raw as int,
        RiskRequirementType::Equity => fx_frac(),
    }
}

/// The liability weight of a bank under a requirement type.
pub open spec fn spec_liability_weight(bank: Bank, req: RiskRequirementType) -> int {
    match req {
        RiskRequirementType::Initial => bank.config.liability_weight_init.raw as int,
        RiskRequirementType::Maintenance => bank.config.liability_weight_maint.raw as int,
        RiskRequirementType::Equity => fx_frac(),
    }
}

/// Weighted value of one slot's asset side: shares at the bank's share
/// value, priced conservatively low per whole token, scaled by the bank's
/// decimals and the weight. Every step rounds toward negative infinity.
pub open spec fn spec_slot_asset_value(
    slot_shares: int,
    bank: Bank,
    oracle: OraclePrice,
    req: RiskRequirementType,
) -> int {
    let tokens = fx_mul_spec(slot_shares, bank.asset_share_value.raw as int);
    let priced = fx_mul_spec(tokens, oracle.spec_price_low());
    let scaled = priced / spec_pow10(bank.mint_decimals as nat);
    fx_mul_spec(scaled, spec_asset_weight(bank, req))
}

/// Weighted value of one slot's liability side: priced conservatively
/// high.
pub open spec fn spec_slot_liability_value(
    slot_shares: int,
    bank: Bank,
    oracle: OraclePrice,
    req: RiskRequirementType,
) -> int {
    let tokens = fx_mul_spec(slot_shares, bank.liability_share_value.raw as int);
    let priced = fx_mul_spec(tokens, oracle.spec_price_high());
    let scaled = priced / spec_pow10(bank.mint_decimals as nat);
    fx_mul_spec(scaled, spec_liability_weight(bank, req))
}

/// Sum of the weighted asset values of the first `n` slots.
pub open spec fn spec_weighted_assets(
    balances: Seq<BalanceSlot>,
    banks: Seq<Bank>,
    oracles: Seq<OraclePrice>,
    req: RiskRequirementType,
    n: int,
) -> int
    decreases n,
{
    if n <= 0 {
        0
    } else {
        spec_weighted_assets(balances, banks, oracles, req, n - 1) + if balances[n - 1].active {
            spec_slot_asset_value(
                balances[n - 1].asset_shares.raw as int,
                banks[balances[n - 1].bank_key as int],
                oracles[balances[n - 1].bank_key as int],
                req,
            )
        } else {
            0
        }
    }
}

/// Sum of the weighted liability values of the first `n` slots.
pub open spec fn spec_weighted_liabilities(
    balances: Seq<BalanceSlot>,
    banks: Seq<Bank>,
    oracles: Seq<OraclePrice>,
    req: RiskRequirementType,
    n: int,
) -> int
    decreases n,
{
    if n <= 0 {
        0
    } else {
        spec_weighted_liabilities(balances, banks, oracles, req, n - 1) + if balances[n
            - 1].active {
            spec_slot_liability_value(
                balances[n - 1].liability_shares.raw as int,
                banks[balances[n - 1].bank_key as int],
                oracles[balances[n - 1].bank_key as int],
                req,
            )
        } else {
            0
        }
    }
}

/// The account, the bank table and the oracle table fit together: one bank
/// and one oracle per key, keys in range, everything well formed.
pub open spec fn risk_inputs_wf(
    a: LendingAccount,
    banks: Seq<Bank>,
    oracles: Seq<OraclePrice>,
) -> bool {
    &&& a.wf()
    &&& oracles.len() == banks.len()
    &&& forall|k: int| 0 <= k < banks.len() ==> (#[trigger] banks[k]).wf()
    &&& forall|k: int| 0 <= k < oracles.len() ==> (#[trigger] oracles[k]).wf()
    &&& forall|i: int|
        0 <= i < a.balances.len() && (#[trigger] a.balances[i]).active ==> (a.balances[
            i
        ].bank_key as int) < banks.len()
}

/// Every oracle an active slot relies on is fresh at `now`.
pub open spec fn spec_oracles_fresh(
    balances: Seq<BalanceSlot>,
    banks: Seq<Bank>,
    oracles: Seq<OraclePrice>,
    now: i64,
) -> bool {
    forall|i: int|
        0 <= i < balances.len() && (#[trigger] balances[i]).active ==> oracles[balances[
            i
        ].bank_key as int].spec_age(now) <= banks[balances[i].bank_key as int].config.oracle_max_age
}

/// Every oracle an active slot relies on has an acceptable confidence.
pub open spec fn spec_oracles_confident(
    balances: Seq<BalanceSlot>,
    banks: Seq<Bank>,
    oracles: Seq<OraclePrice>,
) -> bool {
    forall|i: int|
        0 <= i < balances.len() && (#[trigger] balances[i]).active ==> oracles[balances[
            i
        ].bank_key as int].spec_confidence_acceptable()
}

/// Magnitude bounds under which a health evaluation is promised to stay in
/// range.
pub open spec fn risk_inputs_bounded(
    balances: Seq<BalanceSlot>,
    banks: Seq<Bank>,
    oracles: Seq<OraclePrice>,
) -> bool {
    &&& forall|i: int|
        0 <= i < balances.len() && (#[trigger] balances[i]).active ==> balances[
            i
        ].asset_shares.raw <= 0x1_0000_0000_0000_0000_0000 && balances[i].liability_shares.raw
            <= 0x1_0000_0000_0000_0000_0000
    &&& forall|k: int|
        0 <= k < banks.len() ==> (#[trigger] banks[k]).asset_share_value.raw
            <= crate::bank::share_value_bound() && banks[k].liability_share_value.raw
            <= crate::bank::share_value_bound()
    &&& forall|k: int|
        0 <= k < oracles.len() ==> (#[trigger] oracles[k]).price.raw
            <= 0x100_0000_0000_0000_0000
}

/// One slot's weighted values stay under 2^116 under the magnitude bounds.
proof fn lemma_slot_value_bound(
    slot_shares: int,
    bank: Bank,
    oracle: OraclePrice,
    req: RiskRequirementType,
)
    requires
        bank.wf(),
        oracle.wf(),
        0 <= slot_shares <= 0x1_0000_0000_0000_0000_0000,
        bank.asset_share_value.raw <= crate::bank::share_value_bound(),
        bank.liability_share_value.raw <= crate::bank::share_value_bound(),
        oracle.price.raw <= 0x100_0000_0000_0000_0000,
        oracle.spec_confidence_acceptable(),
    ensures
        0 <= spec_slot_asset_value(slot_shares, bank, oracle, req)
            <= 0x8000_0000_0000_0000_0000_0000_0000,
        0 <= spec_slot_liability_value(slot_shares, bank, oracle, req)
            <= 0x8000_0000_0000_0000_0000_0000_0000,
        fx_mul_spec(slot_shares, bank.asset_share_value.raw as int)
            <= 0x10_0000_0000_0000_0000_0000,
        fx_mul_spec(slot_shares, bank.liability_share_value.raw as int)
            <= 0x10_0000_0000_0000_0000_0000,
        fx_mul_spec(
            fx_mul_spec(slot_shares, bank.asset_share_value.raw as int),
            oracle.spec_price_low(),
        ) <= 0x1000_0000_0000_0000_0000_0000_0000,
        fx_mul_spec(
            fx_mul_spec(slot_shares, bank.liability_share_value.raw as int),
            oracle.spec_price_high(),
        ) <= 0x2000_0000_0000_0000_0000_0000_0000,
{
    let pl = oracle.spec_price_low();
    let ph = oracle.spec_price_high();
    assert(0 <= pl <= oracle.price.raw);
    assert(0 <= ph <= 2 * 0x100_0000_0000_0000_0000) by {
        assert(20 * oracle.confidence.raw <= oracle.price.raw);
    }
    let ta = fx_mul_spec(slot_shares, bank.asset_share_value.raw as int);
    let tl = fx_mul_spec(slot_shares, bank.liability_share_value.raw as int);
    crate::bank::lemma_fx_mul_in_range(
        slot_shares,
        0x1_0000_0000_0000_0000_0000,
        bank.asset_share_value.raw as int,
        crate::bank::share_value_bound(),
    );
    crate::bank::lemma_fx_mul_in_range(
        slot_shares,
        0x1_0000_0000_0000_0000_0000,
        bank.liability_share_value.raw as int,
        crate::bank::share_value_bound(),
    );
    crate::bank::lemma_fx_mul_in_range(
        ta,
        0x10_0000_0000_0000_0000_0000,
        pl,
        0x100_0000_0000_0000_0000,
    );
    crate::bank::lemma_fx_mul_in_range(
        tl,
        0x10_0000_0000_0000_0000_0000,
        ph,
        0x200_0000_0000_0000_0000,
    );
    let pa = fx_mul_spec(ta, pl);
    let pb = fx_mul_spec(tl, ph);
    let d = spec_pow10(bank.mint_decimals as nat);
    lemma_pow10_pos(bank.mint_decimals as nat);
    lemma_div_pos_is_pos(pa, d);
    lemma_div_pos_is_pos(pb, d);
    lemma_div_le_self_denom(pa, d);
    lemma_div_le_self_denom(pb, d);
    crate::bank::lemma_fx_mul_in_range(
        pa / d,
        0x1000_0000_0000_0000_0000_0000_0000,
        spec_asset_weight(bank, req),
        fx_frac(),
    );
    crate::bank::lemma_fx_mul_in_range(
        pb / d,
        0x2000_0000_0000_0000_0000_0000_0000,
        spec_liability_weight(bank, req),
        4 * fx_frac(),
    );
}

pub proof fn lemma_pow10_pos(n: nat)
    ensures
        spec_pow10(n) >= 1,
    decreases n,
{
    if n > 0 {
        lemma_pow10_pos((n - 1) as nat);
    }
}

/// Dividing a non-negative value by a positive divisor does not grow it.
proof fn lemma_div_le_self_denom(x: int, d: int)
    requires
        x >= 0,
        d >= 1,
    ensures
        0 <= x / d <= x,
{
    lemma_div_pos_is_pos(x, d);
    vstd::arithmetic::div_mod::lemma_div_is_ordered_by_denominator(x, 1, d);
    vstd::arithmetic::div_mod::lemma_div_multiples_vanish(x, 1);
}

/// Computes the weighted asset and liability values of every active slot,
/// checking oracle freshness and confidence along the way.
pub fn get_health_components(
    account: &LendingAccount,
    banks: &Vec<Bank>,
    oracles: &Vec<OraclePrice>,
    now: i64,
    req: RiskRequirementType,
) -> (r: Result<(Fx, Fx), AstrolendError>)
    requires
        risk_inputs_wf(*account, banks@, oracles@),
    ensures
        r matches Ok(h) ==> h.0.raw == spec_weighted_assets(
            account.balances@,
            banks@,
            oracles@,
            req,
            account.balances.len() as int,
        ) && h.1.raw == spec_weighted_liabilities(
            account.balances@,
            banks@,
            oracles@,
            req,
            account.balances.len() as int,
        ),
        r is Ok ==> spec_oracles_fresh(account.balances@, banks@, oracles@, now) && spec_oracles_confident(
            account.balances@,
            banks@,
            oracles@,
        ),
        r == Result::<(Fx, Fx), AstrolendError>::Err(AstrolendError::StaleOracle) ==> !spec_oracles_fresh(
            account.balances@,
            banks@,
            oracles@,
            now,
        ),
        r == Result::<(Fx, Fx), AstrolendError>::Err(AstrolendError::PriceConfidenceTooWide)
            ==> !spec_oracles_confident(account.balances@, banks@, oracles@),
        r matches Ok(h) ==> h.0.raw >= 0 && h.1.raw >= 0,
        r is Err ==> (r == Result::<(Fx, Fx), AstrolendError>::Err(AstrolendError::StaleOracle)
            || r == Result::<(Fx, Fx), AstrolendError>::Err(
            AstrolendError::PriceConfidenceTooWide,
        ) || r == Result::<(Fx, Fx), AstrolendError>::Err(AstrolendError::MathError)),
        (spec_oracles_fresh(account.balances@, banks@, oracles@, now) && spec_oracles_confident(
            account.balances@,
            banks@,
            oracles@,
        ) && risk_inputs_bounded(account.balances@, banks@, oracles@)) ==> r is Ok,
{
    let mut assets = Fx { raw: 0 };
    let mut liabs = Fx { raw: 0 };
    let ghost bounded = risk_inputs_bounded(account.balances@, banks@, oracles@);
    let mut i: usize = 0;
    while i < account.balances.len()
        invariant
            i <= account.balances.len(),
            risk_inputs_wf(*account, banks@, oracles@),
            bounded == risk_inputs_bounded(account.balances@, banks@, oracles@),
            assets.raw == spec_weighted_assets(account.balances@, banks@, oracles@, req, i as int),
            liabs.raw == spec_weighted_liabilities(account.balances@, banks@, oracles@, req, i as int),
            assets.raw >= 0,
            liabs.raw >= 0,
            bounded ==> assets.raw <= i * 0x1_0000_0000_0000_0000_0000_0000_0000,
            bounded ==> liabs.raw <= i * 0x1_0000_0000_0000_0000_0000_0000_0000,
            forall|j: int|
                0 <= j < i && (#[trigger] account.balances[j]).active ==> oracles@[account.balances[
                    j
                ].bank_key as int].spec_age(now) <= banks@[account.balances[
                    j
                ].bank_key as int].config.oracle_max_age && oracles@[account.balances[
                    j
                ].bank_key as int].spec_confidence_acceptable(),
        decreases account.balances.len() - i,
    {
        let slot = account.balances[i];
        if slot.active {
            let nbanks = banks.len();
            proof {
                assert((slot.bank_key as int) < nbanks as int);
            }
            let b = slot.bank_key as usize;
            proof {
                assert(b as int == slot.bank_key as int);
            }
            let bank = banks[b];
            let oracle = oracles[b];
            match oracle.check_age(now, bank.config.oracle_max_age) {
                Ok(_) => (),
                Err(e) => {
                    proof {
                        if spec_oracles_fresh(account.balances@, banks@, oracles@, now) {
                            assert(account.balances[i as int].active);
                            assert(oracles@[account.balances[i as int].bank_key as int].spec_age(
                                now,
                            ) <= banks@[account.balances[
                                i as int
                            ].bank_key as int].config.oracle_max_age);
                        }
                    }
                    return Err(e);
                },
            }
            let price_low = match oracle.get_price_with_bias(PriceBias::Low) {
                Ok(p) => p,
                Err(e) => {
                    proof {
                        if spec_oracles_confident(account.balances@, banks@, oracles@) {
                            assert(account.balances[i as int].active);
                            assert(oracles@[account.balances[
                                i as int
                            ].bank_key as int].spec_confidence_acceptable());
                        }
                    }
                    return Err(e);
                },
            };
            let price_high = match oracle.get_price_with_bias(PriceBias::High) {
                Ok(p) => p,
                Err(e) => {
                    proof {
                        if spec_oracles_confident(account.balances@, banks@, oracles@) {
                            assert(account.balances[i as int].active);
                            assert(oracles@[account.balances[
                                i as int
                            ].bank_key as int].spec_confidence_acceptable());
                        }
                    }
                    return Err(e);
                },
            };
            proof {
                if bounded {
                    lemma_slot_value_bound(slot.asset_shares.raw as int, bank, oracle, req);
                    lemma_slot_value_bound(slot.liability_shares.raw as int, bank, oracle, req);
                }
                crate::bank::lemma_fx_mul_nonneg(
                    slot.asset_shares.raw as int,
                    bank.asset_share_value.raw as int,
                );
                crate::bank::lemma_fx_mul_nonneg(
                    slot.liability_shares.raw as int,
                    bank.liability_share_value.raw as int,
                );
            }
            let a_val = match slot_asset_value(slot.asset_shares, &bank, price_low, req) {
                Some(v) => v,
                None => {
                    return Err(AstrolendError::MathError);
                },
            };
            let l_val = match slot_liability_value(slot.liability_shares, &bank, price_high, req)
                {
                Some(v) => v,
                None => {
                    return Err(AstrolendError::MathError);
                },
            };
            let new_assets = match assets.checked_add(a_val) {
                Some(v) => v,
                None => {
                    return Err(AstrolendError::MathError);
                },
            };
            let new_liabs = match liabs.checked_add(l_val) {
                Some(v) => v,
                None => {
                    return Err(AstrolendError::MathError);
                },
            };
            proof {
                assert(account.balances[i as int] == slot);
                assert(bank == banks@[slot.bank_key as int]);
                assert(oracle == oracles@[slot.bank_key as int]);
                assert(price_low.raw == oracle.spec_price_low());
                assert(price_high.raw == oracle.spec_price_high());
                assert(a_val.raw == spec_slot_asset_value(
                    slot.asset_shares.raw as int,
                    banks@[slot.bank_key as int],
                    oracles@[slot.bank_key as int],
                    req,
                ));
                assert(l_val.raw == spec_slot_liability_value(
                    slot.liability_shares.raw as int,
                    banks@[slot.bank_key as int],
                    oracles@[slot.bank_key as int],
                    req,
                ));
            }
            assets = new_assets;
            liabs = new_liabs;
        }
        i += 1;
    }
    Ok((assets, liabs))
}

/// Isolated-tier discipline: a debt in an isolated bank tolerates no other
/// debt anywhere in the account.
pub open spec fn spec_isolated_ok(balances: Seq<BalanceSlot>, banks: Seq<Bank>) -> bool {
    forall|i: int, j: int|
        0 <= i < balances.len() && 0 <= j < balances.len() && i != j && (
        #[trigger] balances[i]).active && balances[i].liability_shares.raw > 0 && (
        #[trigger] balances[j]).active && balances[j].liability_shares.raw > 0 ==> banks[
            balances[i].bank_key as int
        ].config.risk_tier != RiskTier::Isolated
}

/// Checks the isolated-tier discipline over the whole balance table.
#[verifier::loop_isolation(false)]
pub fn check_isolated_discipline(account: &LendingAccount, banks: &Vec<Bank>) -> (r: Result<
    (),
    AstrolendError,
>)
    requires
        account.wf(),
        forall|k: int| 0 <= k < banks@.len() ==> (#[trigger] banks@[k]).wf(),
        forall|i: int|
            0 <= i < account.balances.len() && (#[trigger] account.balances[i]).active ==> (
            account.balances[i].bank_key as int) < banks@.len(),
    ensures
        r is Ok <==> spec_isolated_ok(account.balances@, banks@),
        r is Err ==> r == Result::<(), AstrolendError>::Err(
            AstrolendError::IsolatedAccountIllegalState,
        ),
{
    let n = account.balances.len();
    let mut i: usize = 0;
    while i < n
        invariant
            i <= n,
            forall|p: int, q: int|
                0 <= p < i && 0 <= q < n && p != q && (#[trigger] account.balances[p]).active
                    && account.balances[p].liability_shares.raw > 0 && (
                #[trigger] account.balances[q]).active && account.balances[
                    q
                ].liability_shares.raw > 0 ==> banks@[account.balances[
                    p
                ].bank_key as int].config.risk_tier != RiskTier::Isolated,
        decreases n - i,
    {
        let si = account.balances[i];
        if si.active && si.liability_shares.raw > 0 {
            let nbanks = banks.len();
            proof {
                assert((si.bank_key as int) < nbanks as int);
            }
            let bi = banks[si.bank_key as usize];
            if bi.config.risk_tier == RiskTier::Isolated {
                let mut j: usize = 0;
                while j < n
                    invariant
                        j <= n,
                        forall|q: int|
                            0 <= q < j && q != i ==> !((#[trigger] account.balances[q]).active
                                && account.balances[q].liability_shares.raw > 0),
                    decreases n - j,
                {
                    if j != i {
                        let sj = account.balances[j];
                        if sj.active && sj.liability_shares.raw > 0 {
                            return Err(AstrolendError::IsolatedAccountIllegalState);
                        }
                    }
                    j += 1;
                }
            }
        }
        i += 1;
    }
    Ok(())
}

/// Initialization-health gate: every value-changing action must leave the
/// account with initial-weighted assets covering initial-weighted
/// liabilities, and must respect the isolated-tier discipline.
pub fn check_account_init_health(
    account: &LendingAccount,
    banks: &Vec<Bank>,
    oracles: &Vec<OraclePrice>,
    now: i64,
) -> (r: Result<(), AstrolendError>)
    requires
        risk_inputs_wf(*account, banks@, oracles@),
    ensures
        r == Result::<(), AstrolendError>::Err(AstrolendError::IsolatedAccountIllegalState)
            <==> !spec_isolated_ok(account.balances@, banks@),
        r is Ok ==> spec_weighted_assets(
            account.balances@,
            banks@,
            oracles@,
            RiskRequirementType::Initial,
            account.balances.len() as int,
        ) >= spec_weighted_liabilities(
            account.balances@,
            banks@,
            oracles@,
            RiskRequirementType::Initial,
            account.balances.len() as int,
        ),
        r == Result::<(), AstrolendError>::Err(AstrolendError::RiskEngineInitRejected)
            ==> spec_weighted_assets(
            account.balances@,
            banks@,
            oracles@,
            RiskRequirementType::Initial,
            account.balances.len() as int,
        ) < spec_weighted_liabilities(
            account.balances@,
            banks@,
            oracles@,
            RiskRequirementType::Initial,
            account.balances.len() as int,
        ),
        r is Err ==> (r == Result::<(), AstrolendError>::Err(
            AstrolendError::IsolatedAccountIllegalState,
        ) || r == Result::<(), AstrolendError>::Err(AstrolendError::RiskEngineInitRejected) || r
            == Result::<(), AstrolendError>::Err(AstrolendError::StaleOracle) || r == Result::<
            (),
            AstrolendError,
        >::Err(AstrolendError::PriceConfidenceTooWide) || r == Result::<(), AstrolendError>::Err(
            AstrolendError::MathError,
        )),
        (spec_isolated_ok(account.balances@, banks@) && spec_oracles_fresh(account.balances@, banks@, oracles@, now)
            && spec_oracles_confident(account.balances@, banks@, oracles@) && risk_inputs_bounded(
            account.balances@,
            banks@,
            oracles@,
        )) ==> ((r is Ok <==> spec_weighted_assets(
            account.balances@,
            banks@,
            oracles@,
            RiskRequirementType::Initial,
            account.balances.len() as int,
        ) >= spec_weighted_liabilities(
            account.balances@,
            banks@,
            oracles@,
            RiskRequirementType::Initial,
            account.balances.len() as int,
        )) && (r == Result::<(), AstrolendError>::Err(AstrolendError::RiskEngineInitRejected)
            <==> spec_weighted_assets(
            account.balances@,
            banks@,
            oracles@,
            RiskRequirementType::Initial,
            account.balances.len() as int,
        ) < spec_weighted_liabilities(
            account.balances@,
            banks@,
            oracles@,
            RiskRequirementType::Initial,
            account.balances.len() as int,
        ))),
{
    match check_isolated_discipline(account, banks) {
        Ok(_) => (),
        Err(e) => {
            return Err(e);
        },
    }
    let h = match get_health_components(account, banks, oracles, now, RiskRequirementType::Initial)
        {
        Ok(v) => v,
        Err(e) => {
            proof {
                assert(e != AstrolendError::IsolatedAccountIllegalState);
            }
            return Err(e);
        },
    };
    if h.0.raw >= h.1.raw {
        Ok(())
    } else {
        Err(AstrolendError::RiskEngineInitRejected)
    }
}

/// Whether the account may be liquidated: maintenance-weighted liabilities
/// exceed maintenance-weighted assets.
pub fn is_account_liquidatable(
    account: &LendingAccount,
    banks: &Vec<Bank>,
    oracles: &Vec<OraclePrice>,
    now: i64,
) -> (r: Result<bool, AstrolendError>)
    requires
        risk_inputs_wf(*account, banks@, oracles@),
    ensures
        r matches Ok(b) ==> (b <==> spec_weighted_assets(
            account.balances@,
            banks@,
            oracles@,
            RiskRequirementType::Maintenance,
            account.balances.len() as int,
        ) < spec_weighted_liabilities(
            account.balances@,
            banks@,
            oracles@,
            RiskRequirementType::Maintenance,
            account.balances.len() as int,
        )),
        r is Err ==> (r == Result::<bool, AstrolendError>::Err(AstrolendError::StaleOracle) || r
            == Result::<bool, AstrolendError>::Err(AstrolendError::PriceConfidenceTooWide) || r
            == Result::<bool, AstrolendError>::Err(AstrolendError::MathError)),
        (spec_oracles_fresh(account.balances@, banks@, oracles@, now) && spec_oracles_confident(
            account.balances@,
            banks@,
            oracles@,
        ) && risk_inputs_bounded(account.balances@, banks@, oracles@)) ==> r is Ok,
{
    let h = match get_health_components(
        account,
        banks,
        oracles,
        now,
        RiskRequirementType::Maintenance,
    ) {
        Ok(v) => v,
        Err(e) => {
            return Err(e);
        },
    };
    Ok(h.0.raw < h.1.raw)
}

/// Whether the account is bankrupt: no realizable collateral at equity
/// weights while debt remains.
pub fn is_account_bankrupt(
    account: &LendingAccount,
    banks: &Vec<Bank>,
    oracles: &Vec<OraclePrice>,
    now: i64,
) -> (r: Result<bool, AstrolendError>)
    requires
        risk_inputs_wf(*account, banks@, oracles@),
    ensures
        r matches Ok(b) ==> (b <==> spec_weighted_assets(
            account.balances@,
            banks@,
            oracles@,
            RiskRequirementType::Equity,
            account.balances.len() as int,
        ) == 0 && spec_weighted_liabilities(
            account.balances@,
            banks@,
            oracles@,
            RiskRequirementType::Equity,
            account.balances.len() as int,
        ) > 0),
        r is Err ==> (r == Result::<bool, AstrolendError>::Err(AstrolendError::StaleOracle) || r
            == Result::<bool, AstrolendError>::Err(AstrolendError::PriceConfidenceTooWide) || r
            == Result::<bool, AstrolendError>::Err(AstrolendError::MathError)),
        (spec_oracles_fresh(account.balances@, banks@, oracles@, now) && spec_oracles_confident(
            account.balances@,
            banks@,
            oracles@,
        ) && risk_inputs_bounded(account.balances@, banks@, oracles@)) ==> r is Ok,
{
    let h = match get_health_components(account, banks, oracles, now, RiskRequirementType::Equity)
        {
        Ok(v) => v,
        Err(e) => {
            return Err(e);
        },
    };
    proof {
        lemma_weighted_sums_nonneg(
            *account,
            banks@,
            oracles@,
            RiskRequirementType::Equity,
            account.balances.len() as int,
        );
    }
    Ok(h.0.raw == 0 && h.1.raw > 0)
}

/// The weighted sums are sums of non-negative terms.
proof fn lemma_weighted_sums_nonneg(
    a: LendingAccount,
    banks: Seq<Bank>,
    oracles: Seq<OraclePrice>,
    req: RiskRequirementType,
    n: int,
)
    requires
        risk_inputs_wf(a, banks, oracles),
        n <= a.balances.len(),
    ensures
        spec_weighted_assets(a.balances@, banks, oracles, req, n) >= 0,
        spec_weighted_liabilities(a.balances@, banks, oracles, req, n) >= 0,
    decreases n,
{
    if n > 0 {
        lemma_weighted_sums_nonneg(a, banks, oracles, req, n - 1);
        if a.balances[n - 1].active {
            let bank = banks[a.balances[n - 1].bank_key as int];
            let oracle = oracles[a.balances[n - 1].bank_key as int];
            lemma_slot_value_nonneg(a.balances[n - 1].asset_shares.raw as int, bank, oracle, req);
            lemma_slot_value_nonneg(
                a.balances[n - 1].liability_shares.raw as int,
                bank,
                oracle,
                req,
            );
        }
    }
}

/// Each slot's weighted values are non-negative.
proof fn lemma_slot_value_nonneg(
    slot_shares: int,
    bank: Bank,
    oracle: OraclePrice,
    req: RiskRequirementType,
)
    requires
        bank.wf(),
        oracle.wf(),
        slot_shares >= 0,
    ensures
        spec_slot_asset_value(slot_shares, bank, oracle, req) >= 0,
        spec_slot_liability_value(slot_shares, bank, oracle, req) >= 0,
{
    let pl = oracle.spec_price_low();
    let ph = oracle.spec_price_high();
    crate::bank::lemma_fx_mul_nonneg(slot_shares, bank.asset_share_value.raw as int);
    crate::bank::lemma_fx_mul_nonneg(slot_shares, bank.liability_share_value.raw as int);
    let ta = fx_mul_spec(slot_shares, bank.asset_share_value.raw as int);
    let tl = fx_mul_spec(slot_shares, bank.liability_share_value.raw as int);
    crate::bank::lemma_fx_mul_nonneg(ta, pl);
    crate::bank::lemma_fx_mul_nonneg(tl, ph);
    lemma_pow10_pos(bank.mint_decimals as nat);
    lemma_div_pos_is_pos(fx_mul_spec(ta, pl), spec_pow10(bank.mint_decimals as nat));
    lemma_div_pos_is_pos(fx_mul_spec(tl, ph), spec_pow10(bank.mint_decimals as nat));
    crate::bank::lemma_fx_mul_nonneg(
        fx_mul_spec(ta, pl) / spec_pow10(bank.mint_decimals as nat),
        spec_asset_weight(bank, req),
    );
    crate::bank::lemma_fx_mul_nonneg(
        fx_mul_spec(tl, ph) / spec_pow10(bank.mint_decimals as nat),
        spec_liability_weight(bank, req),
    );
}

/// Weighted asset value of one slot, matching `spec_slot_asset_value`.
fn slot_asset_value(shares: Fx, bank: &Bank, price_low: Fx, req: RiskRequirementType) -> (r:
    Option<Fx>)
    requires
        bank.wf(),
        shares.raw >= 0,
        price_low.raw >= 0,
    ensures
        r matches Some(v) ==> v.raw == {
            let tokens = fx_mul_spec(shares.raw as int, bank.asset_share_value.raw as int);
            let priced = fx_mul_spec(tokens, price_low.raw as int);
            let scaled = priced / spec_pow10(bank.mint_decimals as nat);
            fx_mul_spec(scaled, spec_asset_weight(*bank, req))
        },
        r matches Some(v) ==> v.raw >= 0,
        ({
            let tokens = fx_mul_spec(shares.raw as int, bank.asset_share_value.raw as int);
            let priced = fx_mul_spec(tokens, price_low.raw as int);
            tokens <= i128::MAX && priced <= i128::MAX && fx_mul_spec(
                priced / spec_pow10(bank.mint_decimals as nat),
                spec_asset_weight(*bank, req),
            ) <= i128::MAX
        }) ==> r is Some,
{
    let tokens = match crate::fixed_point::fx_checked_mul(shares, bank.asset_share_value) {
        Some(v) => v,
        None => {
            return None;
        },
    };
    proof {
        crate::bank::lemma_fx_mul_nonneg(shares.raw as int, bank.asset_share_value.raw as int);
    }
    let priced = match crate::fixed_point::fx_checked_mul(tokens, price_low) {
        Some(v) => v,
        None => {
            return None;
        },
    };
    proof {
        crate::bank::lemma_fx_mul_nonneg(tokens.raw as int, price_low.raw as int);
        lemma_pow10_pos(bank.mint_decimals as nat);
    }
    let d = pow10(bank.mint_decimals);
    let scaled_u = (priced.raw as u128) / (d as u128);
    proof {
        lemma_div_pos_is_pos(priced.raw as int, d as int);
        lemma_div_le_self_denom(priced.raw as int, d as int);
    }
    let scaled = Fx { raw: scaled_u as i128 };
    let weight = match req {
        RiskRequirementType::Initial => bank.config.asset_weight_init,
        RiskRequirementType::Maintenance => bank.config.asset_weight_maint,
        RiskRequirementType::Equity => Fx::one(),
    };
    proof {
        crate::bank::lemma_fx_mul_nonneg(scaled.raw as int, weight.raw as int);
    }
    crate::fixed_point::fx_checked_mul(scaled, weight)
}

/// Weighted liability value of one slot, matching
/// `spec_slot_liability_value`.
fn slot_liability_value(shares: Fx, bank: &Bank, price_high: Fx, req: RiskRequirementType) -> (r:
    Option<Fx>)
    requires
        bank.wf(),
        shares.raw >= 0,
        price_high.raw >= 0,
    ensures
        r matches Some(v) ==> v.raw == {
            let tokens = fx_mul_spec(shares.raw as int, bank.liability_share_value.raw as int);
            let priced = fx_mul_spec(tokens, price_high.raw as int);
            let scaled = priced / spec_pow10(bank.mint_decimals as nat);
            fx_mul_spec(scaled, spec_liability_weight(*bank, req))
        },
        r matches Some(v) ==> v.raw >= 0,
        ({
            let tokens = fx_mul_spec(shares.raw as int, bank.liability_share_value.raw as int);
            let priced = fx_mul_spec(tokens, price_high.raw as int);
            tokens <= i128::MAX && priced <= i128::MAX && fx_mul_spec(
                priced / spec_pow10(bank.mint_decimals as nat),
                spec_liability_weight(*bank, req),
            ) <= i128::MAX
        }) ==> r is Some,
{
    let tokens = match crate::fixed_point::fx_checked_mul(shares, bank.liability_share_value) {
        Some(v) => v,
        None => {
            return None;
        },
    };
    proof {
        crate::bank::lemma_fx_mul_nonneg(shares.raw as int, bank.liability_share_value.raw as int);
    }
    let priced = match crate::fixed_point::fx_checked_mul(tokens, price_high) {
        Some(v) => v,
        None => {
            return None;
        },
    };
    proof {
        crate::bank::lemma_fx_mul_nonneg(tokens.raw as int, price_high.raw as int);
        lemma_pow10_pos(bank.mint_decimals as nat);
    }
    let d = pow10(bank.mint_decimals);
    let scaled_u = (priced.raw as u128) / (d as u128);
    proof {
        lemma_div_pos_is_pos(priced.raw as int, d as int);
        lemma_div_le_self_denom(priced.raw as int, d as int);
    }
    let scaled = Fx { raw: scaled_u as i128 };
    let weight = match req {
        RiskRequirementType::Initial => bank.config.liability_weight_init,
        RiskRequirementType::Maintenance => bank.config.liability_weight_maint,
        RiskRequirementType::Equity => Fx::one(),
    };
    proof {
        crate::bank::lemma_fx_mul_nonneg(scaled.raw as int, weight.raw as int);
    }
    crate::fixed_point::fx_checked_mul(scaled, weight)
}

} // verus!
