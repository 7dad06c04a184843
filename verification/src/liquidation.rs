use vstd::prelude::*;
use vstd::arithmetic::div_mod::lemma_div_pos_is_pos;
use vstd::arithmetic::mul::{lemma_mul_inequality, lemma_mul_is_commutative};

use crate::account::{
    asset_shares_in, lemma_active_slot_index_unique, liability_shares_in, BalanceSlot,
    LendingAccount, DISABLED_FLAG,
};
use crate::bank::{Bank, RiskTier};
use crate::errors::AstrolendError;
use crate::fixed_point::{fx_div_spec, fx_frac, fx_mul_spec, Fx, FX_FRAC_RAW};
use crate::group::AstrolendGroup;
use crate::instructions::{account_unchanged, group_unchanged};
use crate::ops::commit_proof;
use crate::price::{OraclePrice, PriceBias};
use crate::risk::{
    check_account_init_health, get_health_components, pow10, spec_pow10, RiskRequirementType,
};

verus! {

/// The liquidator's discount on seized collateral: one thirty-second.
pub const LIQUIDATION_LIQUIDATOR_FEE_RAW: i128 = 0x800_0000_0000;

/// The insurance vault's cut of seized collateral: one thirty-second.
pub const LIQUIDATION_INSURANCE_FEE_RAW: i128 = 0x800_0000_0000;

/// Asset shares moved from the liquidatee to the liquidator for a seizure
/// of `amount` tokens, rounded down.
pub open spec fn spec_seized_shares(asset_bank: Bank, amount: u64) -> int {
    fx_div_spec(amount * fx_frac(), asset_bank.asset_share_value.raw as int)
}

/// Maintenance-weighted, conservatively-low value of the seized tokens.
pub open spec fn spec_seized_value(asset_bank: Bank, oracle: OraclePrice, amount: u64) -> int {
    let priced = fx_mul_spec(amount * fx_frac(), oracle.spec_price_low());
    let scaled = priced / spec_pow10(asset_bank.mint_decimals as nat);
    fx_mul_spec(scaled, asset_bank.config.asset_weight_maint.raw as int)
}

/// Conversion of a value into tokens of the liability bank at the
/// conservatively high price.
pub open spec fn spec_value_to_liab_tokens(liab_bank: Bank, oracle: OraclePrice, v: int) -> int {
    fx_div_spec(fx_mul_spec(v, spec_pow10(liab_bank.mint_decimals as nat) * fx_frac()),
        oracle.spec_price_high())
}

/// Debt (in liability-bank tokens) the liquidator takes over: the seized
/// value less the liquidator's discount.
pub open spec fn spec_liquidator_liab_tokens(
    asset_bank: Bank,
    liab_bank: Bank,
    oracle_a: OraclePrice,
    oracle_l: OraclePrice,
    amount: u64,
) -> int {
    spec_value_to_liab_tokens(
        liab_bank,
        oracle_l,
        fx_mul_spec(
            spec_seized_value(asset_bank, oracle_a, amount),
            fx_frac() - LIQUIDATION_LIQUIDATOR_FEE_RAW as int,
        ),
    )
}

/// Debt (in liability-bank tokens) settled for the liquidatee: the seized
/// value less both the liquidator's and the insurance cut.
pub open spec fn spec_liquidatee_liab_tokens(
    asset_bank: Bank,
    liab_bank: Bank,
    oracle_a: OraclePrice,
    oracle_l: OraclePrice,
    amount: u64,
) -> int {
    spec_value_to_liab_tokens(
        liab_bank,
        oracle_l,
        fx_mul_spec(
            spec_seized_value(asset_bank, oracle_a, amount),
            fx_frac() - LIQUIDATION_LIQUIDATOR_FEE_RAW as int
                - LIQUIDATION_INSURANCE_FEE_RAW as int,
        ),
    )
}

/// Whole insurance-fee tokens drawn from the liability bank's liquidity
/// vault into its insurance vault, bounded by what the vault holds.
pub open spec fn spec_insurance_fee_tokens(
    asset_bank: Bank,
    liab_bank: Bank,
    oracle_a: OraclePrice,
    oracle_l: OraclePrice,
    amount: u64,
) -> int {
    let t = spec_value_to_liab_tokens(
        liab_bank,
        oracle_l,
        fx_mul_spec(
            spec_seized_value(asset_bank, oracle_a, amount),
            LIQUIDATION_INSURANCE_FEE_RAW as int,
        ),
    ) / fx_frac();
    if t <= liab_bank.liquidity_vault_balance {
        t
    } else {
        liab_bank.liquidity_vault_balance as int
    }
}

/// Liability shares burned from the liquidatee, capped by its debt.
pub open spec fn spec_liquidatee_burned_shares(
    asset_bank: Bank,
    liab_bank: Bank,
    oracle_a: OraclePrice,
    oracle_l: OraclePrice,
    amount: u64,
    ee_liab_shares: int,
) -> int {
    let s = fx_div_spec(
        spec_liquidatee_liab_tokens(asset_bank, liab_bank, oracle_a, oracle_l, amount),
        liab_bank.liability_share_value.raw as int,
    );
    if s <= ee_liab_shares {
        s
    } else {
        ee_liab_shares
    }
}

/// Whether the liquidator settles the taken-over debt out of an existing
/// deposit in the liability bank rather than by assuming a liability: so
/// no slot ever carries both sides at once.
pub open spec fn spec_liquidator_pays_from_deposit(or0: LendingAccount, mid_l: Bank) -> bool {
    or0.spec_has_active_slot(mid_l.key) && or0.spec_active_slot(mid_l.key).asset_shares.raw > 0
}

/// Asset shares the liquidator pays from a deposit in the liability bank,
/// rounded up.
pub open spec fn spec_liquidator_paid_asset_shares(
    asset_bank: Bank,
    liab_bank: Bank,
    oracle_a: OraclePrice,
    oracle_l: OraclePrice,
    amount: u64,
) -> int {
    crate::fixed_point::fx_div_ceil_spec(
        spec_liquidator_liab_tokens(asset_bank, liab_bank, oracle_a, oracle_l, amount),
        liab_bank.asset_share_value.raw as int,
    )
}

/// Liability shares credited to the liquidator, rounded up.
pub open spec fn spec_liquidator_credited_shares(
    asset_bank: Bank,
    liab_bank: Bank,
    oracle_a: OraclePrice,
    oracle_l: OraclePrice,
    amount: u64,
) -> int {
    crate::fixed_point::fx_div_ceil_spec(
        spec_liquidator_liab_tokens(asset_bank, liab_bank, oracle_a, oracle_l, amount),
        liab_bank.liability_share_value.raw as int,
    )
}

/// The exact effect of a successful liquidation on the two accounts, the
/// two banks and the vaults, stated against the post-accrual bank states
/// `mid_a` and `mid_l`.
pub open spec fn liquidation_applied(
    mid_a: Bank,
    mid_l: Bank,
    oracle_a: OraclePrice,
    oracle_l: OraclePrice,
    or0: LendingAccount,
    ee0: LendingAccount,
    ba1: Bank,
    bl1: Bank,
    or1: LendingAccount,
    ee1: LendingAccount,
    amount: u64,
) -> bool {
    let seized = spec_seized_shares(mid_a, amount);
    let ee_burn = spec_liquidatee_burned_shares(
        mid_a,
        mid_l,
        oracle_a,
        oracle_l,
        amount,
        liability_shares_in(ee0.balances@, mid_l.key),
    );
    let or_credit = spec_liquidator_credited_shares(mid_a, mid_l, oracle_a, oracle_l, amount);
    let or_paid = spec_liquidator_paid_asset_shares(mid_a, mid_l, oracle_a, oracle_l, amount);
    let ins = spec_insurance_fee_tokens(mid_a, mid_l, oracle_a, oracle_l, amount);
    &&& asset_shares_in(ee1.balances@, mid_a.key) == asset_shares_in(ee0.balances@, mid_a.key)
        - seized
    &&& asset_shares_in(or1.balances@, mid_a.key) == asset_shares_in(or0.balances@, mid_a.key)
        + seized
    &&& liability_shares_in(ee1.balances@, mid_l.key) == liability_shares_in(
        ee0.balances@,
        mid_l.key,
    ) - ee_burn
    &&& (if spec_liquidator_pays_from_deposit(or0, mid_l) {
        &&& asset_shares_in(or1.balances@, mid_l.key) == asset_shares_in(
            or0.balances@,
            mid_l.key,
        ) - or_paid
        &&& liability_shares_in(or1.balances@, mid_l.key) == liability_shares_in(
            or0.balances@,
            mid_l.key,
        )
        &&& bl1.total_asset_shares.raw == mid_l.total_asset_shares.raw - or_paid
        &&& bl1.total_liability_shares.raw == mid_l.total_liability_shares.raw - ee_burn
    } else {
        &&& asset_shares_in(or1.balances@, mid_l.key) == asset_shares_in(
            or0.balances@,
            mid_l.key,
        )
        &&& liability_shares_in(or1.balances@, mid_l.key) == liability_shares_in(
            or0.balances@,
            mid_l.key,
        ) + or_credit
        &&& bl1.total_asset_shares == mid_l.total_asset_shares
        &&& bl1.total_liability_shares.raw == mid_l.total_liability_shares.raw - ee_burn
            + or_credit
    })
    &&& ba1 == mid_a
    &&& bl1.liquidity_vault_balance == mid_l.liquidity_vault_balance - ins
    &&& bl1.insurance_vault_balance == mid_l.insurance_vault_balance + ins
    &&& account_unchanged_but_balances(or0, or1)
    &&& account_unchanged_but_balances(ee0, ee1)
}

pub open spec fn account_unchanged_but_balances(a0: LendingAccount, a1: LendingAccount) -> bool {
    &&& a1.group == a0.group
    &&& a1.authority == a0.authority
    &&& a1.account_flags == a0.account_flags
    &&& a1.balances.len() == a0.balances.len()
}

/// Seizes `amount` tokens of the liquidatee's collateral in the asset bank
/// at a discount: the collateral shares move to the liquidator, who takes
/// over the matching discounted debt in the liability bank; the insurance
/// vault collects its cut; the liquidatee's debt shrinks by the remainder.
/// Allowed only against a maintenance-unhealthy account, only for
/// collateral-tier asset banks, and only if the liquidator ends healthy
/// and the liquidatee ends strictly healthier; otherwise every mutation is
/// rolled back.
pub fn lending_account_liquidate(
    group: &mut AstrolendGroup,
    liquidator: &mut LendingAccount,
    liquidatee: &mut LendingAccount,
    asset_bank_idx: usize,
    liab_bank_idx: usize,
    asset_amount: u64,
    oracles: &Vec<OraclePrice>,
    now: i64,
) -> (r: Result<(), AstrolendError>)
    requires
        old(group).wf(),
        old(liquidator).wf(),
        old(liquidatee).wf(),
        asset_bank_idx < old(group).banks.len(),
        liab_bank_idx < old(group).banks.len(),
        oracles.len() == old(group).banks.len(),
        forall|k: int| 0 <= k < oracles.len() ==> (#[trigger] oracles[k]).wf(),
        crate::instructions::account_keys_in_range(
            *old(liquidator),
            old(group).banks.len() as int,
        ),
        crate::instructions::account_keys_in_range(
            *old(liquidatee),
            old(group).banks.len() as int,
        ),
    ensures
        final(group).wf(),
        final(liquidator).wf(),
        final(liquidatee).wf(),
        r is Err ==> group_unchanged(*old(group), *final(group)) && account_unchanged(
            *old(liquidator),
            *final(liquidator),
        ) && account_unchanged(*old(liquidatee), *final(liquidatee)),
        final(group).banks.len() == old(group).banks.len(),
        r is Ok ==> (exists|mid_a: Bank, mid_l: Bank|
            #[trigger] Bank::accrual_ok(old(group).banks[asset_bank_idx as int], mid_a, now) && (
            #[trigger] Bank::accrual_ok(old(group).banks[liab_bank_idx as int], mid_l, now))
                && liquidation_applied(
                mid_a,
                mid_l,
                oracles[asset_bank_idx as int],
                oracles[liab_bank_idx as int],
                *old(liquidator),
                *old(liquidatee),
                final(group).banks[asset_bank_idx as int],
                final(group).banks[liab_bank_idx as int],
                *final(liquidator),
                *final(liquidatee),
                asset_amount,
            ) && crate::risk::spec_weighted_assets(
                old(liquidatee).balances@,
                old(group).banks@.update(asset_bank_idx as int, mid_a).update(
                    liab_bank_idx as int,
                    mid_l,
                ),
                oracles@,
                RiskRequirementType::Maintenance,
                old(liquidatee).balances.len() as int,
            ) < crate::risk::spec_weighted_liabilities(
                old(liquidatee).balances@,
                old(group).banks@.update(asset_bank_idx as int, mid_a).update(
                    liab_bank_idx as int,
                    mid_l,
                ),
                oracles@,
                RiskRequirementType::Maintenance,
                old(liquidatee).balances.len() as int,
            )),
        r is Ok ==> crate::risk::spec_weighted_assets(
            final(liquidatee).balances@,
            final(group).banks@,
            oracles@,
            RiskRequirementType::Maintenance,
            final(liquidatee).balances.len() as int,
        ) <= crate::risk::spec_weighted_liabilities(
            final(liquidatee).balances@,
            final(group).banks@,
            oracles@,
            RiskRequirementType::Maintenance,
            final(liquidatee).balances.len() as int,
        ),
        r is Ok ==> crate::risk::spec_weighted_assets(
            final(liquidator).balances@,
            final(group).banks@,
            oracles@,
            RiskRequirementType::Initial,
            final(liquidator).balances.len() as int,
        ) >= crate::risk::spec_weighted_liabilities(
            final(liquidator).balances@,
            final(group).banks@,
            oracles@,
            RiskRequirementType::Initial,
            final(liquidator).balances.len() as int,
        ),
{
    if liquidator.get_flag(DISABLED_FLAG) || liquidatee.get_flag(DISABLED_FLAG) {
        return Err(AstrolendError::AccountDisabled);
    }
    if asset_bank_idx == liab_bank_idx {
        return Err(AstrolendError::IllegalLiquidation);
    }
    if asset_amount == 0 {
        return Err(AstrolendError::IllegalLiquidation);
    }
    let saved_or = crate::instructions::copy_slots(&liquidator.balances);
    let saved_ee = crate::instructions::copy_slots(&liquidatee.balances);
    let saved_ba = group.banks[asset_bank_idx];
    let saved_bl = group.banks[liab_bank_idx];

    let mut asset_bank = saved_ba;
    match asset_bank.accrue_interest(now) {
        Ok(_) => (),
        Err(e) => {
            return Err(e);
        },
    }
    let mut liab_bank = saved_bl;
    match liab_bank.accrue_interest(now) {
        Ok(_) => (),
        Err(e) => {
            return Err(e);
        },
    }
    let ghost mid_a = asset_bank;
    let ghost mid_l = liab_bank;
    if asset_bank.config.risk_tier != RiskTier::Collateral {
        return Err(AstrolendError::IllegalLiquidation);
    }
    group.banks.set(asset_bank_idx, asset_bank);
    group.banks.set(liab_bank_idx, liab_bank);
    proof {
        crate::instructions::lemma_group_set_wf_two(
            *old(group),
            *group,
            asset_bank_idx as int,
            liab_bank_idx as int,
        );
    }
    // The liquidatee must currently fail the maintenance requirement.
    let pre = match get_health_components(
        liquidatee,
        &group.banks,
        oracles,
        now,
        RiskRequirementType::Maintenance,
    ) {
        Ok(h) => h,
        Err(e) => {
            group.banks.set(asset_bank_idx, saved_ba);
            group.banks.set(liab_bank_idx, saved_bl);
            proof {
                assert(group.banks@ =~= old(group).banks@);
            }
            return Err(e);
        },
    };
    if pre.0.raw >= pre.1.raw {
        group.banks.set(asset_bank_idx, saved_ba);
        group.banks.set(liab_bank_idx, saved_bl);
        proof {
            assert(group.banks@ =~= old(group).banks@);
        }
        return Err(AstrolendError::IllegalLiquidation);
    }
    match liquidate_effects(
        group,
        liquidator,
        liquidatee,
        asset_bank_idx,
        liab_bank_idx,
        asset_amount,
        oracles,
        now,
    ) {
        Ok(_) => Ok(()),
        Err(e) => {
            liquidator.balances = saved_or;
            liquidatee.balances = saved_ee;
            group.banks.set(asset_bank_idx, saved_ba);
            group.banks.set(liab_bank_idx, saved_bl);
            proof {
                assert(group.banks@ =~= old(group).banks@);
            }
            Err(e)
        },
    }
}

/// Applies the share transfers, debt settlement, insurance draw and the
/// two post-operation health bars. On any error the caller rolls the
/// balance tables and the two banks back, so mutations before a late
/// failure are tolerated here.
#[verifier::rlimit(100)]
#[verifier::spinoff_prover]
fn liquidate_effects(
    group: &mut AstrolendGroup,
    liquidator: &mut LendingAccount,
    liquidatee: &mut LendingAccount,
    a_idx: usize,
    l_idx: usize,
    amount: u64,
    oracles: &Vec<OraclePrice>,
    now: i64,
) -> (r: Result<(), AstrolendError>)
    requires
        old(group).wf(),
        old(liquidator).wf(),
        old(liquidatee).wf(),
        a_idx < old(group).banks.len(),
        l_idx < old(group).banks.len(),
        a_idx != l_idx,
        oracles.len() == old(group).banks.len(),
        forall|k: int| 0 <= k < oracles.len() ==> (#[trigger] oracles[k]).wf(),
        crate::instructions::account_keys_in_range(
            *old(liquidator),
            old(group).banks.len() as int,
        ),
        crate::instructions::account_keys_in_range(
            *old(liquidatee),
            old(group).banks.len() as int,
        ),
    ensures
        final(group).wf(),
        final(liquidator).wf(),
        final(liquidatee).wf(),
        final(group).banks.len() == old(group).banks.len(),
        final(group).key == old(group).key,
        final(group).admin == old(group).admin,
        forall|k: int|
            0 <= k < old(group).banks.len() && k != a_idx && k != l_idx ==> final(group).banks[k]
                == old(group).banks[k],
        final(group).banks[a_idx as int] == old(group).banks[a_idx as int],
        account_unchanged_but_balances(*old(liquidator), *final(liquidator)),
        account_unchanged_but_balances(*old(liquidatee), *final(liquidatee)),
        r is Ok ==> liquidation_applied(
            old(group).banks[a_idx as int],
            old(group).banks[l_idx as int],
            oracles[a_idx as int],
            oracles[l_idx as int],
            *old(liquidator),
            *old(liquidatee),
            final(group).banks[a_idx as int],
            final(group).banks[l_idx as int],
            *final(liquidator),
            *final(liquidatee),
            amount,
        ),
        r is Ok ==> crate::risk::spec_weighted_assets(
            final(liquidator).balances@,
            final(group).banks@,
            oracles@,
            RiskRequirementType::Initial,
            final(liquidator).balances.len() as int,
        ) >= crate::risk::spec_weighted_liabilities(
            final(liquidator).balances@,
            final(group).banks@,
            oracles@,
            RiskRequirementType::Initial,
            final(liquidator).balances.len() as int,
        ),
        r is Ok ==> crate::risk::spec_weighted_assets(
            final(liquidatee).balances@,
            final(group).banks@,
            oracles@,
            RiskRequirementType::Maintenance,
            final(liquidatee).balances.len() as int,
        ) <= crate::risk::spec_weighted_liabilities(
            final(liquidatee).balances@,
            final(group).banks@,
            oracles@,
            RiskRequirementType::Maintenance,
            final(liquidatee).balances.len() as int,
        ),
        liquidation_promised(
            old(group).banks@,
            a_idx as int,
            l_idx as int,
            oracles[a_idx as int],
            oracles[l_idx as int],
            *old(liquidator),
            *old(liquidatee),
            amount,
            oracles@,
            now,
        ) ==> r is Ok,
{
    let ba = group.banks[a_idx];
    let bl = group.banks[l_idx];
    let ghost promise = liquidation_promised(
        old(group).banks@,
        a_idx as int,
        l_idx as int,
        oracles@[a_idx as int],
        oracles@[l_idx as int],
        *old(liquidator),
        *old(liquidatee),
        amount,
        oracles@,
        now,
    );
    proof {
        assert(ba.key == a_idx as u64);
        assert(bl.key == l_idx as u64);
    }
    let oracle_a = oracles[a_idx];
    let oracle_l = oracles[l_idx];
    match oracle_a.check_age(now, ba.config.oracle_max_age) {
        Ok(_) => (),
        Err(e) => {
            return Err(e);
        },
    }
    match oracle_l.check_age(now, bl.config.oracle_max_age) {
        Ok(_) => (),
        Err(e) => {
            return Err(e);
        },
    }
    let price_a_low = match oracle_a.get_price_with_bias(PriceBias::Low) {
        Ok(p) => p,
        Err(e) => {
            return Err(e);
        },
    };
    let price_l_high = match oracle_l.get_price_with_bias(PriceBias::High) {
        Ok(p) => p,
        Err(e) => {
            return Err(e);
        },
    };
    if price_l_high.raw <= 0 {
        return Err(AstrolendError::InvalidOracle);
    }
    // Seized collateral shares.
    let seized = match ba.get_asset_shares_floor(Fx::from_tokens(amount)) {
        Ok(s) => s,
        Err(e) => {
            return Err(e);
        },
    };
    proof {
        lemma_mul_inequality(0, amount as int, fx_frac());
        lemma_mul_inequality(0, amount * fx_frac(), fx_frac());
        lemma_mul_is_commutative(amount * fx_frac(), fx_frac());
        lemma_div_pos_is_pos((amount * fx_frac()) * fx_frac(), ba.asset_share_value.raw as int);
    }
    // Value of the seizure and its splits.
    let v1 = match crate::fixed_point::fx_checked_mul(Fx::from_tokens(amount), price_a_low) {
        Some(v) => v,
        None => {
            return Err(AstrolendError::MathError);
        },
    };
    proof {
        crate::bank::lemma_fx_mul_nonneg(amount * fx_frac(), price_a_low.raw as int);
        crate::risk::lemma_pow10_pos(ba.mint_decimals as nat);
    }
    let pow_a = pow10(ba.mint_decimals);
    let scaled = Fx { raw: ((v1.raw as u128) / (pow_a as u128)) as i128 };
    proof {
        lemma_div_pos_is_pos(v1.raw as int, pow_a as int);
    }
    let val = match crate::fixed_point::fx_checked_mul(scaled, ba.config.asset_weight_maint) {
        Some(v) => v,
        None => {
            return Err(AstrolendError::MathError);
        },
    };
    proof {
        crate::bank::lemma_fx_mul_nonneg(
            scaled.raw as int,
            ba.config.asset_weight_maint.raw as int,
        );
    }
    let or_val = match crate::fixed_point::fx_checked_mul(
        val,
        Fx { raw: FX_FRAC_RAW - LIQUIDATION_LIQUIDATOR_FEE_RAW },
    ) {
        Some(v) => v,
        None => {
            return Err(AstrolendError::MathError);
        },
    };
    let ee_val = match crate::fixed_point::fx_checked_mul(
        val,
        Fx {
            raw: FX_FRAC_RAW - LIQUIDATION_LIQUIDATOR_FEE_RAW - LIQUIDATION_INSURANCE_FEE_RAW,
        },
    ) {
        Some(v) => v,
        None => {
            return Err(AstrolendError::MathError);
        },
    };
    let ins_val = match crate::fixed_point::fx_checked_mul(
        val,
        Fx { raw: LIQUIDATION_INSURANCE_FEE_RAW },
    ) {
        Some(v) => v,
        None => {
            return Err(AstrolendError::MathError);
        },
    };
    proof {
        crate::bank::lemma_fx_mul_nonneg(
            val.raw as int,
            (FX_FRAC_RAW - LIQUIDATION_LIQUIDATOR_FEE_RAW) as int,
        );
        crate::bank::lemma_fx_mul_nonneg(
            val.raw as int,
            (FX_FRAC_RAW - LIQUIDATION_LIQUIDATOR_FEE_RAW - LIQUIDATION_INSURANCE_FEE_RAW) as int,
        );
        crate::bank::lemma_fx_mul_nonneg(val.raw as int, LIQUIDATION_INSURANCE_FEE_RAW as int);
        crate::risk::lemma_pow10_pos(bl.mint_decimals as nat);
    }
    // Conversion of each split into liability-bank tokens.
    let pow_l_fx = Fx::from_tokens(pow10(bl.mint_decimals));
    let or_tok = match value_to_liab_tokens(or_val, pow_l_fx, price_l_high) {
        Ok(v) => v,
        Err(e) => {
            return Err(e);
        },
    };
    let ee_tok = match value_to_liab_tokens(ee_val, pow_l_fx, price_l_high) {
        Ok(v) => v,
        Err(e) => {
            return Err(e);
        },
    };
    let ins_tok = match value_to_liab_tokens(ins_val, pow_l_fx, price_l_high) {
        Ok(v) => v,
        Err(e) => {
            return Err(e);
        },
    };
    let or_credit = match bl.get_liability_shares_ceil(or_tok) {
        Ok(v) => v,
        Err(e) => {
            return Err(e);
        },
    };
    let ee_burn_uncapped = match bl.get_liability_shares_floor(ee_tok) {
        Ok(v) => v,
        Err(e) => {
            return Err(e);
        },
    };
    proof {
        lemma_div_pos_is_pos(ee_tok.raw * fx_frac(), bl.liability_share_value.raw as int);
        lemma_mul_inequality(0, ee_tok.raw as int, fx_frac());
        lemma_mul_is_commutative(ee_tok.raw as int, fx_frac());
        crate::fixed_point::lemma_fx_div_ceil_nonneg(or_tok.raw as int,
            bl.liability_share_value.raw as int);
    }
    let ins_whole = match ins_tok.floor_tokens() {
        Some(v) => v,
        None => {
            return Err(AstrolendError::MathError);
        },
    };
    let ins_amt = if ins_whole <= bl.liquidity_vault_balance {
        ins_whole
    } else {
        bl.liquidity_vault_balance
    };
    let ghost or0 = *liquidator;
    let ghost ee0 = *liquidatee;

    // Step 1: burn seized collateral shares from the liquidatee.
    let idx_ee_a = match liquidatee.find_balance_index(ba.key) {
        Some(i) => i,
        None => {
            return Err(AstrolendError::IllegalLiquidation);
        },
    };
    proof {
        lemma_active_slot_index_unique(ee0, ba.key, idx_ee_a as int);
    }
    let slot_ee_a = liquidatee.balances[idx_ee_a];
    if seized.raw > slot_ee_a.asset_shares.raw {
        return Err(AstrolendError::IllegalLiquidation);
    }
    let new_ee_a = BalanceSlot {
        asset_shares: Fx { raw: slot_ee_a.asset_shares.raw - seized.raw },
        ..slot_ee_a
    };
    liquidatee.balances.set(idx_ee_a, new_ee_a);
    proof {
        commit_proof(ee0, ee0, *liquidatee, idx_ee_a as int, new_ee_a, ba.key);
    }
    let ghost ee1 = *liquidatee;

    // Step 2: settle the liquidatee's debt. The first step touched only
    // the asset-bank slot, so the liability-bank slot is what it was at
    // entry.
    proof {
        if ee0.spec_has_active_slot(bl.key) {
            let j = ee0.spec_active_slot_index(bl.key);
            assert(0 <= j < ee0.balances.len() && ee0.balances[j].active && ee0.balances[
                j
            ].bank_key == bl.key);
            lemma_active_slot_index_unique(ee0, bl.key, j);
            assert(j != idx_ee_a as int);
            assert(ee1.balances@[j] == ee0.balances@[j]);
            lemma_active_slot_index_unique(ee1, bl.key, j);
        }
    }
    let idx_ee_l = match liquidatee.find_balance_index(bl.key) {
        Some(i) => i,
        None => {
            return Err(AstrolendError::IllegalLiquidation);
        },
    };
    proof {
        lemma_active_slot_index_unique(ee1, bl.key, idx_ee_l as int);
        if ee0.spec_has_active_slot(bl.key) {
            assert(idx_ee_l as int == ee0.spec_active_slot_index(bl.key));
            assert(liquidatee.balances@[idx_ee_l as int] == ee0.spec_active_slot(bl.key));
        }
    }
    let slot_ee_l = liquidatee.balances[idx_ee_l];
    if slot_ee_l.asset_shares.raw != 0 {
        return Err(AstrolendError::IllegalLiquidation);
    }
    let ee_burn = if ee_burn_uncapped.raw <= slot_ee_l.liability_shares.raw {
        ee_burn_uncapped
    } else {
        slot_ee_l.liability_shares
    };
    let new_ee_l = BalanceSlot {
        liability_shares: Fx { raw: slot_ee_l.liability_shares.raw - ee_burn.raw },
        ..slot_ee_l
    };
    liquidatee.balances.set(idx_ee_l, new_ee_l);
    proof {
        commit_proof(ee1, ee1, *liquidatee, idx_ee_l as int, new_ee_l, bl.key);
        // The slot for the liability bank was untouched by step 1, so the
        // cap in the specification (the account's pre-operation debt) is
        // this slot's count.
        assert(idx_ee_l != idx_ee_a);
        assert(ee0.balances@[idx_ee_l as int] == ee1.balances@[idx_ee_l as int]);
        crate::account::lemma_sum_is_slot(ee0, bl.key, idx_ee_l as int);
    }

    // Step 3: credit the seized shares to the liquidator.
    let found_or_a = liquidator.find_balance_index(ba.key);
    let cur_or_a: Fx = match found_or_a {
        Some(i) => {
            proof {
                lemma_active_slot_index_unique(or0, ba.key, i as int);
            }
            if liquidator.balances[i].liability_shares.raw != 0 {
                return Err(AstrolendError::IllegalLiquidation);
            }
            liquidator.balances[i].asset_shares
        },
        None => {
            if !liquidator.has_free_slot() {
                return Err(AstrolendError::LendingAccountFull);
            }
            Fx { raw: 0 }
        },
    };
    let new_or_a_shares = match cur_or_a.checked_add(seized) {
        Some(v) => v,
        None => {
            return Err(AstrolendError::MathError);
        },
    };
    let idx_or_a = match liquidator.find_or_create_balance_index(ba.key) {
        Ok(i) => i,
        Err(_) => unreached(),
    };
    let ghost or_mid_a = *liquidator;
    proof {
        if or0.spec_has_active_slot(ba.key) {
            lemma_active_slot_index_unique(or0, ba.key, idx_or_a as int);
        }
    }
    let slot_or_a = liquidator.balances[idx_or_a];
    let new_or_a = BalanceSlot { asset_shares: new_or_a_shares, ..slot_or_a };
    liquidator.balances.set(idx_or_a, new_or_a);
    proof {
        commit_proof(or0, or_mid_a, *liquidator, idx_or_a as int, new_or_a, ba.key);
    }
    let ghost or1 = *liquidator;

    // Step 4: the liquidator settles the discounted debt: out of an
    // existing deposit in the liability bank where one exists, otherwise by
    // assuming a liability.
    let ghost pays_from_deposit = spec_liquidator_pays_from_deposit(or1, bl);
    proof {
        // Step 3 touched only the asset-bank slot, so the liquidator's
        // position in the liability bank is what it was at entry.
        if or0.spec_has_active_slot(bl.key) {
            let j = or0.spec_active_slot_index(bl.key);
            assert(0 <= j < or0.balances.len() && or0.balances[j].active && or0.balances[
                j
            ].bank_key == bl.key);
            lemma_active_slot_index_unique(or0, bl.key, j);
            assert(j != idx_or_a as int);
            assert(or1.balances@[j] == or0.balances@[j]);
            lemma_active_slot_index_unique(or1, bl.key, j);
        }
        if or1.spec_has_active_slot(bl.key) {
            let j = or1.spec_active_slot_index(bl.key);
            assert(0 <= j < or1.balances.len() && or1.balances[j].active && or1.balances[
                j
            ].bank_key == bl.key);
            assert(j != idx_or_a as int);
            assert(or1.balances@[j] == or0.balances@[j]);
            lemma_active_slot_index_unique(or0, bl.key, j);
            lemma_active_slot_index_unique(or1, bl.key, j);
        }
        assert(spec_liquidator_pays_from_deposit(or1, bl) == spec_liquidator_pays_from_deposit(
            or0,
            bl,
        ));
    }
    let found_or_l = liquidator.find_balance_index(bl.key);
    let nets_against_deposit: bool = match found_or_l {
        Some(i) => {
            proof {
                lemma_active_slot_index_unique(or1, bl.key, i as int);
            }
            liquidator.balances[i].asset_shares.raw > 0
        },
        None => {
            if !liquidator.has_free_slot() {
                return Err(AstrolendError::LendingAccountFull);
            }
            false
        },
    };
    let mut new_bl = bl;
    if nets_against_deposit {
        let or_paid = match bl.get_asset_shares_ceil(or_tok) {
            Ok(v) => v,
            Err(e) => {
                return Err(e);
            },
        };
        proof {
            crate::fixed_point::lemma_fx_div_ceil_nonneg(
                or_tok.raw as int,
                bl.asset_share_value.raw as int,
            );
        }
        let idx_or_l = match found_or_l {
            Some(i) => i,
            None => unreached(),
        };
        let slot_or_l = liquidator.balances[idx_or_l];
        if or_paid.raw > slot_or_l.asset_shares.raw {
            return Err(AstrolendError::IllegalLiquidation);
        }
        let new_or_l = BalanceSlot {
            asset_shares: Fx { raw: slot_or_l.asset_shares.raw - or_paid.raw },
            ..slot_or_l
        };
        liquidator.balances.set(idx_or_l, new_or_l);
        proof {
            commit_proof(or1, or1, *liquidator, idx_or_l as int, new_or_l, bl.key);
        }
        let ta = match new_bl.total_asset_shares.checked_sub(or_paid) {
            Some(v) => v,
            None => {
                return Err(AstrolendError::MathError);
            },
        };
        if ta.raw < 0 {
            return Err(AstrolendError::MathError);
        }
        new_bl.total_asset_shares = ta;
        let t1 = match new_bl.total_liability_shares.checked_sub(ee_burn) {
            Some(v) => v,
            None => {
                return Err(AstrolendError::MathError);
            },
        };
        if t1.raw < 0 {
            return Err(AstrolendError::MathError);
        }
        new_bl.total_liability_shares = t1;
    } else {
        let cur_or_l: Fx = match found_or_l {
            Some(i) => liquidator.balances[i].liability_shares,
            None => Fx { raw: 0 },
        };
        let new_or_l_shares = match cur_or_l.checked_add(or_credit) {
            Some(v) => v,
            None => {
                return Err(AstrolendError::MathError);
            },
        };
        let idx_or_l = match liquidator.find_or_create_balance_index(bl.key) {
            Ok(i) => i,
            Err(_) => unreached(),
        };
        let ghost or_mid_l = *liquidator;
        proof {
            if or1.spec_has_active_slot(bl.key) {
                lemma_active_slot_index_unique(or1, bl.key, idx_or_l as int);
            }
        }
        let slot_or_l = liquidator.balances[idx_or_l];
        let new_or_l = BalanceSlot { liability_shares: new_or_l_shares, ..slot_or_l };
        liquidator.balances.set(idx_or_l, new_or_l);
        proof {
            commit_proof(or1, or_mid_l, *liquidator, idx_or_l as int, new_or_l, bl.key);
        }
        let t1 = match new_bl.total_liability_shares.checked_sub(ee_burn) {
            Some(v) => v,
            None => {
                return Err(AstrolendError::MathError);
            },
        };
        let t2 = match t1.checked_add(or_credit) {
            Some(v) => v,
            None => {
                return Err(AstrolendError::MathError);
            },
        };
        if t2.raw < 0 {
            return Err(AstrolendError::MathError);
        }
        new_bl.total_liability_shares = t2;
    }

    // Step 5: vault updates on the liability bank.
    if ins_amt > u64::MAX - new_bl.insurance_vault_balance {
        return Err(AstrolendError::MathError);
    }
    new_bl.liquidity_vault_balance = new_bl.liquidity_vault_balance - ins_amt;
    new_bl.insurance_vault_balance = new_bl.insurance_vault_balance + ins_amt;
    group.banks.set(l_idx, new_bl);
    proof {
        crate::instructions::lemma_group_set_wf(*old(group), *group, l_idx as int);
        lemma_effects_keys(
            or0,
            *liquidator,
            ee0,
            *liquidatee,
            *old(group),
            *group,
            a_idx as int,
            l_idx as int,
        );
    }

    // Step 6: the liquidator must end healthy, and the liquidatee must not
    // have been liquidated past the point of health (over-liquidation).
    match check_account_init_health(liquidator, &group.banks, oracles, now) {
        Ok(_) => (),
        Err(e) => {
            return Err(e);
        },
    }
    let post = match get_health_components(
        liquidatee,
        &group.banks,
        oracles,
        now,
        RiskRequirementType::Maintenance,
    ) {
        Ok(h) => h,
        Err(e) => {
            return Err(e);
        },
    };
    if post.0.raw > post.1.raw {
        return Err(AstrolendError::IllegalLiquidation);
    }
    Ok(())
}

/// The account's bad debt in a bank, as whole tokens rounded up.
pub open spec fn spec_bad_debt_tokens(mid: Bank, lia_shares: int) -> int {
    (fx_mul_spec(lia_shares, mid.liability_share_value.raw as int) + fx_frac() - 1) / fx_frac()
}

/// Tokens the insurance vault can cover.
pub open spec fn spec_insurance_draw(mid: Bank, bad_debt: int) -> int {
    if bad_debt <= mid.insurance_vault_balance {
        bad_debt
    } else {
        mid.insurance_vault_balance as int
    }
}

/// Asset share value after socializing `residual` tokens of bad debt
/// across the depositors.
pub open spec fn spec_socialized_asset_share_value(mid: Bank, residual: int) -> int {
    if residual <= 0 {
        mid.asset_share_value.raw as int
    } else {
        mid.asset_share_value.raw - fx_div_spec(
            residual * fx_frac(),
            mid.total_asset_shares.raw as int,
        )
    }
}

/// The exact effect of handling a bankruptcy against one bank, stated
/// against the post-accrual bank state `mid`.
pub open spec fn bankruptcy_applied(
    mid: Bank,
    a0: LendingAccount,
    b1: Bank,
    a1: LendingAccount,
) -> bool {
    let lia = liability_shares_in(a0.balances@, mid.key);
    let bad_debt = spec_bad_debt_tokens(mid, lia);
    let draw = spec_insurance_draw(mid, bad_debt);
    let residual = bad_debt - draw;
    &&& liability_shares_in(a1.balances@, mid.key) == 0
    &&& asset_shares_in(a1.balances@, mid.key) == asset_shares_in(a0.balances@, mid.key)
    &&& crate::ops::other_sums_unchanged(a0, a1, mid.key)
    &&& account_unchanged_but_balances(a0, a1)
    &&& b1.total_liability_shares.raw == mid.total_liability_shares.raw - lia
    &&& b1.insurance_vault_balance == mid.insurance_vault_balance - draw
    &&& b1.liquidity_vault_balance == mid.liquidity_vault_balance + draw
    &&& b1.asset_share_value.raw == spec_socialized_asset_share_value(mid, residual)
    &&& b1 == (Bank {
        total_liability_shares: b1.total_liability_shares,
        insurance_vault_balance: b1.insurance_vault_balance,
        liquidity_vault_balance: b1.liquidity_vault_balance,
        asset_share_value: b1.asset_share_value,
        ..mid
    })
}

/// The liquidatee's balance table after a successful liquidation: the
/// seized collateral gone from its asset-bank slot, the settled debt gone
/// from its liability-bank slot.
pub open spec fn spec_liquidation_post_ee(
    mid_a: Bank,
    mid_l: Bank,
    oracle_a: OraclePrice,
    oracle_l: OraclePrice,
    ee0: LendingAccount,
    amount: u64,
) -> Seq<BalanceSlot> {
    let seized = spec_seized_shares(mid_a, amount);
    let ee_burn = spec_liquidatee_burned_shares(
        mid_a,
        mid_l,
        oracle_a,
        oracle_l,
        amount,
        liability_shares_in(ee0.balances@, mid_l.key),
    );
    let slot_a = ee0.spec_active_slot(mid_a.key);
    let slot_l = ee0.spec_active_slot(mid_l.key);
    ee0.balances@.update(
        ee0.spec_active_slot_index(mid_a.key),
        BalanceSlot { asset_shares: Fx { raw: (slot_a.asset_shares.raw - seized) as i128 }, ..slot_a },
    ).update(
        ee0.spec_active_slot_index(mid_l.key),
        BalanceSlot {
            liability_shares: Fx { raw: (slot_l.liability_shares.raw - ee_burn) as i128 },
            ..slot_l
        },
    )
}

/// The liquidator's balance table after a successful liquidation that is
/// settled out of its deposit in the liability bank: the seized collateral
/// added in the asset bank, the payment gone from the liability-bank
/// deposit.
pub open spec fn spec_liquidation_post_or(
    mid_a: Bank,
    mid_l: Bank,
    oracle_a: OraclePrice,
    oracle_l: OraclePrice,
    or0: LendingAccount,
    amount: u64,
) -> Seq<BalanceSlot> {
    let seized = spec_seized_shares(mid_a, amount);
    let or_paid = spec_liquidator_paid_asset_shares(mid_a, mid_l, oracle_a, oracle_l, amount);
    let slot_a = if or0.spec_has_active_slot(mid_a.key) {
        or0.spec_active_slot(mid_a.key)
    } else {
        BalanceSlot { active: true, bank_key: mid_a.key, ..BalanceSlot::empty_spec() }
    };
    let slot_l = or0.spec_active_slot(mid_l.key);
    or0.balances@.update(
        crate::account::spec_op_slot_index(or0, mid_a.key),
        BalanceSlot { asset_shares: Fx { raw: (slot_a.asset_shares.raw + seized) as i128 }, ..slot_a },
    ).update(
        or0.spec_active_slot_index(mid_l.key),
        BalanceSlot { asset_shares: Fx { raw: (slot_l.asset_shares.raw - or_paid) as i128 }, ..slot_l },
    )
}

/// The liability bank after a successful deposit-settled liquidation.
pub open spec fn spec_liquidation_post_liab_bank(
    mid_a: Bank,
    mid_l: Bank,
    oracle_a: OraclePrice,
    oracle_l: OraclePrice,
    ee0: LendingAccount,
    amount: u64,
) -> Bank {
    let ee_burn = spec_liquidatee_burned_shares(
        mid_a,
        mid_l,
        oracle_a,
        oracle_l,
        amount,
        liability_shares_in(ee0.balances@, mid_l.key),
    );
    let or_paid = spec_liquidator_paid_asset_shares(mid_a, mid_l, oracle_a, oracle_l, amount);
    let ins = spec_insurance_fee_tokens(mid_a, mid_l, oracle_a, oracle_l, amount);
    Bank {
        total_asset_shares: Fx { raw: (mid_l.total_asset_shares.raw - or_paid) as i128 },
        total_liability_shares: Fx { raw: (mid_l.total_liability_shares.raw - ee_burn) as i128 },
        liquidity_vault_balance: (mid_l.liquidity_vault_balance - ins) as u64,
        insurance_vault_balance: (mid_l.insurance_vault_balance + ins) as u64,
        ..mid_l
    }
}

/// Hypotheses under which a liquidation settled out of the liquidator's
/// deposit in the liability bank is promised to succeed: well-shaped slots
/// on both accounts, every intermediate of the pricing chain inside the
/// backing type, ledger room for the transfers, and both accounts passing
/// their post-operation health bars.
pub open spec fn liquidation_promised(
    banks: Seq<Bank>,
    a_idx: int,
    l_idx: int,
    oracle_a: OraclePrice,
    oracle_l: OraclePrice,
    or0: LendingAccount,
    ee0: LendingAccount,
    amount: u64,
    oracles: Seq<OraclePrice>,
    now: i64,
) -> bool {
    let mid_a = banks[a_idx];
    let mid_l = banks[l_idx];
    let seized = spec_seized_shares(mid_a, amount);
    let val = spec_seized_value(mid_a, oracle_a, amount);
    let or_tok = spec_liquidator_liab_tokens(mid_a, mid_l, oracle_a, oracle_l, amount);
    let ee_tok = spec_liquidatee_liab_tokens(mid_a, mid_l, oracle_a, oracle_l, amount);
    let ins_tok = spec_value_to_liab_tokens(
        mid_l,
        oracle_l,
        fx_mul_spec(val, LIQUIDATION_INSURANCE_FEE_RAW as int),
    );
    let or_paid = spec_liquidator_paid_asset_shares(mid_a, mid_l, oracle_a, oracle_l, amount);
    let ins = spec_insurance_fee_tokens(mid_a, mid_l, oracle_a, oracle_l, amount);
    let ee_post = spec_liquidation_post_ee(mid_a, mid_l, oracle_a, oracle_l, ee0, amount);
    let or_post = spec_liquidation_post_or(mid_a, mid_l, oracle_a, oracle_l, or0, amount);
    let banks_post = banks.update(
        l_idx,
        spec_liquidation_post_liab_bank(mid_a, mid_l, oracle_a, oracle_l, ee0, amount),
    );
    // Oracle usability.
    &&& oracle_a.spec_age(now) <= mid_a.config.oracle_max_age
    &&& oracle_l.spec_age(now) <= mid_l.config.oracle_max_age
    &&& oracle_a.spec_confidence_acceptable()
    &&& oracle_l.spec_confidence_acceptable()
    &&& oracle_l.spec_price_high() > 0
    // Every step of the pricing chain fits the backing type.
    &&& fx_mul_spec(amount * fx_frac(), oracle_a.spec_price_low()) <= i128::MAX
    &&& val <= i128::MAX
    &&& fx_mul_spec(val, fx_frac() - LIQUIDATION_LIQUIDATOR_FEE_RAW as int) <= i128::MAX
    &&& fx_mul_spec(
        val,
        fx_frac() - LIQUIDATION_LIQUIDATOR_FEE_RAW as int - LIQUIDATION_INSURANCE_FEE_RAW as int,
    ) <= i128::MAX
    &&& fx_mul_spec(val, LIQUIDATION_INSURANCE_FEE_RAW as int) <= i128::MAX
    &&& fx_mul_spec(
        fx_mul_spec(val, fx_frac() - LIQUIDATION_LIQUIDATOR_FEE_RAW as int),
        spec_pow10(mid_l.mint_decimals as nat) * fx_frac(),
    ) <= i128::MAX
    &&& fx_mul_spec(
        fx_mul_spec(
            val,
            fx_frac() - LIQUIDATION_LIQUIDATOR_FEE_RAW as int
                - LIQUIDATION_INSURANCE_FEE_RAW as int,
        ),
        spec_pow10(mid_l.mint_decimals as nat) * fx_frac(),
    ) <= i128::MAX
    &&& fx_mul_spec(
        fx_mul_spec(val, LIQUIDATION_INSURANCE_FEE_RAW as int),
        spec_pow10(mid_l.mint_decimals as nat) * fx_frac(),
    ) <= i128::MAX
    &&& or_tok <= i128::MAX
    &&& ee_tok <= i128::MAX
    &&& ins_tok <= i128::MAX
    &&& crate::fixed_point::fx_div_ceil_spec(or_tok, mid_l.liability_share_value.raw as int)
        <= i128::MAX
    &&& fx_div_spec(ee_tok, mid_l.liability_share_value.raw as int) <= i128::MAX
    &&& ins_tok / fx_frac() <= u64::MAX
    &&& or_paid <= i128::MAX
    // Slot shapes and capacities.
    &&& ee0.spec_has_active_slot(mid_a.key)
    &&& seized <= ee0.spec_active_slot(mid_a.key).asset_shares.raw
    &&& ee0.spec_has_active_slot(mid_l.key)
    &&& ee0.spec_active_slot(mid_l.key).asset_shares.raw == 0
    &&& (or0.spec_has_active_slot(mid_a.key) ==> or0.spec_active_slot(
        mid_a.key,
    ).liability_shares.raw == 0)
    &&& (!or0.spec_has_active_slot(mid_a.key) ==> or0.spec_has_free_slot())
    &&& (or0.spec_has_active_slot(mid_a.key) ==> or0.spec_active_slot(
        mid_a.key,
    ).asset_shares.raw + seized <= i128::MAX)
    &&& or0.spec_has_active_slot(mid_l.key)
    &&& or0.spec_active_slot(mid_l.key).asset_shares.raw > 0
    &&& or_paid <= or0.spec_active_slot(mid_l.key).asset_shares.raw
    // Ledger and vault room.
    &&& liability_shares_in(ee0.balances@, mid_l.key) <= mid_l.total_liability_shares.raw
    &&& or_paid <= mid_l.total_asset_shares.raw
    &&& mid_l.insurance_vault_balance + ins <= u64::MAX
    // Both accounts pass their post-operation health bars.
    &&& crate::risk::spec_isolated_ok(or_post, banks_post)
    &&& crate::risk::spec_oracles_fresh(or_post, banks_post, oracles, now)
    &&& crate::risk::spec_oracles_confident(or_post, banks_post, oracles)
    &&& crate::risk::risk_inputs_bounded(or_post, banks_post, oracles)
    &&& crate::risk::spec_weighted_assets(
        or_post,
        banks_post,
        oracles,
        RiskRequirementType::Initial,
        or_post.len() as int,
    ) >= crate::risk::spec_weighted_liabilities(
        or_post,
        banks_post,
        oracles,
        RiskRequirementType::Initial,
        or_post.len() as int,
    )
    &&& crate::risk::spec_oracles_fresh(ee_post, banks_post, oracles, now)
    &&& crate::risk::spec_oracles_confident(ee_post, banks_post, oracles)
    &&& crate::risk::risk_inputs_bounded(ee_post, banks_post, oracles)
    &&& crate::risk::spec_weighted_assets(
        ee_post,
        banks_post,
        oracles,
        RiskRequirementType::Maintenance,
        ee_post.len() as int,
    ) <= crate::risk::spec_weighted_liabilities(
        ee_post,
        banks_post,
        oracles,
        RiskRequirementType::Maintenance,
        ee_post.len() as int,
    )
}

/// Hypotheses under which handling a bankruptcy in this bank is promised
/// to run out of nothing but its stated checks: a debt slot here, debt
/// within the bank's ledger, room in the vault, and a socialization that
/// leaves the share value positive.
pub open spec fn bankruptcy_promised(mid: Bank, a: LendingAccount) -> bool {
    let lia = a.spec_active_slot(mid.key).liability_shares.raw as int;
    let bd = spec_bad_debt_tokens(mid, lia);
    let residual = bd - spec_insurance_draw(mid, bd);
    &&& a.spec_has_active_slot(mid.key)
    &&& a.spec_active_slot(mid.key).liability_shares.raw > 0
    &&& lia <= mid.total_liability_shares.raw
    &&& mid.liquidity_vault_balance + spec_insurance_draw(mid, bd) <= u64::MAX
    &&& (residual > 0 ==> (mid.total_asset_shares.raw >= fx_frac()
        && spec_socialized_asset_share_value(mid, residual) >= 1))
}

/// Absorbs an insolvent account's residual debt in one bank: the insurance
/// vault pays as much as it holds; whatever is left is socialized by
/// writing the bank's asset share value down pro rata; the whole debt is
/// then forgiven. Only an account with no realizable collateral and some
/// debt qualifies.
pub fn lending_pool_handle_bankruptcy(
    group: &mut AstrolendGroup,
    account: &mut LendingAccount,
    bank_idx: usize,
    oracles: &Vec<OraclePrice>,
    now: i64,
) -> (r: Result<(), AstrolendError>)
    requires
        old(group).wf(),
        old(account).wf(),
        bank_idx < old(group).banks.len(),
        oracles.len() == old(group).banks.len(),
        forall|k: int| 0 <= k < oracles.len() ==> (#[trigger] oracles[k]).wf(),
        crate::instructions::account_keys_in_range(
            *old(account),
            old(group).banks.len() as int,
        ),
    ensures
        final(group).wf(),
        final(account).wf(),
        final(group).banks.len() == old(group).banks.len(),
        r is Err ==> group_unchanged(*old(group), *final(group)) && account_unchanged(
            *old(account),
            *final(account),
        ),
        r == Result::<(), AstrolendError>::Err(AstrolendError::AccountDisabled) <==> old(
            account,
        ).account_flags & DISABLED_FLAG != 0,
        crate::instructions::group_other_banks_unchanged(
            *old(group),
            *final(group),
            bank_idx as int,
        ),
        r is Ok ==> (exists|mid: Bank|
            #[trigger] Bank::accrual_ok(old(group).banks[bank_idx as int], mid, now)
                && bankruptcy_applied(mid, *old(account), final(group).banks[bank_idx as int],
            *final(account))),
        old(account).account_flags & DISABLED_FLAG == 0 ==> (r == Result::<
            (),
            AstrolendError,
        >::Err(AstrolendError::ClockRegression) <==> now < old(group).banks[
            bank_idx as int
        ].last_update),
        old(account).account_flags & DISABLED_FLAG == 0 && old(group).banks[
            bank_idx as int
        ].spec_accrual_promised(now) ==> ({
            let b1 = old(group).banks[bank_idx as int].spec_accrued(now);
            let banks1 = old(group).banks@.update(bank_idx as int, b1);
            let balances = old(account).balances@;
            let bankrupt = crate::risk::spec_weighted_assets(
                balances,
                banks1,
                oracles@,
                RiskRequirementType::Equity,
                balances.len() as int,
            ) == 0 && crate::risk::spec_weighted_liabilities(
                balances,
                banks1,
                oracles@,
                RiskRequirementType::Equity,
                balances.len() as int,
            ) > 0;
            crate::risk::spec_oracles_fresh(balances, banks1, oracles@, now)
                && crate::risk::spec_oracles_confident(balances, banks1, oracles@)
                && crate::risk::risk_inputs_bounded(balances, banks1, oracles@) ==> ({
                &&& (r == Result::<(), AstrolendError>::Err(AstrolendError::AccountNotBankrupt)
                    <==> !bankrupt)
                &&& (bankrupt ==> (r == Result::<(), AstrolendError>::Err(
                    AstrolendError::NoLiabilityFound,
                ) <==> !(old(account).spec_has_active_slot(b1.key) && old(
                    account,
                ).spec_active_slot(b1.key).liability_shares.raw > 0)))
                &&& (bankruptcy_promised(b1, *old(account)) && bankrupt ==> r is Ok)
            })
        }),
{
    if account.get_flag(DISABLED_FLAG) {
        return Err(AstrolendError::AccountDisabled);
    }
    let saved_bank = group.banks[bank_idx];
    let mut bank = saved_bank;
    match bank.accrue_interest(now) {
        Ok(_) => (),
        Err(e) => {
            return Err(e);
        },
    }
    let ghost mid = bank;
    group.banks.set(bank_idx, bank);
    proof {
        crate::instructions::lemma_group_set_wf(*old(group), *group, bank_idx as int);
    }
    let bankrupt = match crate::risk::is_account_bankrupt(account, &group.banks, oracles, now) {
        Ok(b) => b,
        Err(e) => {
            group.banks.set(bank_idx, saved_bank);
            proof {
                assert(group.banks@ =~= old(group).banks@);
            }
            return Err(e);
        },
    };
    if !bankrupt {
        group.banks.set(bank_idx, saved_bank);
        proof {
            assert(group.banks@ =~= old(group).banks@);
        }
        return Err(AstrolendError::AccountNotBankrupt);
    }
    let ghost a0 = *account;
    let idx = match account.find_balance_index(bank.key) {
        Some(i) => i,
        None => {
            group.banks.set(bank_idx, saved_bank);
            proof {
                assert(group.banks@ =~= old(group).banks@);
            }
            return Err(AstrolendError::NoLiabilityFound);
        },
    };
    proof {
        lemma_active_slot_index_unique(a0, bank.key, idx as int);
        crate::account::lemma_sum_is_slot(a0, bank.key, idx as int);
    }
    let slot = account.balances[idx];
    if slot.liability_shares.raw == 0 {
        group.banks.set(bank_idx, saved_bank);
        proof {
            assert(group.banks@ =~= old(group).banks@);
        }
        return Err(AstrolendError::NoLiabilityFound);
    }
    proof {
        if crate::risk::risk_inputs_bounded(a0.balances@, group.banks@, oracles@) {
            assert(a0.balances@[idx as int].active);
            assert(group.banks@[bank_idx as int] == bank);
            crate::bank::lemma_fx_mul_in_range(
                slot.liability_shares.raw as int,
                0x1_0000_0000_0000_0000_0000,
                bank.liability_share_value.raw as int,
                crate::bank::share_value_bound(),
            );
        }
    }
    let worth = match bank.get_liability_amount(slot.liability_shares) {
        Ok(v) => v,
        Err(e) => {
            group.banks.set(bank_idx, saved_bank);
            proof {
                assert(group.banks@ =~= old(group).banks@);
            }
            return Err(e);
        },
    };
    proof {
        crate::bank::lemma_fx_mul_nonneg(
            slot.liability_shares.raw as int,
            bank.liability_share_value.raw as int,
        );
    }
    let bad_debt = match worth.ceil_tokens() {
        Some(v) => v,
        None => {
            group.banks.set(bank_idx, saved_bank);
            proof {
                assert(group.banks@ =~= old(group).banks@);
            }
            return Err(AstrolendError::MathError);
        },
    };
    let draw = if bad_debt <= bank.insurance_vault_balance {
        bad_debt
    } else {
        bank.insurance_vault_balance
    };
    let residual = bad_debt - draw;
    proof {
        if bankruptcy_promised(bank, a0) {
            assert(bad_debt as int == spec_bad_debt_tokens(
                bank,
                slot.liability_shares.raw as int,
            ));
            assert(draw as int == spec_insurance_draw(bank, bad_debt as int));
        }
    }
    let mut new_bank = bank;
    if residual > 0 {
        if new_bank.total_asset_shares.raw <= 0 {
            group.banks.set(bank_idx, saved_bank);
            proof {
                assert(group.banks@ =~= old(group).banks@);
            }
            return Err(AstrolendError::MathError);
        }
        proof {
            if bankruptcy_promised(bank, a0) {
                crate::bank::lemma_fx_div_le_self(
                    residual * fx_frac(),
                    new_bank.total_asset_shares.raw as int,
                );
            }
        }
        let loss = match crate::fixed_point::fx_checked_div(
            Fx::from_tokens(residual),
            new_bank.total_asset_shares,
        ) {
            Some(v) => v,
            None => {
                group.banks.set(bank_idx, saved_bank);
                proof {
                    assert(group.banks@ =~= old(group).banks@);
                }
                return Err(AstrolendError::MathError);
            },
        };
        proof {
            lemma_mul_inequality(0, residual as int, fx_frac());
            lemma_mul_inequality(0, residual * fx_frac(), fx_frac());
            lemma_mul_is_commutative(residual * fx_frac(), fx_frac());
            lemma_div_pos_is_pos(
                (residual * fx_frac()) * fx_frac(),
                new_bank.total_asset_shares.raw as int,
            );
        }
        if new_bank.asset_share_value.raw - loss.raw < 1 {
            group.banks.set(bank_idx, saved_bank);
            proof {
                assert(group.banks@ =~= old(group).banks@);
            }
            return Err(AstrolendError::MathError);
        }
        new_bank.asset_share_value = Fx { raw: new_bank.asset_share_value.raw - loss.raw };
    }
    let new_total = match new_bank.total_liability_shares.checked_sub(slot.liability_shares) {
        Some(v) => v,
        None => {
            group.banks.set(bank_idx, saved_bank);
            proof {
                assert(group.banks@ =~= old(group).banks@);
            }
            return Err(AstrolendError::MathError);
        },
    };
    if new_total.raw < 0 {
        group.banks.set(bank_idx, saved_bank);
        proof {
            assert(group.banks@ =~= old(group).banks@);
        }
        return Err(AstrolendError::MathError);
    }
    new_bank.total_liability_shares = new_total;
    new_bank.insurance_vault_balance = new_bank.insurance_vault_balance - draw;
    if draw > u64::MAX - new_bank.liquidity_vault_balance {
        group.banks.set(bank_idx, saved_bank);
        proof {
            assert(group.banks@ =~= old(group).banks@);
        }
        return Err(AstrolendError::MathError);
    }
    new_bank.liquidity_vault_balance = new_bank.liquidity_vault_balance + draw;
    let new_slot = BalanceSlot { liability_shares: Fx { raw: 0 }, ..slot };
    account.balances.set(idx, new_slot);
    group.banks.set(bank_idx, new_bank);
    proof {
        commit_proof(a0, a0, *account, idx as int, new_slot, bank.key);
        assert(group.banks@ =~= old(group).banks@.update(
            bank_idx as int,
            group.banks@[bank_idx as int],
        ));
        crate::instructions::lemma_group_set_wf(*old(group), *group, bank_idx as int);
        assert(Bank::accrual_ok(old(group).banks@[bank_idx as int], mid, now)
            && bankruptcy_applied(mid, a0, group.banks@[bank_idx as int], *account));
    }
    Ok(())
}

/// Converts a non-negative value into liability-bank tokens at the given
/// (positive) conservatively-high price.
fn value_to_liab_tokens(v: Fx, pow_l_fx: Fx, price_high: Fx) -> (r: Result<Fx, AstrolendError>)
    requires
        v.raw >= 0,
        pow_l_fx.raw >= 0,
        price_high.raw > 0,
    ensures
        r matches Ok(t) ==> t.raw == fx_div_spec(
            fx_mul_spec(v.raw as int, pow_l_fx.raw as int),
            price_high.raw as int,
        ) && t.raw >= 0,
        r is Err ==> r == Result::<Fx, AstrolendError>::Err(AstrolendError::MathError),
        (fx_mul_spec(v.raw as int, pow_l_fx.raw as int) <= i128::MAX && fx_div_spec(
            fx_mul_spec(v.raw as int, pow_l_fx.raw as int),
            price_high.raw as int,
        ) <= i128::MAX) ==> r is Ok,
{
    let x = match crate::fixed_point::fx_checked_mul(v, pow_l_fx) {
        Some(x) => x,
        None => {
            return Err(AstrolendError::MathError);
        },
    };
    proof {
        crate::bank::lemma_fx_mul_nonneg(v.raw as int, pow_l_fx.raw as int);
        lemma_mul_inequality(0, x.raw as int, fx_frac());
        lemma_mul_is_commutative(x.raw as int, fx_frac());
        lemma_div_pos_is_pos(x.raw * fx_frac(), price_high.raw as int);
    }
    match crate::fixed_point::fx_checked_div(x, price_high) {
        Some(t) => Ok(t),
        None => Err(AstrolendError::MathError),
    }
}

/// After the four slot updates, both accounts still refer only to existing
/// banks.
proof fn lemma_effects_keys(
    or0: LendingAccount,
    or1: LendingAccount,
    ee0: LendingAccount,
    ee1: LendingAccount,
    g0: AstrolendGroup,
    g1: AstrolendGroup,
    a_idx: int,
    l_idx: int,
)
    requires
        g0.wf(),
        0 <= a_idx < g0.banks.len(),
        0 <= l_idx < g0.banks.len(),
        g1.banks.len() == g0.banks.len(),
        crate::instructions::account_keys_in_range(or0, g0.banks.len() as int),
        crate::instructions::account_keys_in_range(ee0, g0.banks.len() as int),
        or1.balances.len() == or0.balances.len(),
        ee1.balances.len() == ee0.balances.len(),
        forall|j: int|
            0 <= j < or1.balances.len() ==> ((#[trigger] or1.balances[j]).active ==> (
            or1.balances[j].bank_key == g0.banks[a_idx].key || or1.balances[j].bank_key
                == g0.banks[l_idx].key || (or0.balances[j].active && or1.balances[j].bank_key
                == or0.balances[j].bank_key))),
        forall|j: int|
            0 <= j < ee1.balances.len() ==> ((#[trigger] ee1.balances[j]).active ==> (
            ee1.balances[j].bank_key == g0.banks[a_idx].key || ee1.balances[j].bank_key
                == g0.banks[l_idx].key || (ee0.balances[j].active && ee1.balances[j].bank_key
                == ee0.balances[j].bank_key))),
    ensures
        crate::instructions::account_keys_in_range(or1, g1.banks.len() as int),
        crate::instructions::account_keys_in_range(ee1, g1.banks.len() as int),
{
    assert(g0.banks[a_idx].key == a_idx as u64);
    assert(g0.banks[l_idx].key == l_idx as u64);
}

} // verus!
