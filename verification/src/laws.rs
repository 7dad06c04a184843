use vstd::prelude::*;
use vstd::arithmetic::div_mod::{
    lemma_div_is_ordered, lemma_div_multiples_vanish, lemma_div_pos_is_pos,
    lemma_fundamental_div_mod,
};
use vstd::arithmetic::mul::{lemma_mul_inequality, lemma_mul_is_commutative};

use crate::account::{asset_shares_in, liability_shares_in, LendingAccount};
use crate::bank::Bank;
use crate::fixed_point::{fx_div_spec, fx_frac, fx_mul_spec};
use crate::liquidation::spec_socialized_asset_share_value;
use crate::ops::{deposit_applied, withdraw_applied};

verus! {

/// Raw asset shares a set of accounts together holds against one bank.
pub open spec fn accounts_asset_shares(accounts: Seq<LendingAccount>, bank_key: u64) -> int
    decreases accounts.len(),
{
    if accounts.len() == 0 {
        0
    } else {
        accounts_asset_shares(accounts.drop_last(), bank_key) + asset_shares_in(
            accounts.last().balances@,
            bank_key,
        )
    }
}

/// Raw liability shares a set of accounts together holds against one bank.
pub open spec fn accounts_liability_shares(accounts: Seq<LendingAccount>, bank_key: u64) -> int
    decreases accounts.len(),
{
    if accounts.len() == 0 {
        0
    } else {
        accounts_liability_shares(accounts.drop_last(), bank_key) + liability_shares_in(
            accounts.last().balances@,
            bank_key,
        )
    }
}

/// Share conservation: a bank's ledger totals equal the sums of its users'
/// positions.
pub open spec fn shares_conserved(accounts: Seq<LendingAccount>, bank: Bank) -> bool {
    &&& accounts_asset_shares(accounts, bank.key) == bank.total_asset_shares.raw
    &&& accounts_liability_shares(accounts, bank.key) == bank.total_liability_shares.raw
}

/// Replacing one account changes the global sums by exactly the change in
/// that account's sums.
pub proof fn lemma_accounts_sum_update(
    accounts: Seq<LendingAccount>,
    i: int,
    a1: LendingAccount,
    bank_key: u64,
)
    requires
        0 <= i < accounts.len(),
    ensures
        accounts_asset_shares(accounts.update(i, a1), bank_key) == accounts_asset_shares(
            accounts,
            bank_key,
        ) - asset_shares_in(accounts[i].balances@, bank_key) + asset_shares_in(
            a1.balances@,
            bank_key,
        ),
        accounts_liability_shares(accounts.update(i, a1), bank_key) == accounts_liability_shares(
            accounts,
            bank_key,
        ) - liability_shares_in(accounts[i].balances@, bank_key) + liability_shares_in(
            a1.balances@,
            bank_key,
        ),
    decreases accounts.len(),
{
    let t = accounts.update(i, a1);
    if i == accounts.len() - 1 {
        assert(t.drop_last() =~= accounts.drop_last());
        assert(t.last() == a1);
    } else {
        assert(t.drop_last() =~= accounts.drop_last().update(i, a1));
        assert(t.last() == accounts.last());
        lemma_accounts_sum_update(accounts.drop_last(), i, a1, bank_key);
    }
}

/// Share conservation is preserved by any operation whose account-side
/// share deltas match the bank-side ledger deltas — which the contracts of
/// deposit, withdrawal, borrow, repayment, liquidation and bankruptcy all
/// state. Holding after every operation, the bank's ledger is exactly the
/// sum of its users' positions.
pub proof fn law_share_conservation_preserved(
    accounts: Seq<LendingAccount>,
    i: int,
    a1: LendingAccount,
    b0: Bank,
    b1: Bank,
)
    requires
        0 <= i < accounts.len(),
        shares_conserved(accounts, b0),
        b1.key == b0.key,
        asset_shares_in(a1.balances@, b0.key) - asset_shares_in(accounts[i].balances@, b0.key)
            == b1.total_asset_shares.raw - b0.total_asset_shares.raw,
        liability_shares_in(a1.balances@, b0.key) - liability_shares_in(
            accounts[i].balances@,
            b0.key,
        ) == b1.total_liability_shares.raw - b0.total_liability_shares.raw,
    ensures
        shares_conserved(accounts.update(i, a1), b1),
{
    lemma_accounts_sum_update(accounts, i, a1, b0.key);
}

/// An operation on one bank leaves conservation against every other bank
/// untouched.
pub proof fn law_other_banks_conserved(
    accounts: Seq<LendingAccount>,
    i: int,
    a1: LendingAccount,
    other: Bank,
)
    requires
        0 <= i < accounts.len(),
        shares_conserved(accounts, other),
        asset_shares_in(a1.balances@, other.key) == asset_shares_in(
            accounts[i].balances@,
            other.key,
        ),
        liability_shares_in(a1.balances@, other.key) == liability_shares_in(
            accounts[i].balances@,
            other.key,
        ),
    ensures
        shares_conserved(accounts.update(i, a1), other),
{
    lemma_accounts_sum_update(accounts, i, a1, other.key);
}

/// Rounding discipline: a deposit immediately withdrawn in full never pays
/// out more tokens than were put in, whatever the share value.
pub proof fn law_deposit_withdraw_all_round_trip(av_raw: int, amount: u64)
    requires
        av_raw >= 1,
    ensures
        fx_mul_spec(fx_div_spec(amount * fx_frac(), av_raw), av_raw) / fx_frac() <= amount,
{
    let f = fx_frac();
    let x = amount * f;
    lemma_mul_inequality(0, amount as int, f);
    crate::fixed_point::lemma_div_then_mul_le(x, av_raw);
    let back = fx_mul_spec(fx_div_spec(x, av_raw), av_raw);
    // back <= amount * f, so its whole-token part is at most amount.
    lemma_div_is_ordered(back, x, f);
    lemma_mul_is_commutative(amount as int, f);
    lemma_div_multiples_vanish(amount as int, f);
}

/// Socialization writes the asset share value strictly down whenever a
/// residual of at least one token is spread over a bounded pool of
/// deposits.
pub proof fn law_socialization_strictly_decreases(mid: Bank, residual: int)
    requires
        residual >= 1,
        1 <= mid.total_asset_shares.raw <= crate::bank::shares_bound(),
    ensures
        spec_socialized_asset_share_value(mid, residual) < mid.asset_share_value.raw,
{
    let f = fx_frac();
    let a = mid.total_asset_shares.raw as int;
    let x = residual * f;
    lemma_mul_inequality(1, residual, f);
    // The written-down amount (x*f)/a is at least (f*f)/shares_bound >= 1.
    lemma_mul_inequality(f, x, f);
    lemma_div_is_ordered(f * f, x * f, a);
    vstd::arithmetic::div_mod::lemma_div_is_ordered_by_denominator(
        f * f,
        a,
        crate::bank::shares_bound(),
    );
}

/// Net pool value a bank's ledgers claim, in raw-squared scale: deposits
/// at the asset share value minus loans at the liability share value.
pub open spec fn spec_net_pool_value(b: Bank) -> int {
    b.total_asset_shares.raw * b.asset_share_value.raw - b.total_liability_shares.raw
        * b.liability_share_value.raw
}

/// A quotient rounded down, multiplied back, never exceeds the dividend.
proof fn lemma_floor_times_back(x: int, d: int)
    requires
        x >= 0,
        d > 0,
    ensures
        (x / d) * d <= x,
        x / d >= 0,
    decreases 0int,
{
    lemma_fundamental_div_mod(x, d);
    lemma_div_pos_is_pos(x, d);
    lemma_mul_is_commutative(x / d, d);
}

/// Solvency across a deposit: the tokens received into the liquidity vault
/// cover the growth of the pool's net value exactly.
pub proof fn law_deposit_preserves_solvency(
    b0: Bank,
    a0: LendingAccount,
    b1: Bank,
    a1: LendingAccount,
    amount: u64,
)
    requires
        b0.wf(),
        deposit_applied(b0, a0, b1, a1, amount),
    ensures
        (b1.liquidity_vault_balance - b0.liquidity_vault_balance) * (fx_frac() * fx_frac())
            >= spec_net_pool_value(b1) - spec_net_pool_value(b0),
{
    let f = fx_frac();
    let av = b0.asset_share_value.raw as int;
    let s = crate::ops::spec_deposit_shares(b0, amount);
    let x = (amount * f) * f;
    lemma_mul_inequality(0, amount as int, f);
    lemma_mul_inequality(0, amount * f, f);
    lemma_mul_is_commutative(amount * f, f);
    lemma_floor_times_back(x, av);
    assert(s * av <= x);
    assert(b1.total_asset_shares.raw * b1.asset_share_value.raw == b0.total_asset_shares.raw * av
        + s * av) by {
        vstd::arithmetic::mul::lemma_mul_is_distributive_add_other_way(
            av,
            b0.total_asset_shares.raw as int,
            s,
        );
    }
    assert((amount as int) * (f * f) == x) by {
        vstd::arithmetic::mul::lemma_mul_is_associative(amount as int, f, f);
    }
}

/// Solvency across a borrow: the tokens paid out of the liquidity vault
/// are matched by at least as much new debt on the ledger.
pub proof fn law_borrow_preserves_solvency(
    b0: Bank,
    a0: LendingAccount,
    b1: Bank,
    a1: LendingAccount,
    amount: u64,
)
    requires
        b0.wf(),
        crate::ops::borrow_applied(b0, a0, b1, a1, amount),
    ensures
        (b1.liquidity_vault_balance - b0.liquidity_vault_balance) * (fx_frac() * fx_frac())
            >= spec_net_pool_value(b1) - spec_net_pool_value(b0),
{
    let f = fx_frac();
    let lv = b0.liability_share_value.raw as int;
    let s = crate::ops::spec_borrow_shares(b0, amount);
    let x = (amount * f) * f;
    lemma_mul_inequality(0, amount as int, f);
    lemma_mul_inequality(0, amount * f, f);
    lemma_mul_is_commutative(amount * f, f);
    // The rounded-up share count covers the borrowed tokens.
    lemma_floor_times_back(x, lv);
    lemma_fundamental_div_mod(x, lv);
    assert(s * lv >= x) by {
        if x % lv == 0 {
            assert(s == x / lv);
        } else {
            assert(s == x / lv + 1);
            vstd::arithmetic::mul::lemma_mul_is_distributive_add_other_way(lv, x / lv, 1);
        }
    }
    assert(b1.total_liability_shares.raw * b1.liability_share_value.raw
        == b0.total_liability_shares.raw * lv + s * lv) by {
        vstd::arithmetic::mul::lemma_mul_is_distributive_add_other_way(
            lv,
            b0.total_liability_shares.raw as int,
            s,
        );
    }
    assert((amount as int) * (f * f) == x) by {
        vstd::arithmetic::mul::lemma_mul_is_associative(amount as int, f, f);
    }
    assert((-(amount as int)) * (f * f) == -x) by {
        vstd::arithmetic::mul::lemma_mul_unary_negation(amount as int, f * f);
    }
}

/// Solvency across a withdrawal: the ledger sheds at least as much claimed
/// value as the vault pays out.
pub proof fn law_withdraw_preserves_solvency(
    b0: Bank,
    a0: LendingAccount,
    b1: Bank,
    a1: LendingAccount,
    amount: u64,
    all: bool,
)
    requires
        b0.wf(),
        a0.wf(),
        withdraw_applied(b0, a0, b1, a1, amount, all),
        a0.spec_has_active_slot(b0.key),
    ensures
        (b1.liquidity_vault_balance - b0.liquidity_vault_balance) * (fx_frac() * fx_frac())
            >= spec_net_pool_value(b1) - spec_net_pool_value(b0),
{
    let f = fx_frac();
    let av = b0.asset_share_value.raw as int;
    let burn = crate::ops::spec_withdraw_burn(b0, a0, amount, all);
    let pay = crate::ops::spec_withdraw_payout(b0, a0, amount, all);
    if all {
        let shares = a0.spec_active_slot(b0.key).asset_shares.raw as int;
        let t = fx_mul_spec(shares, av);
        // pay * f <= t and t * f <= shares * av.
        lemma_mul_inequality(0, shares, av);
        lemma_floor_times_back(shares * av, f);
        lemma_div_pos_is_pos(shares * av, f);
        lemma_floor_times_back(t, f);
        assert(pay * f <= t);
        lemma_mul_inequality(pay, t / f * f / f, f);
        assert(pay * (f * f) <= shares * av) by {
            lemma_mul_inequality(pay * f, t, f);
            lemma_mul_is_commutative(pay * f, f);
            lemma_mul_is_commutative(t, f);
            vstd::arithmetic::mul::lemma_mul_is_associative(pay, f, f);
            assert(t * f <= (shares * av / f) * f * f);
            lemma_mul_inequality(shares * av / f * f, shares * av, f);
        }
        assert(b0.total_asset_shares.raw * av - b1.total_asset_shares.raw
            * b1.asset_share_value.raw == burn * av) by {
            vstd::arithmetic::mul::lemma_mul_is_distributive_sub_other_way(
                av,
                b0.total_asset_shares.raw as int,
                burn,
            );
        }
        assert((-pay) * (f * f) == -(pay * (f * f))) by {
            vstd::arithmetic::mul::lemma_mul_unary_negation(pay, f * f);
        }
    } else {
        let x = (amount * f) * f;
        lemma_mul_inequality(0, amount as int, f);
        lemma_mul_inequality(0, amount * f, f);
        lemma_mul_is_commutative(amount * f, f);
        lemma_fundamental_div_mod(x, av);
        lemma_floor_times_back(x, av);
        assert(burn * av >= x) by {
            if x % av == 0 {
                assert(burn == x / av);
            } else {
                assert(burn == x / av + 1);
                vstd::arithmetic::mul::lemma_mul_is_distributive_add_other_way(av, x / av, 1);
            }
        }
        assert(b0.total_asset_shares.raw * av - b1.total_asset_shares.raw
            * b1.asset_share_value.raw == burn * av) by {
            vstd::arithmetic::mul::lemma_mul_is_distributive_sub_other_way(
                av,
                b0.total_asset_shares.raw as int,
                burn,
            );
        }
        assert((amount as int) * (f * f) == x) by {
            vstd::arithmetic::mul::lemma_mul_is_associative(amount as int, f, f);
        }
        assert((-(amount as int)) * (f * f) == -x) by {
            vstd::arithmetic::mul::lemma_mul_unary_negation(amount as int, f * f);
        }
    }
}

/// Solvency across a partial repayment: the settled ledger debt never
/// exceeds the tokens received. (A full repayment rounds the payment up
/// and is covered to within one raw unit per share.)
pub proof fn law_repay_preserves_solvency(
    b0: Bank,
    a0: LendingAccount,
    b1: Bank,
    a1: LendingAccount,
    amount: u64,
)
    requires
        b0.wf(),
        crate::ops::repay_applied(b0, a0, b1, a1, amount, false),
    ensures
        (b1.liquidity_vault_balance - b0.liquidity_vault_balance) * (fx_frac() * fx_frac())
            >= spec_net_pool_value(b1) - spec_net_pool_value(b0),
{
    let f = fx_frac();
    let lv = b0.liability_share_value.raw as int;
    let burn = crate::ops::spec_repay_burn(b0, a0, amount, false);
    let x = (amount * f) * f;
    lemma_mul_inequality(0, amount as int, f);
    lemma_mul_inequality(0, amount * f, f);
    lemma_mul_is_commutative(amount * f, f);
    lemma_floor_times_back(x, lv);
    assert(burn * lv <= x);
    assert(b0.total_liability_shares.raw * lv - b1.total_liability_shares.raw
        * b1.liability_share_value.raw == burn * lv) by {
        vstd::arithmetic::mul::lemma_mul_is_distributive_sub_other_way(
            lv,
            b0.total_liability_shares.raw as int,
            burn,
        );
    }
    assert((amount as int) * (f * f) == x) by {
        vstd::arithmetic::mul::lemma_mul_is_associative(amount as int, f, f);
    }
}

/// Slot exclusivity: in any well-formed account, an active slot is purely
/// a deposit or purely a borrow.
pub proof fn law_slot_exclusivity(a: LendingAccount, i: int)
    requires
        a.wf(),
        0 <= i < a.balances.len(),
        a.balances[i].active,
    ensures
        a.balances[i].asset_shares.raw == 0 || a.balances[i].liability_shares.raw == 0,
{
}

} // verus!
