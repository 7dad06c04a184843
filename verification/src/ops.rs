use vstd::prelude::*;
use vstd::arithmetic::div_mod::{
    lemma_div_is_ordered_by_denominator, lemma_div_multiples_vanish, lemma_div_pos_is_pos,
};
use vstd::arithmetic::mul::{
    lemma_mul_inequality, lemma_mul_is_associative, lemma_mul_is_commutative,
};

use crate::account::{
    asset_shares_in, lemma_active_slot_index_unique, lemma_shares_sum_update,
    liability_shares_in, BalanceSlot, LendingAccount,
};
use crate::bank::{share_value_bound, shares_bound, Bank, BankOperationalState, RiskTier};
use crate::errors::AstrolendError;
use crate::fixed_point::{fx_div_spec, fx_frac, fx_mul_spec, Fx, FX_FRAC_RAW};

verus! {

/// A balance-table operation may touch only the bank's ledgers and its
/// liquidity vault.
pub open spec fn bank_same_but_ledgers(pre: Bank, post: Bank) -> bool {
    post == (Bank {
        total_asset_shares: post.total_asset_shares,
        total_liability_shares: post.total_liability_shares,
        liquidity_vault_balance: post.liquidity_vault_balance,
        ..pre
    })
}

/// A balance-table operation may touch only the account's balance table.
pub open spec fn account_same_but_balances(pre: LendingAccount, post: LendingAccount) -> bool {
    &&& post.group == pre.group
    &&& post.authority == pre.authority
    &&& post.account_flags == pre.account_flags
    &&& post.balances.len() == pre.balances.len()
}

/// Positions against every other bank are untouched.
pub open spec fn other_sums_unchanged(
    pre: LendingAccount,
    post: LendingAccount,
    bank_key: u64,
) -> bool {
    forall|k: u64|
        k != bank_key ==> #[trigger] asset_shares_in(post.balances@, k) == asset_shares_in(
            pre.balances@,
            k,
        ) && liability_shares_in(post.balances@, k) == liability_shares_in(pre.balances@, k)
}

/// An operation binds slots only to the bank it acts on: any active slot
/// after the call either kept its bank or is the acted-on bank's slot.
pub open spec fn slot_keys_preserved(
    a0: LendingAccount,
    a1: LendingAccount,
    bank_key: u64,
) -> bool {
    forall|j: int|
        0 <= j < a1.balances.len() ==> ((#[trigger] a1.balances[j]).active ==> (a1.balances[
            j
        ].bank_key == bank_key || (0 <= j < a0.balances.len() && a0.balances[j].active
            && a1.balances[j].bank_key == a0.balances[j].bank_key)))
}

/// Asset shares credited for a deposit of `amount` tokens: rounded down.
pub open spec fn spec_deposit_shares(bank: Bank, amount: u64) -> int {
    fx_div_spec(amount * fx_frac(), bank.asset_share_value.raw as int)
}

/// The exact effect of a successful deposit: the user's position and the
/// bank's ledger grow by the same share count, and the deposited tokens
/// land in the liquidity vault.
pub open spec fn deposit_applied(
    b0: Bank,
    a0: LendingAccount,
    b1: Bank,
    a1: LendingAccount,
    amount: u64,
) -> bool {
    let s = spec_deposit_shares(b0, amount);
    &&& bank_same_but_ledgers(b0, b1)
    &&& account_same_but_balances(a0, a1)
    &&& slot_keys_preserved(a0, a1, b0.key)
    &&& other_sums_unchanged(a0, a1, b0.key)
    &&& asset_shares_in(a1.balances@, b0.key) == asset_shares_in(a0.balances@, b0.key) + s
    &&& liability_shares_in(a1.balances@, b0.key) == liability_shares_in(a0.balances@, b0.key)
    &&& b1.total_asset_shares.raw == b0.total_asset_shares.raw + s
    &&& b1.total_liability_shares == b0.total_liability_shares
    &&& b1.liquidity_vault_balance == b0.liquidity_vault_balance + amount
}

/// Bounds on one account position under which the contracts promise that
/// checked arithmetic succeeds.
pub open spec fn slot_amounts_bounded(a: LendingAccount, bank_key: u64) -> bool {
    a.spec_has_active_slot(bank_key) ==> a.spec_active_slot(bank_key).asset_shares.raw
        <= shares_bound() && a.spec_active_slot(bank_key).liability_shares.raw <= shares_bound()
}

/// Hypotheses under which a deposit is promised to run out of nothing but
/// its stated checks: sane magnitudes, an operational bank, a pure-deposit
/// slot (or room to allocate one), and vault room for the tokens.
pub open spec fn deposit_promised(b: Bank, a: LendingAccount, amount: u64) -> bool {
    &&& b.amounts_bounded()
    &&& b.asset_share_value.raw >= fx_frac() / 16
    &&& slot_amounts_bounded(a, b.key)
    &&& b.liquidity_vault_balance + amount <= u64::MAX
    &&& b.config.operational_state == BankOperationalState::Operational
    &&& (a.spec_has_active_slot(b.key) ==> a.spec_active_slot(b.key).liability_shares.raw == 0)
    &&& (!a.spec_has_active_slot(b.key) ==> a.spec_has_free_slot())
}

/// Shares credited for `amount` tokens stay small while the share value is
/// at least one sixteenth.
proof fn lemma_deposit_shares_fit(av_raw: int, amount: int)
    requires
        av_raw >= fx_frac() / 16,
        0 <= amount <= u64::MAX,
    ensures
        0 <= fx_div_spec(amount * fx_frac(), av_raw) <= 0x10_0000_0000_0000_0000_0000_0000_0000,
{
    let f = fx_frac();
    let x = amount * f;
    lemma_mul_inequality(0, amount, f);
    lemma_mul_inequality(0, x, f);
    lemma_mul_is_commutative(x, f);
    lemma_div_pos_is_pos(x * f, av_raw);
    lemma_div_is_ordered_by_denominator(x * f, f / 16, av_raw);
    // (x*f) / (f/16) == 16*x.
    assert(x * f == (f / 16) * (16 * x)) by {
        lemma_mul_is_associative(f / 16, 16, x);
        lemma_mul_is_commutative(x, f);
    }
    lemma_div_multiples_vanish(16 * x, f / 16);
    lemma_mul_inequality(amount, u64::MAX as int, f);
}

/// Records an asset deposit: converts `amount` tokens to asset shares
/// rounded down, credits them to the user's slot for this bank (allocating
/// one if needed) and to the bank's total, and receives the tokens into the
/// liquidity vault. The deposit limit is enforced on the post-state; a
/// deposit of zero is accepted and changes no share count.
pub fn bank_account_deposit(bank: &mut Bank, account: &mut LendingAccount, amount: u64) -> (r:
    Result<(), AstrolendError>)
    requires
        old(bank).wf(),
        old(account).wf(),
    ensures
        final(bank).wf(),
        final(account).wf(),
        r is Err ==> *final(bank) == *old(bank) && *final(account) == *old(account),
        r == Result::<(), AstrolendError>::Err(AstrolendError::BankPaused) <==> old(
            bank,
        ).config.operational_state == BankOperationalState::Paused,
        old(bank).config.operational_state != BankOperationalState::Paused ==> (r == Result::<
            (),
            AstrolendError,
        >::Err(AstrolendError::IllegalAction) <==> old(bank).config.operational_state
            == BankOperationalState::ReduceOnly),
        old(bank).config.operational_state == BankOperationalState::Operational ==> (r
            == Result::<(), AstrolendError>::Err(AstrolendError::OperationDepositOnly) <==> (old(
            account,
        ).spec_has_active_slot(old(bank).key) && old(account).spec_active_slot(
            old(bank).key,
        ).liability_shares.raw != 0)),
        old(bank).config.operational_state == BankOperationalState::Operational && !(old(
            account,
        ).spec_has_active_slot(old(bank).key) && old(account).spec_active_slot(
            old(bank).key,
        ).liability_shares.raw != 0) ==> (r == Result::<(), AstrolendError>::Err(
            AstrolendError::LendingAccountFull,
        ) <==> (!old(account).spec_has_active_slot(old(bank).key) && !old(
            account,
        ).spec_has_free_slot())),
        r is Err ==> (r == Result::<(), AstrolendError>::Err(AstrolendError::BankPaused) || r
            == Result::<(), AstrolendError>::Err(AstrolendError::IllegalAction) || r == Result::<
            (),
            AstrolendError,
        >::Err(AstrolendError::OperationDepositOnly) || r == Result::<(), AstrolendError>::Err(
            AstrolendError::LendingAccountFull,
        ) || r == Result::<(), AstrolendError>::Err(AstrolendError::MathError) || r == Result::<
            (),
            AstrolendError,
        >::Err(AstrolendError::DepositLimitExceeded)),
        r is Ok ==> deposit_applied(
            *old(bank),
            *old(account),
            *final(bank),
            *final(account),
            amount,
        ),
        r is Ok ==> fx_mul_spec(
            final(bank).total_asset_shares.raw as int,
            final(bank).asset_share_value.raw as int,
        ) <= old(bank).config.deposit_limit * fx_frac(),
        deposit_promised(*old(bank), *old(account), amount) ==> (r is Ok <==> fx_mul_spec(
            old(bank).total_asset_shares.raw + spec_deposit_shares(*old(bank), amount),
            old(bank).asset_share_value.raw as int,
        ) <= old(bank).config.deposit_limit * fx_frac()),
        deposit_promised(*old(bank), *old(account), amount) ==> (r == Result::<
            (),
            AstrolendError,
        >::Err(AstrolendError::DepositLimitExceeded) <==> fx_mul_spec(
            old(bank).total_asset_shares.raw + spec_deposit_shares(*old(bank), amount),
            old(bank).asset_share_value.raw as int,
        ) > old(bank).config.deposit_limit * fx_frac()),
{
    if bank.config.operational_state == BankOperationalState::Paused {
        return Err(AstrolendError::BankPaused);
    }
    if bank.config.operational_state == BankOperationalState::ReduceOnly {
        return Err(AstrolendError::IllegalAction);
    }
    let ghost a0 = *account;
    let ghost b0 = *bank;
    let ghost promised = deposit_promised(*bank, *account, amount);

    // Read-only phase: find the slot state and validate everything.
    let found = account.find_balance_index(bank.key);
    let cur_shares: Fx = match found {
        Some(i) => {
            proof {
                lemma_active_slot_index_unique(a0, b0.key, i as int);
            }
            if account.balances[i].liability_shares.raw != 0 {
                return Err(AstrolendError::OperationDepositOnly);
            }
            account.balances[i].asset_shares
        },
        None => {
            if !account.has_free_slot() {
                return Err(AstrolendError::LendingAccountFull);
            }
            Fx { raw: 0 }
        },
    };
    let tokens = Fx::from_tokens(amount);
    proof {
        if promised {
            lemma_deposit_shares_fit(bank.asset_share_value.raw as int, amount as int);
        }
    }
    let shares = match bank.get_asset_shares_floor(tokens) {
        Ok(s) => s,
        Err(e) => {
            return Err(e);
        },
    };
    proof {
        lemma_mul_inequality(0, amount as int, fx_frac());
        lemma_mul_inequality(0, amount * fx_frac(), fx_frac());
        lemma_mul_is_commutative(amount * fx_frac(), fx_frac());
        lemma_div_pos_is_pos((amount * fx_frac()) * fx_frac(), bank.asset_share_value.raw as int);
    }
    let new_slot_shares = match cur_shares.checked_add(shares) {
        Some(v) => v,
        None => {
            return Err(AstrolendError::MathError);
        },
    };
    let new_total = match bank.total_asset_shares.checked_add(shares) {
        Some(v) => v,
        None => {
            return Err(AstrolendError::MathError);
        },
    };
    proof {
        if promised {
            crate::bank::lemma_fx_mul_in_range(
                new_total.raw as int,
                shares_bound() + 0x10_0000_0000_0000_0000_0000_0000_0000,
                bank.asset_share_value.raw as int,
                share_value_bound(),
            );
        }
    }
    let total_tokens = match crate::fixed_point::fx_checked_mul(
        new_total,
        bank.asset_share_value,
    ) {
        Some(v) => v,
        None => {
            return Err(AstrolendError::MathError);
        },
    };
    if total_tokens.raw > (bank.config.deposit_limit as i128) * FX_FRAC_RAW {
        return Err(AstrolendError::DepositLimitExceeded);
    }
    if amount > u64::MAX - bank.liquidity_vault_balance {
        return Err(AstrolendError::MathError);
    }

    // Commit phase: cannot fail any more.
    let idx = match account.find_or_create_balance_index(bank.key) {
        Ok(i) => i,
        Err(_) => unreached(),
    };
    let ghost a_mid = *account;
    proof {
        if a0.spec_has_active_slot(b0.key) {
            lemma_active_slot_index_unique(a0, b0.key, idx as int);
        }
    }
    let slot = account.balances[idx];
    let new_slot = BalanceSlot { asset_shares: new_slot_shares, ..slot };
    account.balances.set(idx, new_slot);
    bank.total_asset_shares = new_total;
    bank.liquidity_vault_balance = bank.liquidity_vault_balance + amount;
    proof {
        commit_proof(a0, a_mid, *account, idx as int, new_slot, b0.key);
        assert(asset_shares_in(account.balances@, b0.key) == asset_shares_in(a0.balances@, b0.key)
            + shares.raw);
    }
    Ok(())
}

/// Asset shares burned by a withdrawal: everything for `withdraw_all`,
/// otherwise the token amount converted rounding up.
pub open spec fn spec_withdraw_burn(b: Bank, a: LendingAccount, amount: u64, all: bool) -> int {
    if all {
        a.spec_active_slot(b.key).asset_shares.raw as int
    } else {
        crate::fixed_point::fx_div_ceil_spec(amount * fx_frac(), b.asset_share_value.raw as int)
    }
}

/// Tokens paid out by a withdrawal: the exact token worth rounded down for
/// `withdraw_all`, otherwise the requested amount.
pub open spec fn spec_withdraw_payout(b: Bank, a: LendingAccount, amount: u64, all: bool) -> int {
    if all {
        fx_mul_spec(
            a.spec_active_slot(b.key).asset_shares.raw as int,
            b.asset_share_value.raw as int,
        ) / fx_frac()
    } else {
        amount as int
    }
}

/// The slot a successful withdrawal leaves behind.
pub open spec fn spec_withdraw_post_slot(
    b: Bank,
    a: LendingAccount,
    amount: u64,
    all: bool,
) -> BalanceSlot {
    let slot = a.spec_active_slot(b.key);
    if all && slot.emissions_outstanding.raw == 0 {
        BalanceSlot::empty_spec()
    } else {
        BalanceSlot {
            asset_shares: Fx {
                raw: (slot.asset_shares.raw - spec_withdraw_burn(b, a, amount, all)) as i128,
            },
            ..slot
        }
    }
}

/// The bank a successful withdrawal leaves behind.
pub open spec fn spec_withdraw_post_bank(
    b: Bank,
    a: LendingAccount,
    amount: u64,
    all: bool,
) -> Bank {
    Bank {
        total_asset_shares: Fx {
            raw: (b.total_asset_shares.raw - spec_withdraw_burn(b, a, amount, all)) as i128,
        },
        liquidity_vault_balance: (b.liquidity_vault_balance - spec_withdraw_payout(
            b,
            a,
            amount,
            all,
        )) as u64,
        ..b
    }
}

/// The exact effect of a successful withdrawal.
pub open spec fn withdraw_applied(
    b0: Bank,
    a0: LendingAccount,
    b1: Bank,
    a1: LendingAccount,
    amount: u64,
    all: bool,
) -> bool {
    let burn = spec_withdraw_burn(b0, a0, amount, all);
    let pay = spec_withdraw_payout(b0, a0, amount, all);
    &&& bank_same_but_ledgers(b0, b1)
    &&& account_same_but_balances(a0, a1)
    &&& slot_keys_preserved(a0, a1, b0.key)
    &&& other_sums_unchanged(a0, a1, b0.key)
    &&& asset_shares_in(a1.balances@, b0.key) == asset_shares_in(a0.balances@, b0.key) - burn
    &&& liability_shares_in(a1.balances@, b0.key) == liability_shares_in(a0.balances@, b0.key)
    &&& b1.total_asset_shares.raw == b0.total_asset_shares.raw - burn
    &&& b1.total_liability_shares == b0.total_liability_shares
    &&& b1.liquidity_vault_balance == b0.liquidity_vault_balance - pay
}

/// Hypotheses under which a withdrawal is promised to run out of nothing
/// but its stated checks.
pub open spec fn withdraw_promised(b: Bank, a: LendingAccount, amount: u64, all: bool) -> bool {
    &&& b.amounts_bounded()
    &&& b.asset_share_value.raw >= fx_frac() / 16
    &&& slot_amounts_bounded(a, b.key)
    &&& b.config.operational_state != BankOperationalState::Paused
    &&& a.spec_has_active_slot(b.key)
    &&& a.spec_active_slot(b.key).liability_shares.raw == 0
    &&& a.spec_active_slot(b.key).asset_shares.raw > 0
    &&& a.spec_active_slot(b.key).asset_shares.raw <= b.total_asset_shares.raw
    &&& spec_withdraw_payout(b, a, amount, all) <= b.liquidity_vault_balance
}

/// Records a withdrawal: burns asset shares rounded up (all of them for
/// `withdraw_all`), pays the tokens out of the liquidity vault, and leaves
/// the pool no more utilized than one. `withdraw_all` collapses the slot;
/// the slot is freed once no emissions remain outstanding on it.
pub fn bank_account_withdraw(
    bank: &mut Bank,
    account: &mut LendingAccount,
    amount: u64,
    withdraw_all: bool,
) -> (r: Result<u64, AstrolendError>)
    requires
        old(bank).wf(),
        old(account).wf(),
    ensures
        final(bank).wf(),
        final(account).wf(),
        r is Err ==> *final(bank) == *old(bank) && *final(account) == *old(account),
        r == Result::<u64, AstrolendError>::Err(AstrolendError::BankPaused) <==> old(
            bank,
        ).config.operational_state == BankOperationalState::Paused,
        old(bank).config.operational_state != BankOperationalState::Paused ==> (r == Result::<
            u64,
            AstrolendError,
        >::Err(AstrolendError::BankAccountNotFound) <==> !old(account).spec_has_active_slot(
            old(bank).key,
        )),
        old(bank).config.operational_state != BankOperationalState::Paused && old(
            account,
        ).spec_has_active_slot(old(bank).key) ==> (r == Result::<u64, AstrolendError>::Err(
            AstrolendError::OperationWithdrawOnly,
        ) <==> old(account).spec_active_slot(old(bank).key).liability_shares.raw != 0),
        r matches Ok(pay) ==> pay == spec_withdraw_payout(
            *old(bank),
            *old(account),
            amount,
            withdraw_all,
        ),
        r is Err ==> (r == Result::<u64, AstrolendError>::Err(AstrolendError::BankPaused) || r
            == Result::<u64, AstrolendError>::Err(AstrolendError::BankAccountNotFound) || r
            == Result::<u64, AstrolendError>::Err(AstrolendError::OperationWithdrawOnly) || r
            == Result::<u64, AstrolendError>::Err(AstrolendError::NoAssetFound) || r == Result::<
            u64,
            AstrolendError,
        >::Err(AstrolendError::MathError) || r == Result::<u64, AstrolendError>::Err(
            AstrolendError::IllegalUtilizationRatio,
        )),
        r is Ok ==> withdraw_applied(
            *old(bank),
            *old(account),
            *final(bank),
            *final(account),
            amount,
            withdraw_all,
        ),
        r is Ok ==> final(account).balances@ == old(account).balances@.update(
            old(account).spec_active_slot_index(old(bank).key),
            spec_withdraw_post_slot(*old(bank), *old(account), amount, withdraw_all),
        ),
        r is Ok ==> *final(bank) == spec_withdraw_post_bank(
            *old(bank),
            *old(account),
            amount,
            withdraw_all,
        ),
        r is Ok ==> fx_mul_spec(
            final(bank).total_liability_shares.raw as int,
            final(bank).liability_share_value.raw as int,
        ) <= fx_mul_spec(
            final(bank).total_asset_shares.raw as int,
            final(bank).asset_share_value.raw as int,
        ),
        withdraw_promised(*old(bank), *old(account), amount, withdraw_all) ==> (r is Ok <==> (
        withdraw_all || spec_withdraw_burn(*old(bank), *old(account), amount, withdraw_all) <= old(
            account,
        ).spec_active_slot(old(bank).key).asset_shares.raw) && fx_mul_spec(
            old(bank).total_liability_shares.raw as int,
            old(bank).liability_share_value.raw as int,
        ) <= fx_mul_spec(
            old(bank).total_asset_shares.raw - spec_withdraw_burn(
                *old(bank),
                *old(account),
                amount,
                withdraw_all,
            ),
            old(bank).asset_share_value.raw as int,
        )),
        withdraw_promised(*old(bank), *old(account), amount, withdraw_all) ==> (r == Result::<
            u64,
            AstrolendError,
        >::Err(AstrolendError::NoAssetFound) <==> (!withdraw_all && spec_withdraw_burn(
            *old(bank),
            *old(account),
            amount,
            withdraw_all,
        ) > old(account).spec_active_slot(old(bank).key).asset_shares.raw)),
        withdraw_promised(*old(bank), *old(account), amount, withdraw_all) ==> (r == Result::<
            u64,
            AstrolendError,
        >::Err(AstrolendError::IllegalUtilizationRatio) <==> ((withdraw_all
            || spec_withdraw_burn(*old(bank), *old(account), amount, withdraw_all) <= old(
            account,
        ).spec_active_slot(old(bank).key).asset_shares.raw) && fx_mul_spec(
            old(bank).total_liability_shares.raw as int,
            old(bank).liability_share_value.raw as int,
        ) > fx_mul_spec(
            old(bank).total_asset_shares.raw - spec_withdraw_burn(
                *old(bank),
                *old(account),
                amount,
                withdraw_all,
            ),
            old(bank).asset_share_value.raw as int,
        ))),
{
    if bank.config.operational_state == BankOperationalState::Paused {
        return Err(AstrolendError::BankPaused);
    }
    let ghost a0 = *account;
    let ghost b0 = *bank;
    let ghost promised = withdraw_promised(*bank, *account, amount, withdraw_all);
    let idx = match account.find_balance_index(bank.key) {
        Some(i) => i,
        None => {
            return Err(AstrolendError::BankAccountNotFound);
        },
    };
    proof {
        lemma_active_slot_index_unique(a0, b0.key, idx as int);
    }
    let slot = account.balances[idx];
    if slot.liability_shares.raw != 0 {
        return Err(AstrolendError::OperationWithdrawOnly);
    }
    if slot.asset_shares.raw == 0 {
        return Err(AstrolendError::NoAssetFound);
    }
    proof {
        if promised {
            crate::bank::lemma_fx_mul_in_range(
                slot.asset_shares.raw as int,
                shares_bound(),
                bank.asset_share_value.raw as int,
                share_value_bound(),
            );
            lemma_deposit_shares_fit(bank.asset_share_value.raw as int, amount as int);
        }
    }
    let (burn, payout): (Fx, u64) = if withdraw_all {
        let worth = match bank.get_asset_amount(slot.asset_shares) {
            Ok(v) => v,
            Err(e) => {
                return Err(e);
            },
        };
        proof {
            crate::bank::lemma_fx_mul_nonneg(
                slot.asset_shares.raw as int,
                bank.asset_share_value.raw as int,
            );
        }
        let pay = match worth.floor_tokens() {
            Some(p) => p,
            None => {
                return Err(AstrolendError::MathError);
            },
        };
        (slot.asset_shares, pay)
    } else {
        let tokens = Fx::from_tokens(amount);
        let b = match bank.get_asset_shares_ceil(tokens) {
            Ok(v) => v,
            Err(e) => {
                return Err(e);
            },
        };
        proof {
            lemma_mul_inequality(0, amount as int, fx_frac());
            lemma_mul_inequality(0, amount * fx_frac(), fx_frac());
            lemma_mul_is_commutative(amount * fx_frac(), fx_frac());
            lemma_div_pos_is_pos(
                (amount * fx_frac()) * fx_frac(),
                bank.asset_share_value.raw as int,
            );
        }
        if b.raw > slot.asset_shares.raw {
            return Err(AstrolendError::NoAssetFound);
        }
        (b, amount)
    };
    let new_slot_shares = Fx { raw: slot.asset_shares.raw - burn.raw };
    let new_total = match bank.total_asset_shares.checked_sub(burn) {
        Some(v) => v,
        None => {
            return Err(AstrolendError::MathError);
        },
    };
    if new_total.raw < 0 {
        return Err(AstrolendError::MathError);
    }
    proof {
        if promised {
            crate::bank::lemma_fx_mul_in_range(
                new_total.raw as int,
                shares_bound(),
                bank.asset_share_value.raw as int,
                share_value_bound(),
            );
            crate::bank::lemma_fx_mul_in_range(
                bank.total_liability_shares.raw as int,
                shares_bound(),
                bank.liability_share_value.raw as int,
                share_value_bound(),
            );
        }
    }
    let new_asset_tokens = match crate::fixed_point::fx_checked_mul(
        new_total,
        bank.asset_share_value,
    ) {
        Some(v) => v,
        None => {
            return Err(AstrolendError::MathError);
        },
    };
    let liab_tokens = match crate::fixed_point::fx_checked_mul(
        bank.total_liability_shares,
        bank.liability_share_value,
    ) {
        Some(v) => v,
        None => {
            return Err(AstrolendError::MathError);
        },
    };
    if liab_tokens.raw > new_asset_tokens.raw {
        return Err(AstrolendError::IllegalUtilizationRatio);
    }
    if payout > bank.liquidity_vault_balance {
        return Err(AstrolendError::MathError);
    }
    // Commit phase.
    let new_slot = if withdraw_all && slot.emissions_outstanding.raw == 0 {
        BalanceSlot::empty()
    } else {
        BalanceSlot { asset_shares: new_slot_shares, ..slot }
    };
    account.balances.set(idx, new_slot);
    bank.total_asset_shares = new_total;
    bank.liquidity_vault_balance = bank.liquidity_vault_balance - payout;
    proof {
        commit_proof(a0, a0, *account, idx as int, new_slot, b0.key);
    }
    Ok(payout)
}

/// Frees the slot an account holds in a bank. Closing requires the slot to
/// carry nothing: no shares on either side and no unsettled emissions.
/// Closing a bank the account holds no slot in is a no-op, making the
/// operation idempotent.
pub fn bank_account_close_balance(bank: &Bank, account: &mut LendingAccount) -> (r: Result<
    (),
    AstrolendError,
>)
    requires
        bank.wf(),
        old(account).wf(),
    ensures
        final(account).wf(),
        r is Err ==> *final(account) == *old(account),
        r is Ok <==> (!old(account).spec_has_active_slot(bank.key) || (old(
            account,
        ).spec_active_slot(bank.key).asset_shares.raw == 0 && old(account).spec_active_slot(
            bank.key,
        ).liability_shares.raw == 0 && old(account).spec_active_slot(
            bank.key,
        ).emissions_outstanding.raw == 0)),
        r is Err ==> r == Result::<(), AstrolendError>::Err(AstrolendError::IllegalAction),
        r is Ok ==> !final(account).spec_has_active_slot(bank.key),
        r is Ok ==> account_same_but_balances(*old(account), *final(account)),
        r is Ok ==> slot_keys_preserved(*old(account), *final(account), bank.key),
        r is Ok ==> other_sums_unchanged(*old(account), *final(account), bank.key),
        r is Ok ==> asset_shares_in(final(account).balances@, bank.key) == asset_shares_in(
            old(account).balances@,
            bank.key,
        ) && liability_shares_in(final(account).balances@, bank.key) == liability_shares_in(
            old(account).balances@,
            bank.key,
        ),
{
    let ghost a0 = *account;
    let idx = match account.find_balance_index(bank.key) {
        Some(i) => i,
        None => {
            return Ok(());
        },
    };
    proof {
        lemma_active_slot_index_unique(a0, bank.key, idx as int);
    }
    let slot = account.balances[idx];
    if slot.asset_shares.raw != 0 || slot.liability_shares.raw != 0
        || slot.emissions_outstanding.raw != 0 {
        return Err(AstrolendError::IllegalAction);
    }
    let new_slot = BalanceSlot::empty();
    account.balances.set(idx, new_slot);
    proof {
        commit_proof(a0, a0, *account, idx as int, new_slot, bank.key);
        assert forall|i: int|
            0 <= i < account.balances.len() implies !((#[trigger] account.balances[i]).active
            && account.balances[i].bank_key == bank.key) by {
            if i != idx {
                assert(account.balances[i] == a0.balances[i]);
                if account.balances[i].active && account.balances[i].bank_key == bank.key {
                    lemma_active_slot_index_unique(a0, bank.key, i);
                }
            }
        }
    }
    Ok(())
}

/// Whether the account carries a debt in any bank other than `bank_key`.
pub open spec fn spec_has_other_active_liability(a: LendingAccount, bank_key: u64) -> bool {
    exists|i: int|
        0 <= i < a.balances.len() && (#[trigger] a.balances[i]).active && a.balances[i].bank_key
            != bank_key && a.balances[i].liability_shares.raw > 0
}

/// Liability shares incurred by a borrow of `amount` tokens: rounded up.
pub open spec fn spec_borrow_shares(bank: Bank, amount: u64) -> int {
    crate::fixed_point::fx_div_ceil_spec(amount * fx_frac(), bank.liability_share_value.raw as int)
}

/// The slot a successful borrow leaves behind.
pub open spec fn spec_borrow_post_slot(b: Bank, a: LendingAccount, amount: u64) -> BalanceSlot {
    let s = spec_borrow_shares(b, amount);
    if a.spec_has_active_slot(b.key) {
        let slot = a.spec_active_slot(b.key);
        BalanceSlot {
            liability_shares: Fx { raw: (slot.liability_shares.raw + s) as i128 },
            ..slot
        }
    } else {
        BalanceSlot {
            active: true,
            bank_key: b.key,
            liability_shares: Fx { raw: s as i128 },
            ..BalanceSlot::empty_spec()
        }
    }
}

/// The bank a successful borrow leaves behind.
pub open spec fn spec_borrow_post_bank(b: Bank, amount: u64) -> Bank {
    Bank {
        total_liability_shares: Fx {
            raw: (b.total_liability_shares.raw + spec_borrow_shares(b, amount)) as i128,
        },
        liquidity_vault_balance: (b.liquidity_vault_balance - amount) as u64,
        ..b
    }
}

/// The exact effect of a successful borrow.
pub open spec fn borrow_applied(
    b0: Bank,
    a0: LendingAccount,
    b1: Bank,
    a1: LendingAccount,
    amount: u64,
) -> bool {
    let s = spec_borrow_shares(b0, amount);
    &&& bank_same_but_ledgers(b0, b1)
    &&& account_same_but_balances(a0, a1)
    &&& slot_keys_preserved(a0, a1, b0.key)
    &&& other_sums_unchanged(a0, a1, b0.key)
    &&& asset_shares_in(a1.balances@, b0.key) == asset_shares_in(a0.balances@, b0.key)
    &&& liability_shares_in(a1.balances@, b0.key) == liability_shares_in(a0.balances@, b0.key) + s
    &&& b1.total_asset_shares == b0.total_asset_shares
    &&& b1.total_liability_shares.raw == b0.total_liability_shares.raw + s
    &&& b1.liquidity_vault_balance == b0.liquidity_vault_balance - amount
}

/// Hypotheses under which a borrow is promised to run out of nothing but
/// its stated checks.
pub open spec fn borrow_promised(b: Bank, a: LendingAccount, amount: u64) -> bool {
    &&& b.amounts_bounded()
    &&& b.liability_share_value.raw >= fx_frac() / 16
    &&& slot_amounts_bounded(a, b.key)
    &&& b.config.operational_state == BankOperationalState::Operational
    &&& (a.spec_has_active_slot(b.key) ==> a.spec_active_slot(b.key).asset_shares.raw == 0)
    &&& (!a.spec_has_active_slot(b.key) ==> a.spec_has_free_slot())
    &&& !(b.config.risk_tier == RiskTier::Isolated && spec_has_other_active_liability(a, b.key))
    &&& amount <= b.liquidity_vault_balance
}

/// Records a borrow: converts `amount` tokens to liability shares rounded
/// up, adds them to the user's slot for this bank (allocating one if
/// needed) and to the bank's total, and pays the tokens out of the
/// liquidity vault. Only an operational bank lends; an isolated-tier bank
/// lends only to accounts with no other debt; the borrow limit and a
/// utilization of at most one are enforced on the post-state.
#[verifier::loop_isolation(false)]
pub fn bank_account_borrow(bank: &mut Bank, account: &mut LendingAccount, amount: u64) -> (r:
    Result<(), AstrolendError>)
    requires
        old(bank).wf(),
        old(account).wf(),
    ensures
        final(bank).wf(),
        final(account).wf(),
        r is Err ==> *final(bank) == *old(bank) && *final(account) == *old(account),
        r == Result::<(), AstrolendError>::Err(AstrolendError::BankPaused) <==> old(
            bank,
        ).config.operational_state == BankOperationalState::Paused,
        old(bank).config.operational_state != BankOperationalState::Paused ==> (r == Result::<
            (),
            AstrolendError,
        >::Err(AstrolendError::IllegalAction) <==> old(bank).config.operational_state
            == BankOperationalState::ReduceOnly),
        old(bank).config.operational_state == BankOperationalState::Operational ==> (r
            == Result::<(), AstrolendError>::Err(AstrolendError::OperationBorrowOnly) <==> (old(
            account,
        ).spec_has_active_slot(old(bank).key) && old(account).spec_active_slot(
            old(bank).key,
        ).asset_shares.raw != 0)),
        old(bank).config.operational_state == BankOperationalState::Operational && !(old(
            account,
        ).spec_has_active_slot(old(bank).key) && old(account).spec_active_slot(
            old(bank).key,
        ).asset_shares.raw != 0) ==> (r == Result::<(), AstrolendError>::Err(
            AstrolendError::LendingAccountFull,
        ) <==> (!old(account).spec_has_active_slot(old(bank).key) && !old(
            account,
        ).spec_has_free_slot())),
        old(bank).config.operational_state == BankOperationalState::Operational && !(old(
            account,
        ).spec_has_active_slot(old(bank).key) && old(account).spec_active_slot(
            old(bank).key,
        ).asset_shares.raw != 0) && (old(account).spec_has_active_slot(old(bank).key) || old(
            account,
        ).spec_has_free_slot()) ==> (r == Result::<(), AstrolendError>::Err(
            AstrolendError::IsolatedAccountIllegalState,
        ) <==> (old(bank).config.risk_tier == RiskTier::Isolated && spec_has_other_active_liability(
            *old(account),
            old(bank).key,
        ))),
        r is Err ==> (r == Result::<(), AstrolendError>::Err(AstrolendError::BankPaused) || r
            == Result::<(), AstrolendError>::Err(AstrolendError::IllegalAction) || r == Result::<
            (),
            AstrolendError,
        >::Err(AstrolendError::OperationBorrowOnly) || r == Result::<(), AstrolendError>::Err(
            AstrolendError::LendingAccountFull,
        ) || r == Result::<(), AstrolendError>::Err(AstrolendError::IsolatedAccountIllegalState)
            || r == Result::<(), AstrolendError>::Err(AstrolendError::MathError) || r == Result::<
            (),
            AstrolendError,
        >::Err(AstrolendError::BorrowLimitExceeded) || r == Result::<(), AstrolendError>::Err(
            AstrolendError::IllegalUtilizationRatio,
        )),
        r is Ok ==> borrow_applied(
            *old(bank),
            *old(account),
            *final(bank),
            *final(account),
            amount,
        ),
        r is Ok ==> final(account).balances@ == old(account).balances@.update(
            crate::account::spec_op_slot_index(*old(account), old(bank).key),
            spec_borrow_post_slot(*old(bank), *old(account), amount),
        ),
        r is Ok ==> *final(bank) == spec_borrow_post_bank(*old(bank), amount),
        r is Ok ==> fx_mul_spec(
            final(bank).total_liability_shares.raw as int,
            final(bank).liability_share_value.raw as int,
        ) <= old(bank).config.borrow_limit * fx_frac(),
        r is Ok ==> fx_mul_spec(
            final(bank).total_liability_shares.raw as int,
            final(bank).liability_share_value.raw as int,
        ) <= fx_mul_spec(
            final(bank).total_asset_shares.raw as int,
            final(bank).asset_share_value.raw as int,
        ),
        borrow_promised(*old(bank), *old(account), amount) ==> (r is Ok <==> fx_mul_spec(
            old(bank).total_liability_shares.raw + spec_borrow_shares(*old(bank), amount),
            old(bank).liability_share_value.raw as int,
        ) <= old(bank).config.borrow_limit * fx_frac() && fx_mul_spec(
            old(bank).total_liability_shares.raw + spec_borrow_shares(*old(bank), amount),
            old(bank).liability_share_value.raw as int,
        ) <= fx_mul_spec(
            old(bank).total_asset_shares.raw as int,
            old(bank).asset_share_value.raw as int,
        )),
        borrow_promised(*old(bank), *old(account), amount) ==> (r == Result::<
            (),
            AstrolendError,
        >::Err(AstrolendError::BorrowLimitExceeded) <==> fx_mul_spec(
            old(bank).total_liability_shares.raw + spec_borrow_shares(*old(bank), amount),
            old(bank).liability_share_value.raw as int,
        ) > old(bank).config.borrow_limit * fx_frac()),
        borrow_promised(*old(bank), *old(account), amount) ==> (r == Result::<
            (),
            AstrolendError,
        >::Err(AstrolendError::IllegalUtilizationRatio) <==> (fx_mul_spec(
            old(bank).total_liability_shares.raw + spec_borrow_shares(*old(bank), amount),
            old(bank).liability_share_value.raw as int,
        ) <= old(bank).config.borrow_limit * fx_frac() && fx_mul_spec(
            old(bank).total_liability_shares.raw + spec_borrow_shares(*old(bank), amount),
            old(bank).liability_share_value.raw as int,
        ) > fx_mul_spec(
            old(bank).total_asset_shares.raw as int,
            old(bank).asset_share_value.raw as int,
        ))),
{
    if bank.config.operational_state == BankOperationalState::Paused {
        return Err(AstrolendError::BankPaused);
    }
    if bank.config.operational_state == BankOperationalState::ReduceOnly {
        return Err(AstrolendError::IllegalAction);
    }
    let ghost a0 = *account;
    let ghost b0 = *bank;
    let ghost promised = borrow_promised(*bank, *account, amount);
    let found = account.find_balance_index(bank.key);
    let cur_liability: Fx = match found {
        Some(i) => {
            proof {
                lemma_active_slot_index_unique(a0, b0.key, i as int);
            }
            if account.balances[i].asset_shares.raw != 0 {
                return Err(AstrolendError::OperationBorrowOnly);
            }
            account.balances[i].liability_shares
        },
        None => {
            if !account.has_free_slot() {
                return Err(AstrolendError::LendingAccountFull);
            }
            Fx { raw: 0 }
        },
    };
    if bank.config.risk_tier == RiskTier::Isolated {
        let mut j: usize = 0;
        while j < account.balances.len()
            invariant
                j <= account.balances.len(),
                *account == a0,
                *bank == b0,
                forall|p: int|
                    0 <= p < j ==> !((#[trigger] account.balances[p]).active
                        && account.balances[p].bank_key != bank.key
                        && account.balances[p].liability_shares.raw > 0),
            decreases account.balances.len() - j,
        {
            if account.balances[j].active && account.balances[j].bank_key != bank.key
                && account.balances[j].liability_shares.raw > 0 {
                return Err(AstrolendError::IsolatedAccountIllegalState);
            }
            j += 1;
        }
    }
    let tokens = Fx::from_tokens(amount);
    proof {
        if promised {
            lemma_deposit_shares_fit(bank.liability_share_value.raw as int, amount as int);
        }
        lemma_mul_inequality(0, amount as int, fx_frac());
        lemma_mul_inequality(0, amount * fx_frac(), fx_frac());
        lemma_mul_is_commutative(amount * fx_frac(), fx_frac());
        lemma_div_pos_is_pos(
            (amount * fx_frac()) * fx_frac(),
            bank.liability_share_value.raw as int,
        );
    }
    let shares = match bank.get_liability_shares_ceil(tokens) {
        Ok(s) => s,
        Err(e) => {
            return Err(e);
        },
    };
    let new_slot_liability = match cur_liability.checked_add(shares) {
        Some(v) => v,
        None => {
            return Err(AstrolendError::MathError);
        },
    };
    let new_total = match bank.total_liability_shares.checked_add(shares) {
        Some(v) => v,
        None => {
            return Err(AstrolendError::MathError);
        },
    };
    proof {
        if promised {
            crate::bank::lemma_fx_mul_in_range(
                new_total.raw as int,
                shares_bound() + 0x10_0000_0000_0000_0000_0000_0000_0001,
                bank.liability_share_value.raw as int,
                share_value_bound(),
            );
            crate::bank::lemma_fx_mul_in_range(
                bank.total_asset_shares.raw as int,
                shares_bound(),
                bank.asset_share_value.raw as int,
                share_value_bound(),
            );
        }
    }
    let new_liab_tokens = match crate::fixed_point::fx_checked_mul(
        new_total,
        bank.liability_share_value,
    ) {
        Some(v) => v,
        None => {
            return Err(AstrolendError::MathError);
        },
    };
    if new_liab_tokens.raw > (bank.config.borrow_limit as i128) * FX_FRAC_RAW {
        return Err(AstrolendError::BorrowLimitExceeded);
    }
    let asset_tokens = match crate::fixed_point::fx_checked_mul(
        bank.total_asset_shares,
        bank.asset_share_value,
    ) {
        Some(v) => v,
        None => {
            return Err(AstrolendError::MathError);
        },
    };
    if new_liab_tokens.raw > asset_tokens.raw {
        return Err(AstrolendError::IllegalUtilizationRatio);
    }
    if amount > bank.liquidity_vault_balance {
        return Err(AstrolendError::MathError);
    }
    // Commit phase.
    let idx = match account.find_or_create_balance_index(bank.key) {
        Ok(i) => i,
        Err(_) => unreached(),
    };
    let ghost a_mid = *account;
    proof {
        if a0.spec_has_active_slot(b0.key) {
            lemma_active_slot_index_unique(a0, b0.key, idx as int);
        }
    }
    let slot = account.balances[idx];
    let new_slot = BalanceSlot { liability_shares: new_slot_liability, ..slot };
    account.balances.set(idx, new_slot);
    bank.total_liability_shares = new_total;
    bank.liquidity_vault_balance = bank.liquidity_vault_balance - amount;
    proof {
        commit_proof(a0, a_mid, *account, idx as int, new_slot, b0.key);
    }
    Ok(())
}

/// Liability shares settled by a repayment: everything for `repay_all`,
/// otherwise the token amount converted rounding down.
pub open spec fn spec_repay_burn(b: Bank, a: LendingAccount, amount: u64, all: bool) -> int {
    if all {
        a.spec_active_slot(b.key).liability_shares.raw as int
    } else {
        fx_div_spec(amount * fx_frac(), b.liability_share_value.raw as int)
    }
}

/// Tokens the user must hand over: the exact debt rounded up for
/// `repay_all`, otherwise the requested amount.
pub open spec fn spec_repay_payment(b: Bank, a: LendingAccount, amount: u64, all: bool) -> int {
    if all {
        (fx_mul_spec(
            a.spec_active_slot(b.key).liability_shares.raw as int,
            b.liability_share_value.raw as int,
        ) + fx_frac() - 1) / fx_frac()
    } else {
        amount as int
    }
}

/// The exact effect of a successful repayment.
pub open spec fn repay_applied(
    b0: Bank,
    a0: LendingAccount,
    b1: Bank,
    a1: LendingAccount,
    amount: u64,
    all: bool,
) -> bool {
    let burn = spec_repay_burn(b0, a0, amount, all);
    let pay = spec_repay_payment(b0, a0, amount, all);
    &&& bank_same_but_ledgers(b0, b1)
    &&& account_same_but_balances(a0, a1)
    &&& slot_keys_preserved(a0, a1, b0.key)
    &&& other_sums_unchanged(a0, a1, b0.key)
    &&& asset_shares_in(a1.balances@, b0.key) == asset_shares_in(a0.balances@, b0.key)
    &&& liability_shares_in(a1.balances@, b0.key) == liability_shares_in(a0.balances@, b0.key)
        - burn
    &&& b1.total_asset_shares == b0.total_asset_shares
    &&& b1.total_liability_shares.raw == b0.total_liability_shares.raw - burn
    &&& b1.liquidity_vault_balance == b0.liquidity_vault_balance + pay
}

/// Hypotheses under which a repayment is promised to run out of nothing
/// but its stated checks.
pub open spec fn repay_promised(b: Bank, a: LendingAccount, amount: u64, all: bool) -> bool {
    &&& b.amounts_bounded()
    &&& b.liability_share_value.raw >= fx_frac() / 16
    &&& slot_amounts_bounded(a, b.key)
    &&& b.config.operational_state != BankOperationalState::Paused
    &&& a.spec_has_active_slot(b.key)
    &&& a.spec_active_slot(b.key).asset_shares.raw == 0
    &&& a.spec_active_slot(b.key).liability_shares.raw > 0
    &&& a.spec_active_slot(b.key).liability_shares.raw <= b.total_liability_shares.raw
    &&& b.liquidity_vault_balance + spec_repay_payment(b, a, amount, all) <= u64::MAX
}

/// Records a repayment: burns liability shares (all of them for
/// `repay_all`, with the exact debt rounded up returned as the amount to
/// collect), and receives the tokens into the liquidity vault. `repay_all`
/// collapses the slot; it is freed once no emissions remain outstanding on
/// it.
pub fn bank_account_repay(
    bank: &mut Bank,
    account: &mut LendingAccount,
    amount: u64,
    repay_all: bool,
) -> (r: Result<u64, AstrolendError>)
    requires
        old(bank).wf(),
        old(account).wf(),
    ensures
        final(bank).wf(),
        final(account).wf(),
        r is Err ==> *final(bank) == *old(bank) && *final(account) == *old(account),
        r == Result::<u64, AstrolendError>::Err(AstrolendError::BankPaused) <==> old(
            bank,
        ).config.operational_state == BankOperationalState::Paused,
        old(bank).config.operational_state != BankOperationalState::Paused ==> (r == Result::<
            u64,
            AstrolendError,
        >::Err(AstrolendError::BankAccountNotFound) <==> !old(account).spec_has_active_slot(
            old(bank).key,
        )),
        old(bank).config.operational_state != BankOperationalState::Paused && old(
            account,
        ).spec_has_active_slot(old(bank).key) ==> (r == Result::<u64, AstrolendError>::Err(
            AstrolendError::OperationRepayOnly,
        ) <==> old(account).spec_active_slot(old(bank).key).asset_shares.raw != 0),
        r matches Ok(pay) ==> pay == spec_repay_payment(
            *old(bank),
            *old(account),
            amount,
            repay_all,
        ),
        r is Err ==> (r == Result::<u64, AstrolendError>::Err(AstrolendError::BankPaused) || r
            == Result::<u64, AstrolendError>::Err(AstrolendError::BankAccountNotFound) || r
            == Result::<u64, AstrolendError>::Err(AstrolendError::OperationRepayOnly) || r
            == Result::<u64, AstrolendError>::Err(AstrolendError::NoLiabilityFound) || r
            == Result::<u64, AstrolendError>::Err(AstrolendError::MathError)),
        r is Ok ==> repay_applied(
            *old(bank),
            *old(account),
            *final(bank),
            *final(account),
            amount,
            repay_all,
        ),
        repay_promised(*old(bank), *old(account), amount, repay_all) ==> (r is Ok <==> (repay_all
            || spec_repay_burn(*old(bank), *old(account), amount, repay_all) <= old(
            account,
        ).spec_active_slot(old(bank).key).liability_shares.raw)),
        repay_promised(*old(bank), *old(account), amount, repay_all) ==> (r == Result::<
            u64,
            AstrolendError,
        >::Err(AstrolendError::NoLiabilityFound) <==> (!repay_all && spec_repay_burn(
            *old(bank),
            *old(account),
            amount,
            repay_all,
        ) > old(account).spec_active_slot(old(bank).key).liability_shares.raw)),
{
    if bank.config.operational_state == BankOperationalState::Paused {
        return Err(AstrolendError::BankPaused);
    }
    let ghost a0 = *account;
    let ghost b0 = *bank;
    let ghost promised = repay_promised(*bank, *account, amount, repay_all);
    let idx = match account.find_balance_index(bank.key) {
        Some(i) => i,
        None => {
            return Err(AstrolendError::BankAccountNotFound);
        },
    };
    proof {
        lemma_active_slot_index_unique(a0, b0.key, idx as int);
    }
    let slot = account.balances[idx];
    if slot.asset_shares.raw != 0 {
        return Err(AstrolendError::OperationRepayOnly);
    }
    if slot.liability_shares.raw == 0 {
        return Err(AstrolendError::NoLiabilityFound);
    }
    proof {
        if promised {
            crate::bank::lemma_fx_mul_in_range(
                slot.liability_shares.raw as int,
                shares_bound(),
                bank.liability_share_value.raw as int,
                share_value_bound(),
            );
            lemma_deposit_shares_fit(bank.liability_share_value.raw as int, amount as int);
        }
    }
    let (burn, payment): (Fx, u64) = if repay_all {
        let worth = match bank.get_liability_amount(slot.liability_shares) {
            Ok(v) => v,
            Err(e) => {
                return Err(e);
            },
        };
        proof {
            crate::bank::lemma_fx_mul_nonneg(
                slot.liability_shares.raw as int,
                bank.liability_share_value.raw as int,
            );
        }
        let pay = match worth.ceil_tokens() {
            Some(p) => p,
            None => {
                return Err(AstrolendError::MathError);
            },
        };
        (slot.liability_shares, pay)
    } else {
        let tokens = Fx::from_tokens(amount);
        let b = match bank.get_liability_shares_floor(tokens) {
            Ok(v) => v,
            Err(e) => {
                return Err(e);
            },
        };
        proof {
            lemma_mul_inequality(0, amount as int, fx_frac());
            lemma_mul_inequality(0, amount * fx_frac(), fx_frac());
            lemma_mul_is_commutative(amount * fx_frac(), fx_frac());
            lemma_div_pos_is_pos(
                (amount * fx_frac()) * fx_frac(),
                bank.liability_share_value.raw as int,
            );
        }
        if b.raw > slot.liability_shares.raw {
            return Err(AstrolendError::NoLiabilityFound);
        }
        (b, amount)
    };
    let new_slot_liability = Fx { raw: slot.liability_shares.raw - burn.raw };
    let new_total = match bank.total_liability_shares.checked_sub(burn) {
        Some(v) => v,
        None => {
            return Err(AstrolendError::MathError);
        },
    };
    if new_total.raw < 0 {
        return Err(AstrolendError::MathError);
    }
    if payment > u64::MAX - bank.liquidity_vault_balance {
        return Err(AstrolendError::MathError);
    }
    // Commit phase.
    let new_slot = if repay_all && slot.emissions_outstanding.raw == 0 {
        BalanceSlot::empty()
    } else {
        BalanceSlot { liability_shares: new_slot_liability, ..slot }
    };
    account.balances.set(idx, new_slot);
    bank.total_liability_shares = new_total;
    bank.liquidity_vault_balance = bank.liquidity_vault_balance + payment;
    proof {
        commit_proof(a0, a0, *account, idx as int, new_slot, b0.key);
    }
    Ok(payment)
}

/// Relates the share sums after a commit that replaces the slot at `idx`
/// (possibly freshly activated) to the pre-operation sums, and carries
/// well-formedness across.
pub proof fn commit_proof(
    a0: LendingAccount,
    a_mid: LendingAccount,
    a1: LendingAccount,
    idx: int,
    new_slot: BalanceSlot,
    bank_key: u64,
)
    requires
        a0.wf(),
        a_mid.wf(),
        new_slot.wf(),
        0 <= idx < a_mid.balances.len(),
        a0.balances.len() == a_mid.balances.len(),
        a1.balances.len() == a_mid.balances.len(),
        a1.balances@ == a_mid.balances@.update(idx, new_slot),
        a1.group == a0.group && a1.authority == a0.authority && a1.account_flags
            == a0.account_flags,
        a_mid.balances[idx].active,
        a_mid.balances[idx].bank_key == bank_key,
        new_slot.active ==> new_slot.bank_key == bank_key,
        forall|j: int|
            0 <= j < a0.balances.len() && j != idx ==> a_mid.balances[j] == a0.balances[j],
        a0.balances[idx].active ==> a_mid.balances[idx] == a0.balances[idx],
        !a0.balances[idx].active ==> a0.balances[idx].wf(),
    ensures
        a1.wf(),
        asset_shares_in(a1.balances@, bank_key) == asset_shares_in(a0.balances@, bank_key)
            - crate::account::slot_asset_contrib(a0.balances[idx], bank_key)
            + crate::account::slot_asset_contrib(new_slot, bank_key),
        liability_shares_in(a1.balances@, bank_key) == liability_shares_in(a0.balances@, bank_key)
            - crate::account::slot_liability_contrib(a0.balances[idx], bank_key)
            + crate::account::slot_liability_contrib(new_slot, bank_key),
        other_sums_unchanged(a0, a1, bank_key),
        account_same_but_balances(a0, a1),
        slot_keys_preserved(a0, a1, bank_key),
        a1.balances@ == a0.balances@.update(idx, new_slot),
{
    // The two updates collapse: the table equals the original with just the
    // slot at `idx` replaced.
    assert(a1.balances@ =~= a0.balances@.update(idx, new_slot));
    // Well-formedness of the updated table.
    let nb = a1.balances@;
    assert forall|p: int| 0 <= p < nb.len() implies (#[trigger] nb[p]).wf() by {
        if p != idx {
            assert(nb[p] == a_mid.balances@[p]);
        }
    }
    assert forall|p: int, q: int|
        0 <= p < nb.len() && 0 <= q < nb.len() && p != q && (#[trigger] nb[p]).active && (
        #[trigger] nb[q]).active implies nb[p].bank_key != nb[q].bank_key by {
        if p != idx && q != idx {
            assert(nb[p] == a_mid.balances@[p]);
            assert(nb[q] == a_mid.balances@[q]);
        } else if p == idx {
            assert(nb[q] == a_mid.balances@[q]);
            assert(a_mid.balances[idx].active && a_mid.balances[idx].bank_key == bank_key);
        } else {
            assert(nb[p] == a_mid.balances@[p]);
            assert(a_mid.balances[idx].active && a_mid.balances[idx].bank_key == bank_key);
        }
    }
    lemma_shares_sum_update(a0.balances@, idx, new_slot, bank_key);
    assert forall|k: u64|
        k != bank_key implies #[trigger] asset_shares_in(a1.balances@, k) == asset_shares_in(
        a0.balances@,
        k,
    ) && liability_shares_in(a1.balances@, k) == liability_shares_in(a0.balances@, k) by {
        lemma_shares_sum_update(a0.balances@, idx, new_slot, k);
        if a0.balances[idx].active {
            assert(a0.balances[idx].bank_key == bank_key);
        }
    }
}

} // verus!
