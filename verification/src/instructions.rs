use vstd::prelude::*;

use crate::account::{BalanceSlot, LendingAccount, DISABLED_FLAG, IN_FLASHLOAN_FLAG};
use crate::bank::{Bank, BankConfig};
use crate::errors::AstrolendError;
use crate::fixed_point::{fx_frac, fx_mul_spec, Fx, FX_FRAC_RAW};
use crate::group::AstrolendGroup;
use crate::ops::{
    bank_account_borrow, bank_account_close_balance, bank_account_deposit, bank_account_repay,
    bank_account_withdraw, borrow_applied, deposit_applied, repay_applied, withdraw_applied,
};
use crate::price::OraclePrice;
use crate::risk::{
    check_account_init_health, spec_weighted_assets, spec_weighted_liabilities,
    RiskRequirementType,
};

verus! {

/// Every active slot refers to one of the first `n` banks.
pub open spec fn account_keys_in_range(a: LendingAccount, n: int) -> bool {
    forall|i: int|
        0 <= i < a.balances.len() && (#[trigger] a.balances[i]).active ==> (a.balances[
            i
        ].bank_key as int) < n
}

/// The group is untouched, up to the view of its bank table.
pub open spec fn group_unchanged(g0: AstrolendGroup, g1: AstrolendGroup) -> bool {
    &&& g1.key == g0.key
    &&& g1.admin == g0.admin
    &&& g1.banks@ == g0.banks@
}

/// The account is untouched, up to the view of its balance table.
pub open spec fn account_unchanged(a0: LendingAccount, a1: LendingAccount) -> bool {
    &&& a1.group == a0.group
    &&& a1.authority == a0.authority
    &&& a1.account_flags == a0.account_flags
    &&& a1.balances@ == a0.balances@
}

/// Only the bank at `idx` may differ between the two group states.
pub open spec fn group_other_banks_unchanged(
    g0: AstrolendGroup,
    g1: AstrolendGroup,
    idx: int,
) -> bool {
    &&& g1.key == g0.key
    &&& g1.admin == g0.admin
    &&& g1.banks.len() == g0.banks.len()
    &&& forall|k: int| 0 <= k < g0.banks.len() && k != idx ==> g1.banks[k] == g0.banks[k]
}

/// An exact copy of a balance table, kept for transaction-style rollback.
pub fn copy_slots(v: &Vec<BalanceSlot>) -> (r: Vec<BalanceSlot>)
    ensures
        r@ == v@,
{
    let mut r: Vec<BalanceSlot> = Vec::new();
    let mut i: usize = 0;
    while i < v.len()
        invariant
            i <= v.len(),
            r@ == v@.take(i as int),
        decreases v.len() - i,
    {
        r.push(v[i]);
        proof {
            assert(r@ =~= v@.take(i + 1));
        }
        i += 1;
    }
    proof {
        assert(v@.take(v@.len() as int) =~= v@);
    }
    r
}

/// Creates a user account bound to a group and an authority.
pub fn astrolend_account_initialize(group: &AstrolendGroup, authority: u64) -> (r: LendingAccount)
    ensures
        r.wf(),
        r.group == group.key,
        r.authority == authority,
        r.account_flags == 0,
        forall|i: int| 0 <= i < r.balances.len() ==> !(#[trigger] r.balances[i]).active,
{
    LendingAccount::initialize(group.key, authority)
}

/// Closes a user account. Allowed exactly when it carries no flag and no
/// active position; the host then reclaims the storage.
pub fn astrolend_account_close(account: &LendingAccount) -> (r: Result<(), AstrolendError>)
    ensures
        r is Ok <==> (account.account_flags == 0 && forall|i: int|
            0 <= i < account.balances.len() ==> !(#[trigger] account.balances[i]).active),
        r is Err ==> r == Result::<(), AstrolendError>::Err(AstrolendError::IllegalAction),
{
    if account.can_be_closed() {
        Ok(())
    } else {
        Err(AstrolendError::IllegalAction)
    }
}

/// Admin-side flag set: only configurable bits may be touched.
pub fn set_account_flag(account: &mut LendingAccount, flag: u64) -> (r: Result<
    (),
    AstrolendError,
>)
    ensures
        r is Ok <==> flag & !crate::account::CONFIGURABLE_FLAGS == 0,
        r is Err ==> *final(account) == *old(account) && r == Result::<(), AstrolendError>::Err(
            AstrolendError::IllegalFlag,
        ),
        r is Ok ==> *final(account) == (LendingAccount {
            account_flags: old(account).account_flags | flag,
            ..*old(account)
        }),
{
    if !crate::account::flag_can_be_set(flag) {
        return Err(AstrolendError::IllegalFlag);
    }
    account.set_flag(flag);
    Ok(())
}

/// Admin-side flag unset: only configurable bits may be touched.
pub fn unset_account_flag(account: &mut LendingAccount, flag: u64) -> (r: Result<
    (),
    AstrolendError,
>)
    ensures
        r is Ok <==> flag & !crate::account::CONFIGURABLE_FLAGS == 0,
        r is Err ==> *final(account) == *old(account) && r == Result::<(), AstrolendError>::Err(
            AstrolendError::IllegalFlag,
        ),
        r is Ok ==> *final(account) == (LendingAccount {
            account_flags: old(account).account_flags & !flag,
            ..*old(account)
        }),
{
    if !crate::account::flag_can_be_set(flag) {
        return Err(AstrolendError::IllegalFlag);
    }
    account.unset_flag(flag);
    Ok(())
}

/// Rotates the account authority, gated by the transfer-allowed flag.
pub fn set_new_account_authority(account: &mut LendingAccount, new_authority: u64) -> (r: Result<
    (),
    AstrolendError,
>)
    ensures
        r is Ok <==> old(account).account_flags & crate::account::TRANSFER_AUTHORITY_ALLOWED_FLAG
            != 0,
        r is Err ==> *final(account) == *old(account) && r == Result::<(), AstrolendError>::Err(
            AstrolendError::IllegalAction,
        ),
        r is Ok ==> *final(account) == (LendingAccount {
            authority: new_authority,
            ..*old(account)
        }),
{
    account.set_new_account_authority_checked(new_authority)
}

/// Accrues interest on one bank at the current time.
pub fn lending_pool_accrue_bank_interest(
    group: &mut AstrolendGroup,
    bank_idx: usize,
    now: i64,
) -> (r: Result<(), AstrolendError>)
    requires
        old(group).wf(),
        bank_idx < old(group).banks.len(),
    ensures
        final(group).wf(),
        group_other_banks_unchanged(*old(group), *final(group), bank_idx as int),
        r is Err ==> group_unchanged(*old(group), *final(group)),
        r is Ok ==> Bank::accrual_ok(
            old(group).banks[bank_idx as int],
            final(group).banks[bank_idx as int],
            now,
        ),
        r == Result::<(), AstrolendError>::Err(AstrolendError::ClockRegression) <==> now < old(
            group,
        ).banks[bank_idx as int].last_update,
        r is Ok ==> final(group).banks[bank_idx as int] == old(group).banks[
            bank_idx as int
        ].spec_accrued(now),
        old(group).banks[bank_idx as int].spec_accrual_promised(now) ==> r is Ok,
{
    let mut bank = group.banks[bank_idx];
    match bank.accrue_interest(now) {
        Ok(_) => (),
        Err(e) => {
            proof {
                assert(group.banks@ =~= old(group).banks@);
            }
            return Err(e);
        },
    }
    group.banks.set(bank_idx, bank);
    proof {
        lemma_group_set_wf(*old(group), *group, bank_idx as int);
    }
    Ok(())
}

/// Replacing one bank by a well-formed bank with the same key keeps the
/// group well formed.
pub proof fn lemma_group_set_wf(g0: AstrolendGroup, g1: AstrolendGroup, idx: int)
    requires
        g0.wf(),
        0 <= idx < g0.banks.len(),
        g1.banks@ == g0.banks@.update(idx, g1.banks@[idx]),
        g1.banks.len() == g0.banks.len(),
        g1.banks[idx].wf(),
        g1.banks[idx].key == g0.banks[idx].key,
    ensures
        g1.wf(),
{
    assert forall|k: int| 0 <= k < g1.banks.len() implies (#[trigger] g1.banks[k]).wf() by {
        if k != idx {
            assert(g1.banks[k] == g0.banks[k]);
        }
    }
    assert forall|k: int|
        0 <= k < g1.banks.len() implies (#[trigger] g1.banks[k]).key == k as u64 by {
        if k != idx {
            assert(g1.banks[k] == g0.banks[k]);
        }
    }
}

/// Deposits `amount` tokens of a bank's asset for the account. Interest is
/// accrued first; the share credit is computed at the accrued share value.
pub fn lending_account_deposit(
    group: &mut AstrolendGroup,
    account: &mut LendingAccount,
    bank_idx: usize,
    amount: u64,
    now: i64,
) -> (r: Result<(), AstrolendError>)
    requires
        old(group).wf(),
        old(account).wf(),
        bank_idx < old(group).banks.len(),
    ensures
        final(group).wf(),
        final(account).wf(),
        r is Err ==> group_unchanged(*old(group), *final(group)) && account_unchanged(
            *old(account),
            *final(account),
        ),
        r == Result::<(), AstrolendError>::Err(AstrolendError::AccountDisabled) <==> old(
            account,
        ).account_flags & DISABLED_FLAG != 0,
        group_other_banks_unchanged(*old(group), *final(group), bank_idx as int),
        r is Ok ==> (exists|mid: Bank|
            #[trigger] Bank::accrual_ok(old(group).banks[bank_idx as int], mid, now)
                && deposit_applied(
                mid,
                *old(account),
                final(group).banks[bank_idx as int],
                *final(account),
                amount,
            )),
        old(account).account_flags & DISABLED_FLAG == 0 ==> (r == Result::<
            (),
            AstrolendError,
        >::Err(AstrolendError::ClockRegression) <==> now < old(group).banks[
            bank_idx as int
        ].last_update),
        old(account).account_flags & DISABLED_FLAG == 0 && old(group).banks[
            bank_idx as int
        ].spec_accrual_promised(now) ==> ({
            let b1 = old(group).banks[bank_idx as int].spec_accrued(now);
            &&& (r == Result::<(), AstrolendError>::Err(AstrolendError::BankPaused)
                <==> b1.config.operational_state == crate::bank::BankOperationalState::Paused)
            &&& (b1.config.operational_state != crate::bank::BankOperationalState::Paused ==> (r
                == Result::<(), AstrolendError>::Err(AstrolendError::IllegalAction)
                <==> b1.config.operational_state
                == crate::bank::BankOperationalState::ReduceOnly))
            &&& (b1.config.operational_state == crate::bank::BankOperationalState::Operational
                ==> (r == Result::<(), AstrolendError>::Err(AstrolendError::OperationDepositOnly)
                <==> (old(account).spec_has_active_slot(b1.key) && old(
                account,
            ).spec_active_slot(b1.key).liability_shares.raw != 0)))
            &&& (b1.config.operational_state == crate::bank::BankOperationalState::Operational
                && !(old(account).spec_has_active_slot(b1.key) && old(account).spec_active_slot(
                b1.key,
            ).liability_shares.raw != 0) ==> (r == Result::<(), AstrolendError>::Err(
                AstrolendError::LendingAccountFull,
            ) <==> (!old(account).spec_has_active_slot(b1.key) && !old(
                account,
            ).spec_has_free_slot())))
            &&& (crate::ops::deposit_promised(b1, *old(account), amount) ==> ((r is Ok
                <==> fx_mul_spec(
                b1.total_asset_shares.raw + crate::ops::spec_deposit_shares(b1, amount),
                b1.asset_share_value.raw as int,
            ) <= b1.config.deposit_limit * fx_frac()) && (r == Result::<(), AstrolendError>::Err(
                AstrolendError::DepositLimitExceeded,
            ) <==> fx_mul_spec(
                b1.total_asset_shares.raw + crate::ops::spec_deposit_shares(b1, amount),
                b1.asset_share_value.raw as int,
            ) > b1.config.deposit_limit * fx_frac())))
            &&& (r is Ok ==> deposit_applied(
                b1,
                *old(account),
                final(group).banks[bank_idx as int],
                *final(account),
                amount,
            ))
        }),
{
    if account.get_flag(DISABLED_FLAG) {
        return Err(AstrolendError::AccountDisabled);
    }
    let mut bank = group.banks[bank_idx];
    match bank.accrue_interest(now) {
        Ok(_) => (),
        Err(e) => {
            return Err(e);
        },
    }
    let ghost mid = bank;
    match bank_account_deposit(&mut bank, account, amount) {
        Ok(_) => (),
        Err(e) => {
            return Err(e);
        },
    }
    group.banks.set(bank_idx, bank);
    proof {
        lemma_group_set_wf(*old(group), *group, bank_idx as int);
        let pre = old(group).banks@[bank_idx as int];
        assert(Bank::accrual_ok(pre, mid, now) && deposit_applied(
            mid,
            *old(account),
            group.banks@[bank_idx as int],
            *account,
            amount,
        ));
    }
    Ok(())
}

/// Repays `amount` tokens of the account's debt in a bank (everything, for
/// `repay_all`). Interest is accrued first.
pub fn lending_account_repay(
    group: &mut AstrolendGroup,
    account: &mut LendingAccount,
    bank_idx: usize,
    amount: u64,
    repay_all: Option<bool>,
    now: i64,
) -> (r: Result<u64, AstrolendError>)
    requires
        old(group).wf(),
        old(account).wf(),
        bank_idx < old(group).banks.len(),
    ensures
        final(group).wf(),
        final(account).wf(),
        r is Err ==> group_unchanged(*old(group), *final(group)) && account_unchanged(
            *old(account),
            *final(account),
        ),
        r == Result::<u64, AstrolendError>::Err(AstrolendError::AccountDisabled) <==> old(
            account,
        ).account_flags & DISABLED_FLAG != 0,
        group_other_banks_unchanged(*old(group), *final(group), bank_idx as int),
        r matches Ok(pay) ==> (exists|mid: Bank|
            #[trigger] Bank::accrual_ok(old(group).banks[bank_idx as int], mid, now)
                && repay_applied(
                mid,
                *old(account),
                final(group).banks[bank_idx as int],
                *final(account),
                amount,
                repay_all == Some(true),
            ) && pay == crate::ops::spec_repay_payment(
                mid,
                *old(account),
                amount,
                repay_all == Some(true),
            )),
        old(account).account_flags & DISABLED_FLAG == 0 ==> (r == Result::<
            u64,
            AstrolendError,
        >::Err(AstrolendError::ClockRegression) <==> now < old(group).banks[
            bank_idx as int
        ].last_update),
        old(account).account_flags & DISABLED_FLAG == 0 && old(group).banks[
            bank_idx as int
        ].spec_accrual_promised(now) ==> ({
            let b1 = old(group).banks[bank_idx as int].spec_accrued(now);
            &&& (r == Result::<u64, AstrolendError>::Err(AstrolendError::BankPaused)
                <==> b1.config.operational_state == crate::bank::BankOperationalState::Paused)
            &&& (b1.config.operational_state != crate::bank::BankOperationalState::Paused ==> (r
                == Result::<u64, AstrolendError>::Err(AstrolendError::BankAccountNotFound)
                <==> !old(account).spec_has_active_slot(b1.key)))
            &&& (b1.config.operational_state != crate::bank::BankOperationalState::Paused && old(
                account,
            ).spec_has_active_slot(b1.key) ==> (r == Result::<u64, AstrolendError>::Err(
                AstrolendError::OperationRepayOnly,
            ) <==> old(account).spec_active_slot(b1.key).asset_shares.raw != 0))
            &&& (crate::ops::repay_promised(b1, *old(account), amount, repay_all == Some(true))
                ==> ((r is Ok <==> (repay_all == Some(true) || crate::ops::spec_repay_burn(
                b1,
                *old(account),
                amount,
                repay_all == Some(true),
            ) <= old(account).spec_active_slot(b1.key).liability_shares.raw)) && (r == Result::<
                u64,
                AstrolendError,
            >::Err(AstrolendError::NoLiabilityFound) <==> (repay_all != Some(true)
                && crate::ops::spec_repay_burn(
                b1,
                *old(account),
                amount,
                repay_all == Some(true),
            ) > old(account).spec_active_slot(b1.key).liability_shares.raw))))
            &&& (r matches Ok(pay) ==> (repay_applied(
                b1,
                *old(account),
                final(group).banks[bank_idx as int],
                *final(account),
                amount,
                repay_all == Some(true),
            ) && pay == crate::ops::spec_repay_payment(
                b1,
                *old(account),
                amount,
                repay_all == Some(true),
            )))
        }),
{
    if account.get_flag(DISABLED_FLAG) {
        return Err(AstrolendError::AccountDisabled);
    }
    let mut bank = group.banks[bank_idx];
    match bank.accrue_interest(now) {
        Ok(_) => (),
        Err(e) => {
            return Err(e);
        },
    }
    let ghost mid = bank;
    let all = match repay_all {
        Some(b) => b,
        None => false,
    };
    let pay = match bank_account_repay(&mut bank, account, amount, all) {
        Ok(p) => p,
        Err(e) => {
            return Err(e);
        },
    };
    group.banks.set(bank_idx, bank);
    proof {
        lemma_group_set_wf(*old(group), *group, bank_idx as int);
        let pre = old(group).banks@[bank_idx as int];
        assert(Bank::accrual_ok(pre, mid, now) && repay_applied(
            mid,
            *old(account),
            group.banks@[bank_idx as int],
            *account,
            amount,
            all,
        ));
    }
    Ok(pay)
}

/// Closes the account's empty balance slot in a bank, after accrual.
pub fn lending_account_close_balance(
    group: &mut AstrolendGroup,
    account: &mut LendingAccount,
    bank_idx: usize,
    now: i64,
) -> (r: Result<(), AstrolendError>)
    requires
        old(group).wf(),
        old(account).wf(),
        bank_idx < old(group).banks.len(),
    ensures
        final(group).wf(),
        final(account).wf(),
        r is Err ==> account_unchanged(*old(account), *final(account)),
        r == Result::<(), AstrolendError>::Err(AstrolendError::AccountDisabled) <==> old(
            account,
        ).account_flags & DISABLED_FLAG != 0,
        group_other_banks_unchanged(*old(group), *final(group), bank_idx as int),
        r is Ok ==> !final(account).spec_has_active_slot(
            old(group).banks[bank_idx as int].key,
        ),
        old(account).account_flags & DISABLED_FLAG == 0 ==> (r == Result::<
            (),
            AstrolendError,
        >::Err(AstrolendError::ClockRegression) <==> now < old(group).banks[
            bank_idx as int
        ].last_update),
        old(account).account_flags & DISABLED_FLAG == 0 && old(group).banks[
            bank_idx as int
        ].spec_accrual_promised(now) ==> ({
            let key = old(group).banks[bank_idx as int].key;
            &&& (r is Ok <==> (!old(account).spec_has_active_slot(key) || (old(
                account,
            ).spec_active_slot(key).asset_shares.raw == 0 && old(account).spec_active_slot(
                key,
            ).liability_shares.raw == 0 && old(account).spec_active_slot(
                key,
            ).emissions_outstanding.raw == 0)))
            &&& (r is Err ==> r == Result::<(), AstrolendError>::Err(
                AstrolendError::IllegalAction,
            ))
        }),
{
    if account.get_flag(DISABLED_FLAG) {
        return Err(AstrolendError::AccountDisabled);
    }
    let mut bank = group.banks[bank_idx];
    match bank.accrue_interest(now) {
        Ok(_) => (),
        Err(e) => {
            return Err(e);
        },
    }
    match bank_account_close_balance(&bank, account) {
        Ok(_) => (),
        Err(e) => {
            return Err(e);
        },
    }
    group.banks.set(bank_idx, bank);
    proof {
        lemma_group_set_wf(*old(group), *group, bank_idx as int);
    }
    Ok(())
}

/// Withdraws tokens from the account's deposit in a bank, accruing first
/// and then holding the account to the initialization health bar (deferred
/// while a flash loan is open). On a failed health check every mutation is
/// rolled back, mirroring the host's transaction semantics.
pub fn lending_account_withdraw(
    group: &mut AstrolendGroup,
    account: &mut LendingAccount,
    bank_idx: usize,
    amount: u64,
    withdraw_all: Option<bool>,
    oracles: &Vec<OraclePrice>,
    now: i64,
) -> (r: Result<u64, AstrolendError>)
    requires
        old(group).wf(),
        old(account).wf(),
        bank_idx < old(group).banks.len(),
        oracles.len() == old(group).banks.len(),
        forall|k: int| 0 <= k < oracles.len() ==> (#[trigger] oracles[k]).wf(),
        account_keys_in_range(*old(account), old(group).banks.len() as int),
    ensures
        final(group).wf(),
        final(account).wf(),
        account_keys_in_range(*final(account), final(group).banks.len() as int),
        r is Err ==> group_unchanged(*old(group), *final(group)) && account_unchanged(
            *old(account),
            *final(account),
        ),
        r == Result::<u64, AstrolendError>::Err(AstrolendError::AccountDisabled) <==> old(
            account,
        ).account_flags & DISABLED_FLAG != 0,
        group_other_banks_unchanged(*old(group), *final(group), bank_idx as int),
        r matches Ok(pay) ==> (exists|mid: Bank|
            #[trigger] Bank::accrual_ok(old(group).banks[bank_idx as int], mid, now)
                && withdraw_applied(
                mid,
                *old(account),
                final(group).banks[bank_idx as int],
                *final(account),
                amount,
                withdraw_all == Some(true),
            ) && pay == crate::ops::spec_withdraw_payout(
                mid,
                *old(account),
                amount,
                withdraw_all == Some(true),
            )),
        r is Ok && old(account).account_flags & IN_FLASHLOAN_FLAG == 0 ==> spec_weighted_assets(
            final(account).balances@,
            final(group).banks@,
            oracles@,
            RiskRequirementType::Initial,
            final(account).balances.len() as int,
        ) >= spec_weighted_liabilities(
            final(account).balances@,
            final(group).banks@,
            oracles@,
            RiskRequirementType::Initial,
            final(account).balances.len() as int,
        ),
        old(account).account_flags & DISABLED_FLAG == 0 ==> (r == Result::<
            u64,
            AstrolendError,
        >::Err(AstrolendError::ClockRegression) <==> now < old(group).banks[
            bank_idx as int
        ].last_update),
        old(account).account_flags & DISABLED_FLAG == 0 && old(group).banks[
            bank_idx as int
        ].spec_accrual_promised(now) ==> ({
            let all = withdraw_all == Some(true);
            let b1 = old(group).banks[bank_idx as int].spec_accrued(now);
            let burn = crate::ops::spec_withdraw_burn(b1, *old(account), amount, all);
            let slot_ok = old(account).spec_has_active_slot(b1.key) && old(
                account,
            ).spec_active_slot(b1.key).liability_shares.raw == 0 && (all || burn <= old(
                account,
            ).spec_active_slot(b1.key).asset_shares.raw);
            let util_ok = fx_mul_spec(
                b1.total_liability_shares.raw as int,
                b1.liability_share_value.raw as int,
            ) <= fx_mul_spec(
                b1.total_asset_shares.raw - burn,
                b1.asset_share_value.raw as int,
            );
            let post_balances = old(account).balances@.update(
                old(account).spec_active_slot_index(b1.key),
                crate::ops::spec_withdraw_post_slot(b1, *old(account), amount, all),
            );
            let post_banks = old(group).banks@.update(
                bank_idx as int,
                crate::ops::spec_withdraw_post_bank(b1, *old(account), amount, all),
            );
            &&& (r == Result::<u64, AstrolendError>::Err(AstrolendError::BankPaused)
                <==> b1.config.operational_state == crate::bank::BankOperationalState::Paused)
            &&& (b1.config.operational_state != crate::bank::BankOperationalState::Paused ==> (r
                == Result::<u64, AstrolendError>::Err(AstrolendError::BankAccountNotFound)
                <==> !old(account).spec_has_active_slot(b1.key)))
            &&& (b1.config.operational_state != crate::bank::BankOperationalState::Paused && old(
                account,
            ).spec_has_active_slot(b1.key) ==> (r == Result::<u64, AstrolendError>::Err(
                AstrolendError::OperationWithdrawOnly,
            ) <==> old(account).spec_active_slot(b1.key).liability_shares.raw != 0))
            &&& (crate::ops::withdraw_promised(b1, *old(account), amount, all) ==> ((r
                == Result::<u64, AstrolendError>::Err(AstrolendError::NoAssetFound) <==> (!all
                && burn > old(account).spec_active_slot(b1.key).asset_shares.raw)) && (r
                == Result::<u64, AstrolendError>::Err(AstrolendError::IllegalUtilizationRatio)
                <==> ((all || burn <= old(account).spec_active_slot(b1.key).asset_shares.raw)
                && !util_ok))))
            &&& (crate::ops::withdraw_promised(b1, *old(account), amount, all) && slot_ok
                && util_ok && old(account).account_flags & IN_FLASHLOAN_FLAG != 0 ==> r is Ok)
            &&& (crate::ops::withdraw_promised(b1, *old(account), amount, all) && slot_ok
                && util_ok && old(account).account_flags & IN_FLASHLOAN_FLAG == 0
                && crate::risk::spec_isolated_ok(post_balances, post_banks)
                && crate::risk::spec_oracles_fresh(post_balances, post_banks, oracles@, now)
                && crate::risk::spec_oracles_confident(post_balances, post_banks, oracles@)
                && crate::risk::risk_inputs_bounded(post_balances, post_banks, oracles@) ==> ({
                let healthy = spec_weighted_assets(
                    post_balances,
                    post_banks,
                    oracles@,
                    RiskRequirementType::Initial,
                    post_balances.len() as int,
                ) >= spec_weighted_liabilities(
                    post_balances,
                    post_banks,
                    oracles@,
                    RiskRequirementType::Initial,
                    post_balances.len() as int,
                );
                &&& (r is Ok <==> healthy)
                &&& (r == Result::<u64, AstrolendError>::Err(
                    AstrolendError::RiskEngineInitRejected,
                ) <==> !healthy)
            }))
        }),
{
    if account.get_flag(DISABLED_FLAG) {
        return Err(AstrolendError::AccountDisabled);
    }
    let saved_balances = copy_slots(&account.balances);
    let saved_bank = group.banks[bank_idx];
    let mut bank = saved_bank;
    match bank.accrue_interest(now) {
        Ok(_) => (),
        Err(e) => {
            return Err(e);
        },
    }
    let ghost mid = bank;
    let all = match withdraw_all {
        Some(b) => b,
        None => false,
    };
    let pay = match bank_account_withdraw(&mut bank, account, amount, all) {
        Ok(p) => p,
        Err(e) => {
            return Err(e);
        },
    };
    group.banks.set(bank_idx, bank);
    proof {
        lemma_group_set_wf(*old(group), *group, bank_idx as int);
        lemma_keys_still_in_range(
            *old(account),
            *account,
            *old(group),
            *group,
            bank_idx as int,
        );
    }
    if !account.get_flag(IN_FLASHLOAN_FLAG) {
        match check_account_init_health(account, &group.banks, oracles, now) {
            Ok(_) => (),
            Err(e) => {
                account.balances = saved_balances;
                group.banks.set(bank_idx, saved_bank);
                proof {
                    assert(group.banks@ =~= old(group).banks@);
                }
                return Err(e);
            },
        }
    }
    proof {
        let pre = old(group).banks@[bank_idx as int];
        assert(Bank::accrual_ok(pre, mid, now) && withdraw_applied(
            mid,
            *old(account),
            group.banks@[bank_idx as int],
            *account,
            amount,
            all,
        ));
    }
    Ok(pay)
}

/// Borrows tokens from a bank against the account's collateral, accruing
/// first and then holding the account to the initialization health bar
/// (deferred while a flash loan is open). On a failed health check every
/// mutation is rolled back.
#[verifier::rlimit(100)]
pub fn lending_account_borrow(
    group: &mut AstrolendGroup,
    account: &mut LendingAccount,
    bank_idx: usize,
    amount: u64,
    oracles: &Vec<OraclePrice>,
    now: i64,
) -> (r: Result<(), AstrolendError>)
    requires
        old(group).wf(),
        old(account).wf(),
        bank_idx < old(group).banks.len(),
        oracles.len() == old(group).banks.len(),
        forall|k: int| 0 <= k < oracles.len() ==> (#[trigger] oracles[k]).wf(),
        account_keys_in_range(*old(account), old(group).banks.len() as int),
    ensures
        final(group).wf(),
        final(account).wf(),
        account_keys_in_range(*final(account), final(group).banks.len() as int),
        r is Err ==> group_unchanged(*old(group), *final(group)) && account_unchanged(
            *old(account),
            *final(account),
        ),
        r == Result::<(), AstrolendError>::Err(AstrolendError::AccountDisabled) <==> old(
            account,
        ).account_flags & DISABLED_FLAG != 0,
        group_other_banks_unchanged(*old(group), *final(group), bank_idx as int),
        r is Ok ==> (exists|mid: Bank|
            #[trigger] Bank::accrual_ok(old(group).banks[bank_idx as int], mid, now)
                && borrow_applied(
                mid,
                *old(account),
                final(group).banks[bank_idx as int],
                *final(account),
                amount,
            )),
        r is Ok && old(account).account_flags & IN_FLASHLOAN_FLAG == 0 ==> spec_weighted_assets(
            final(account).balances@,
            final(group).banks@,
            oracles@,
            RiskRequirementType::Initial,
            final(account).balances.len() as int,
        ) >= spec_weighted_liabilities(
            final(account).balances@,
            final(group).banks@,
            oracles@,
            RiskRequirementType::Initial,
            final(account).balances.len() as int,
        ),
        old(account).account_flags & DISABLED_FLAG == 0 ==> (r == Result::<
            (),
            AstrolendError,
        >::Err(AstrolendError::ClockRegression) <==> now < old(group).banks[
            bank_idx as int
        ].last_update),
        old(account).account_flags & DISABLED_FLAG == 0 && old(group).banks[
            bank_idx as int
        ].spec_accrual_promised(now) ==> ({
            let b1 = old(group).banks[bank_idx as int].spec_accrued(now);
            let s = crate::ops::spec_borrow_shares(b1, amount);
            let limit_ok = fx_mul_spec(
                b1.total_liability_shares.raw + s,
                b1.liability_share_value.raw as int,
            ) <= b1.config.borrow_limit * fx_frac();
            let util_ok = fx_mul_spec(
                b1.total_liability_shares.raw + s,
                b1.liability_share_value.raw as int,
            ) <= fx_mul_spec(
                b1.total_asset_shares.raw as int,
                b1.asset_share_value.raw as int,
            );
            let post_balances = old(account).balances@.update(
                crate::account::spec_op_slot_index(*old(account), b1.key),
                crate::ops::spec_borrow_post_slot(b1, *old(account), amount),
            );
            let post_banks = old(group).banks@.update(
                bank_idx as int,
                crate::ops::spec_borrow_post_bank(b1, amount),
            );
            &&& (r == Result::<(), AstrolendError>::Err(AstrolendError::BankPaused)
                <==> b1.config.operational_state == crate::bank::BankOperationalState::Paused)
            &&& (b1.config.operational_state != crate::bank::BankOperationalState::Paused ==> (r
                == Result::<(), AstrolendError>::Err(AstrolendError::IllegalAction)
                <==> b1.config.operational_state
                == crate::bank::BankOperationalState::ReduceOnly))
            &&& (b1.config.operational_state == crate::bank::BankOperationalState::Operational
                ==> (r == Result::<(), AstrolendError>::Err(AstrolendError::OperationBorrowOnly)
                <==> (old(account).spec_has_active_slot(b1.key) && old(
                account,
            ).spec_active_slot(b1.key).asset_shares.raw != 0)))
            &&& (b1.config.operational_state == crate::bank::BankOperationalState::Operational
                && !(old(account).spec_has_active_slot(b1.key) && old(account).spec_active_slot(
                b1.key,
            ).asset_shares.raw != 0) ==> (r == Result::<(), AstrolendError>::Err(
                AstrolendError::LendingAccountFull,
            ) <==> (!old(account).spec_has_active_slot(b1.key) && !old(
                account,
            ).spec_has_free_slot())))
            &&& (b1.config.operational_state == crate::bank::BankOperationalState::Operational
                && !(old(account).spec_has_active_slot(b1.key) && old(account).spec_active_slot(
                b1.key,
            ).asset_shares.raw != 0) && (old(account).spec_has_active_slot(b1.key) || old(
                account,
            ).spec_has_free_slot()) && b1.config.risk_tier == crate::bank::RiskTier::Isolated
                && crate::ops::spec_has_other_active_liability(*old(account), b1.key) ==> r
                == Result::<(), AstrolendError>::Err(
                AstrolendError::IsolatedAccountIllegalState,
            ))
            &&& (crate::ops::borrow_promised(b1, *old(account), amount) ==> ((r == Result::<
                (),
                AstrolendError,
            >::Err(AstrolendError::BorrowLimitExceeded) <==> !limit_ok) && (r == Result::<
                (),
                AstrolendError,
            >::Err(AstrolendError::IllegalUtilizationRatio) <==> (limit_ok && !util_ok))))
            &&& (crate::ops::borrow_promised(b1, *old(account), amount) && limit_ok && util_ok
                && old(account).account_flags & IN_FLASHLOAN_FLAG != 0 ==> r is Ok)
            &&& (crate::ops::borrow_promised(b1, *old(account), amount) && limit_ok && util_ok
                && old(account).account_flags & IN_FLASHLOAN_FLAG == 0
                && crate::risk::spec_isolated_ok(post_balances, post_banks)
                && crate::risk::spec_oracles_fresh(post_balances, post_banks, oracles@, now)
                && crate::risk::spec_oracles_confident(post_balances, post_banks, oracles@)
                && crate::risk::risk_inputs_bounded(post_balances, post_banks, oracles@) ==> ({
                let healthy = spec_weighted_assets(
                    post_balances,
                    post_banks,
                    oracles@,
                    RiskRequirementType::Initial,
                    post_balances.len() as int,
                ) >= spec_weighted_liabilities(
                    post_balances,
                    post_banks,
                    oracles@,
                    RiskRequirementType::Initial,
                    post_balances.len() as int,
                );
                &&& (r is Ok <==> healthy)
                &&& (r == Result::<(), AstrolendError>::Err(
                    AstrolendError::RiskEngineInitRejected,
                ) <==> !healthy)
            }))
        }),
{
    if account.get_flag(DISABLED_FLAG) {
        return Err(AstrolendError::AccountDisabled);
    }
    let saved_balances = copy_slots(&account.balances);
    let saved_bank = group.banks[bank_idx];
    let mut bank = saved_bank;
    match bank.accrue_interest(now) {
        Ok(_) => (),
        Err(e) => {
            return Err(e);
        },
    }
    let ghost mid = bank;
    match bank_account_borrow(&mut bank, account, amount) {
        Ok(_) => (),
        Err(e) => {
            return Err(e);
        },
    }
    group.banks.set(bank_idx, bank);
    proof {
        lemma_group_set_wf(*old(group), *group, bank_idx as int);
        assert(mid.key == old(group).banks@[bank_idx as int].key);
        lemma_keys_still_in_range(
            *old(account),
            *account,
            *old(group),
            *group,
            bank_idx as int,
        );
    }
    if !account.get_flag(IN_FLASHLOAN_FLAG) {
        match check_account_init_health(account, &group.banks, oracles, now) {
            Ok(_) => (),
            Err(e) => {
                account.balances = saved_balances;
                group.banks.set(bank_idx, saved_bank);
                proof {
                    assert(group.banks@ =~= old(group).banks@);
                }
                return Err(e);
            },
        }
    }
    proof {
        let pre = old(group).banks@[bank_idx as int];
        assert(Bank::accrual_ok(pre, mid, now) && borrow_applied(
            mid,
            *old(account),
            group.banks@[bank_idx as int],
            *account,
            amount,
        ));
    }
    Ok(())
}

/// Replacing two banks by well-formed banks with the same keys keeps the
/// group well formed.
pub proof fn lemma_group_set_wf_two(g0: AstrolendGroup, g1: AstrolendGroup, i: int, j: int)
    requires
        g0.wf(),
        0 <= i < g0.banks.len(),
        0 <= j < g0.banks.len(),
        i != j,
        g1.banks@ == g0.banks@.update(i, g1.banks@[i]).update(j, g1.banks@[j]),
        g1.banks.len() == g0.banks.len(),
        g1.banks[i].wf(),
        g1.banks[i].key == g0.banks[i].key,
        g1.banks[j].wf(),
        g1.banks[j].key == g0.banks[j].key,
    ensures
        g1.wf(),
{
    assert forall|k: int| 0 <= k < g1.banks.len() implies (#[trigger] g1.banks[k]).wf() by {
        if k != i && k != j {
            assert(g1.banks[k] == g0.banks[k]);
        }
    }
    assert forall|k: int|
        0 <= k < g1.banks.len() implies (#[trigger] g1.banks[k]).key == k as u64 by {
        if k != i && k != j {
            assert(g1.banks[k] == g0.banks[k]);
        }
    }
}

/// Creates the configuration root under an admin key.
pub fn astrolend_group_initialize(key: u64, admin: u64) -> (r: AstrolendGroup)
    ensures
        r.wf(),
        r.key == key,
        r.admin == admin,
        r.banks.len() == 0,
{
    AstrolendGroup::initialize(key, admin)
}

/// Rotates the group's admin key.
pub fn astrolend_group_configure(group: &mut AstrolendGroup, new_admin: Option<u64>)
    ensures
        final(group).banks == old(group).banks,
        final(group).key == old(group).key,
        new_admin matches Some(a) ==> final(group).admin == a,
        new_admin is None ==> final(group).admin == old(group).admin,
{
    group.configure(new_admin)
}

/// Adds a bank for a new asset and returns its key.
pub fn lending_pool_add_bank(
    group: &mut AstrolendGroup,
    mint: u64,
    mint_decimals: u8,
    config: BankConfig,
) -> (r: u64)
    requires
        old(group).wf(),
        config.wf(),
        mint_decimals <= 12,
        old(group).banks.len() < 0xFFFF_FFFF,
    ensures
        final(group).wf(),
        r == old(group).banks.len(),
        final(group).banks.len() == old(group).banks.len() + 1,
        forall|k: int|
            0 <= k < old(group).banks.len() ==> final(group).banks[k] == old(group).banks[k],
        final(group).banks[r as int] == Bank::new_spec(
            r,
            old(group).key,
            mint,
            mint_decimals,
            config,
        ),
{
    group.add_bank(mint, mint_decimals, config)
}

/// Replaces a bank's risk and rate configuration.
pub fn lending_pool_configure_bank(
    group: &mut AstrolendGroup,
    bank_idx: usize,
    config: BankConfig,
) -> (r: Result<(), AstrolendError>)
    requires
        old(group).wf(),
        config.wf(),
        bank_idx < old(group).banks.len(),
    ensures
        final(group).wf(),
        group_other_banks_unchanged(*old(group), *final(group), bank_idx as int),
        r is Ok,
        final(group).banks[bank_idx as int] == (Bank {
            config,
            ..old(group).banks[bank_idx as int]
        }),
{
    let mut bank = group.banks[bank_idx];
    bank.config = config;
    group.banks.set(bank_idx, bank);
    proof {
        lemma_group_set_wf(*old(group), *group, bank_idx as int);
    }
    Ok(())
}

/// Tokens owed to the insurance vault and actually collectable now.
pub open spec fn spec_collectable_insurance(b: Bank) -> int {
    let owed = (b.collected_insurance_fees_outstanding.raw as int) / fx_frac();
    if owed <= b.liquidity_vault_balance {
        owed
    } else {
        b.liquidity_vault_balance as int
    }
}

/// Tokens owed to the fee vault and actually collectable after the
/// insurance draw.
pub open spec fn spec_collectable_group_fees(b: Bank) -> int {
    let owed = (b.collected_group_fees_outstanding.raw as int) / fx_frac();
    let left = b.liquidity_vault_balance - spec_collectable_insurance(b);
    if owed <= left {
        owed
    } else {
        left
    }
}

/// Drains the pending fee counters: moves the owed whole tokens from the
/// liquidity vault into the insurance and fee vaults, bounded by what the
/// liquidity vault holds, without double counting.
pub fn lending_pool_collect_bank_fees(group: &mut AstrolendGroup, bank_idx: usize) -> (r: Result<
    (),
    AstrolendError,
>)
    requires
        old(group).wf(),
        bank_idx < old(group).banks.len(),
    ensures
        final(group).wf(),
        group_other_banks_unchanged(*old(group), *final(group), bank_idx as int),
        r is Err ==> group_unchanged(*old(group), *final(group)) && r == Result::<
            (),
            AstrolendError,
        >::Err(AstrolendError::MathError),
        r is Ok <==> ({
            let b0 = old(group).banks[bank_idx as int];
            &&& (b0.collected_insurance_fees_outstanding.raw as int) / fx_frac() <= u64::MAX
            &&& (b0.collected_group_fees_outstanding.raw as int) / fx_frac() <= u64::MAX
            &&& b0.insurance_vault_balance + spec_collectable_insurance(b0) <= u64::MAX
            &&& b0.fee_vault_balance + spec_collectable_group_fees(b0) <= u64::MAX
        }),
        r is Ok ==> ({
            let b0 = old(group).banks[bank_idx as int];
            let b1 = final(group).banks[bank_idx as int];
            let ins = spec_collectable_insurance(b0);
            let grp = spec_collectable_group_fees(b0);
            &&& b1.liquidity_vault_balance == b0.liquidity_vault_balance - ins - grp
            &&& b1.insurance_vault_balance == b0.insurance_vault_balance + ins
            &&& b1.fee_vault_balance == b0.fee_vault_balance + grp
            &&& b1.collected_insurance_fees_outstanding.raw
                == b0.collected_insurance_fees_outstanding.raw - ins * fx_frac()
            &&& b1.collected_group_fees_outstanding.raw
                == b0.collected_group_fees_outstanding.raw - grp * fx_frac()
            &&& b1 == (Bank {
                liquidity_vault_balance: b1.liquidity_vault_balance,
                insurance_vault_balance: b1.insurance_vault_balance,
                fee_vault_balance: b1.fee_vault_balance,
                collected_insurance_fees_outstanding: b1.collected_insurance_fees_outstanding,
                collected_group_fees_outstanding: b1.collected_group_fees_outstanding,
                ..b0
            })
        }),
{
    let mut bank = group.banks[bank_idx];
    let ins_owed = match bank.collected_insurance_fees_outstanding.floor_tokens() {
        Some(v) => v,
        None => {
            proof {
                assert(group.banks@ =~= old(group).banks@);
            }
            return Err(AstrolendError::MathError);
        },
    };
    let grp_owed = match bank.collected_group_fees_outstanding.floor_tokens() {
        Some(v) => v,
        None => {
            proof {
                assert(group.banks@ =~= old(group).banks@);
            }
            return Err(AstrolendError::MathError);
        },
    };
    let ins_amt = if ins_owed <= bank.liquidity_vault_balance {
        ins_owed
    } else {
        bank.liquidity_vault_balance
    };
    let left = bank.liquidity_vault_balance - ins_amt;
    let grp_amt = if grp_owed <= left {
        grp_owed
    } else {
        left
    };
    if ins_amt > u64::MAX - bank.insurance_vault_balance {
        proof {
            assert(group.banks@ =~= old(group).banks@);
        }
        return Err(AstrolendError::MathError);
    }
    if grp_amt > u64::MAX - bank.fee_vault_balance {
        proof {
            assert(group.banks@ =~= old(group).banks@);
        }
        return Err(AstrolendError::MathError);
    }
    proof {
        vstd::arithmetic::div_mod::lemma_fundamental_div_mod(
            bank.collected_insurance_fees_outstanding.raw as int,
            fx_frac(),
        );
        vstd::arithmetic::div_mod::lemma_fundamental_div_mod(
            bank.collected_group_fees_outstanding.raw as int,
            fx_frac(),
        );
        vstd::arithmetic::mul::lemma_mul_inequality(
            ins_amt as int,
            (bank.collected_insurance_fees_outstanding.raw as int) / fx_frac(),
            fx_frac(),
        );
        vstd::arithmetic::mul::lemma_mul_inequality(
            grp_amt as int,
            (bank.collected_group_fees_outstanding.raw as int) / fx_frac(),
            fx_frac(),
        );
        vstd::arithmetic::div_mod::lemma_div_pos_is_pos(
            bank.collected_insurance_fees_outstanding.raw as int,
            fx_frac(),
        );
        vstd::arithmetic::div_mod::lemma_div_pos_is_pos(
            bank.collected_group_fees_outstanding.raw as int,
            fx_frac(),
        );
    }
    bank.liquidity_vault_balance = bank.liquidity_vault_balance - ins_amt - grp_amt;
    bank.insurance_vault_balance = bank.insurance_vault_balance + ins_amt;
    bank.fee_vault_balance = bank.fee_vault_balance + grp_amt;
    bank.collected_insurance_fees_outstanding = Fx {
        raw: bank.collected_insurance_fees_outstanding.raw - (ins_amt as i128) * FX_FRAC_RAW,
    };
    bank.collected_group_fees_outstanding = Fx {
        raw: bank.collected_group_fees_outstanding.raw - (grp_amt as i128) * FX_FRAC_RAW,
    };
    group.banks.set(bank_idx, bank);
    proof {
        lemma_group_set_wf(*old(group), *group, bank_idx as int);
    }
    Ok(())
}

/// Pays accumulated protocol fees out of the fee vault.
pub fn lending_pool_withdraw_fees(group: &mut AstrolendGroup, bank_idx: usize, amount: u64) -> (r:
    Result<(), AstrolendError>)
    requires
        old(group).wf(),
        bank_idx < old(group).banks.len(),
    ensures
        final(group).wf(),
        group_other_banks_unchanged(*old(group), *final(group), bank_idx as int),
        r is Ok <==> amount <= old(group).banks[bank_idx as int].fee_vault_balance,
        r is Err ==> group_unchanged(*old(group), *final(group)) && r == Result::<
            (),
            AstrolendError,
        >::Err(AstrolendError::MathError),
        r is Ok ==> final(group).banks[bank_idx as int] == (Bank {
            fee_vault_balance: (old(group).banks[bank_idx as int].fee_vault_balance
                - amount) as u64,
            ..old(group).banks[bank_idx as int]
        }),
{
    let mut bank = group.banks[bank_idx];
    if amount > bank.fee_vault_balance {
        proof {
            assert(group.banks@ =~= old(group).banks@);
        }
        return Err(AstrolendError::MathError);
    }
    bank.fee_vault_balance = bank.fee_vault_balance - amount;
    group.banks.set(bank_idx, bank);
    proof {
        lemma_group_set_wf(*old(group), *group, bank_idx as int);
    }
    Ok(())
}

/// Pays out of the insurance vault.
pub fn lending_pool_withdraw_insurance(
    group: &mut AstrolendGroup,
    bank_idx: usize,
    amount: u64,
) -> (r: Result<(), AstrolendError>)
    requires
        old(group).wf(),
        bank_idx < old(group).banks.len(),
    ensures
        final(group).wf(),
        group_other_banks_unchanged(*old(group), *final(group), bank_idx as int),
        r is Ok <==> amount <= old(group).banks[bank_idx as int].insurance_vault_balance,
        r is Err ==> group_unchanged(*old(group), *final(group)) && r == Result::<
            (),
            AstrolendError,
        >::Err(AstrolendError::MathError),
        r is Ok ==> final(group).banks[bank_idx as int] == (Bank {
            insurance_vault_balance: (old(group).banks[bank_idx as int].insurance_vault_balance
                - amount) as u64,
            ..old(group).banks[bank_idx as int]
        }),
{
    let mut bank = group.banks[bank_idx];
    if amount > bank.insurance_vault_balance {
        proof {
            assert(group.banks@ =~= old(group).banks@);
        }
        return Err(AstrolendError::MathError);
    }
    bank.insurance_vault_balance = bank.insurance_vault_balance - amount;
    group.banks.set(bank_idx, bank);
    proof {
        lemma_group_set_wf(*old(group), *group, bank_idx as int);
    }
    Ok(())
}

/// After an operation on the bank at `idx`, every active slot still refers
/// to an existing bank.
proof fn lemma_keys_still_in_range(
    a0: LendingAccount,
    a1: LendingAccount,
    g0: AstrolendGroup,
    g1: AstrolendGroup,
    idx: int,
)
    requires
        g0.wf(),
        0 <= idx < g0.banks.len(),
        g1.banks.len() == g0.banks.len(),
        account_keys_in_range(a0, g0.banks.len() as int),
        crate::ops::slot_keys_preserved(a0, a1, g0.banks[idx].key),
        a1.balances.len() == a0.balances.len(),
    ensures
        account_keys_in_range(a1, g1.banks.len() as int),
{
    assert forall|i: int|
        0 <= i < a1.balances.len() && (#[trigger] a1.balances[i]).active implies (a1.balances[
        i
    ].bank_key as int) < g1.banks.len() by {
        assert(g0.banks[idx].key == idx as u64);
    }
}

} // verus!
