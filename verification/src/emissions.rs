use vstd::prelude::*;
use vstd::arithmetic::div_mod::lemma_div_pos_is_pos;
use vstd::arithmetic::mul::{lemma_mul_inequality, lemma_mul_is_commutative};

use crate::account::{BalanceSlot, LendingAccount};
use crate::bank::Bank;
use crate::errors::AstrolendError;
use crate::fixed_point::{fx_div_spec, fx_frac, fx_mul_spec, Fx};
use crate::group::AstrolendGroup;
use crate::instructions::{account_unchanged, group_other_banks_unchanged};
use crate::ops::commit_proof;

verus! {

/// Emissions accrue on the borrowed side of the balance.
pub const EMISSIONS_FLAG_BORROW_ACTIVE: u64 = 1;

/// Emissions accrue on the deposited side of the balance.
pub const EMISSIONS_FLAG_LENDING_ACTIVE: u64 = 2;

/// The share count a balance earns emissions on: its deposit or its debt,
/// as the bank's flags say; nothing when neither flag is set.
pub open spec fn spec_emissions_shares(bank: Bank, slot: BalanceSlot) -> int {
    if bank.emissions_flags & EMISSIONS_FLAG_LENDING_ACTIVE != 0 {
        slot.asset_shares.raw as int
    } else if bank.emissions_flags & EMISSIONS_FLAG_BORROW_ACTIVE != 0 {
        slot.liability_shares.raw as int
    } else {
        0
    }
}

/// The side's total share count, matching `spec_emissions_shares`.
pub open spec fn spec_emissions_total_shares(bank: Bank) -> int {
    if bank.emissions_flags & EMISSIONS_FLAG_LENDING_ACTIVE != 0 {
        bank.total_asset_shares.raw as int
    } else if bank.emissions_flags & EMISSIONS_FLAG_BORROW_ACTIVE != 0 {
        bank.total_liability_shares.raw as int
    } else {
        0
    }
}

/// Reward earned by one balance over `dt` seconds, before the cap: the
/// per-second rate scaled by the balance's share of the side.
pub open spec fn spec_emissions_earned(bank: Bank, slot: BalanceSlot, dt: int) -> int {
    let total = spec_emissions_total_shares(bank);
    if total <= 0 {
        0
    } else {
        fx_div_spec(
            fx_mul_spec((bank.emissions_rate * dt) as int * fx_frac(), spec_emissions_shares(
                bank,
                slot,
            )),
            total,
        )
    }
}

/// Reward actually credited: earned, capped by what the bank still owes.
pub open spec fn spec_emissions_credited(bank: Bank, slot: BalanceSlot, dt: int) -> int {
    let earned = spec_emissions_earned(bank, slot, dt);
    if earned <= bank.emissions_remaining.raw {
        earned
    } else {
        bank.emissions_remaining.raw as int
    }
}

/// Magnitude bounds under which emissions settlement is promised to
/// succeed: a bounded reward for the step, a bounded position, at least a
/// whole share unit on the accruing side, and room in the accumulator.
pub open spec fn spec_emissions_promised(bank: Bank, slot: BalanceSlot, dt: int) -> bool {
    &&& bank.emissions_rate * dt <= 0x4000_0000
    &&& spec_emissions_shares(bank, slot) <= 0x1_0000_0000_0000_0000_0000
    &&& (spec_emissions_total_shares(bank) <= 0 || spec_emissions_total_shares(bank)
        >= fx_frac())
    &&& slot.emissions_outstanding.raw <= 0x4000_0000_0000_0000_0000_0000_0000
}

/// Under the promised bounds, the credited reward stays small.
proof fn lemma_emissions_credited_bound(bank: Bank, slot: BalanceSlot, dt: int)
    requires
        bank.wf(),
        spec_emissions_promised(bank, slot, dt),
        spec_emissions_shares(bank, slot) >= 0,
        dt >= 0,
    ensures
        0 <= spec_emissions_credited(bank, slot, dt) <= 0x4000_0000_0000_0000_0000_0000_0000,
{
    let total = spec_emissions_total_shares(bank);
    if total <= 0 {
    } else {
        crate::bank::lemma_fx_mul_in_range(
            (bank.emissions_rate * dt) * fx_frac(),
            0x4000_0000 * fx_frac(),
            spec_emissions_shares(bank, slot),
            0x1_0000_0000_0000_0000_0000,
        );
        let x = fx_mul_spec(
            (bank.emissions_rate * dt) * fx_frac(),
            spec_emissions_shares(bank, slot),
        );
        crate::bank::lemma_fx_div_le_self(x, total);
    }
}

/// Settles pending emissions on the account's balance in one bank:
/// accumulates the time-integrated reward into the slot, capped by the
/// bank's remaining budget, and stamps the slot with `now`.
pub fn lending_account_settle_emissions(
    group: &mut AstrolendGroup,
    account: &mut LendingAccount,
    bank_idx: usize,
    now: u64,
) -> (r: Result<(), AstrolendError>)
    requires
        old(group).wf(),
        old(account).wf(),
        bank_idx < old(group).banks.len(),
    ensures
        final(group).wf(),
        final(account).wf(),
        group_other_banks_unchanged(*old(group), *final(group), bank_idx as int),
        r is Err ==> account_unchanged(*old(account), *final(account)) && final(group).banks@
            == old(group).banks@,
        r is Err ==> (r == Result::<(), AstrolendError>::Err(AstrolendError::BankAccountNotFound)
            || r == Result::<(), AstrolendError>::Err(AstrolendError::MathError)),
        r == Result::<(), AstrolendError>::Err(AstrolendError::BankAccountNotFound) <==> !old(
            account,
        ).spec_has_active_slot(old(group).banks[bank_idx as int].key),
        ({
            let b0 = old(group).banks[bank_idx as int];
            let slot0 = old(account).spec_active_slot(b0.key);
            let dt = if now >= slot0.last_update {
                now - slot0.last_update
            } else {
                0
            };
            old(account).spec_has_active_slot(b0.key) && spec_emissions_promised(
                b0,
                slot0,
                dt as int,
            )
        }) ==> r is Ok,
        r is Ok ==> ({
            let b0 = old(group).banks[bank_idx as int];
            let slot0 = old(account).spec_active_slot(b0.key);
            let dt = if now >= slot0.last_update {
                now - slot0.last_update
            } else {
                0
            };
            let credited = spec_emissions_credited(b0, slot0, dt);
            &&& final(account).spec_has_active_slot(b0.key)
            &&& final(group).banks[bank_idx as int] == (Bank {
                emissions_remaining: Fx {
                    raw: (b0.emissions_remaining.raw - credited) as i128,
                },
                ..b0
            })
            &&& final(account).spec_active_slot(b0.key).emissions_outstanding.raw
                == slot0.emissions_outstanding.raw + credited
            &&& final(account).spec_active_slot(b0.key).asset_shares
                == slot0.asset_shares
            &&& final(account).spec_active_slot(b0.key).liability_shares
                == slot0.liability_shares
            &&& crate::account::asset_shares_in(final(account).balances@, b0.key)
                == crate::account::asset_shares_in(old(account).balances@, b0.key)
            &&& crate::account::liability_shares_in(final(account).balances@, b0.key)
                == crate::account::liability_shares_in(old(account).balances@, b0.key)
            &&& crate::ops::other_sums_unchanged(*old(account), *final(account), b0.key)
            &&& crate::ops::account_same_but_balances(*old(account), *final(account))
        }),
{
    let bank = group.banks[bank_idx];
    let ghost a0 = *account;
    let idx = match account.find_balance_index(bank.key) {
        Some(i) => i,
        None => {
            return Err(AstrolendError::BankAccountNotFound);
        },
    };
    proof {
        crate::account::lemma_active_slot_index_unique(a0, bank.key, idx as int);
    }
    let slot = account.balances[idx];
    let dt: u64 = if now >= slot.last_update {
        now - slot.last_update
    } else {
        0
    };
    let ghost promised = spec_emissions_promised(bank, slot, dt as int);
    let shares = if bank.emissions_flags & EMISSIONS_FLAG_LENDING_ACTIVE != 0 {
        slot.asset_shares
    } else if bank.emissions_flags & EMISSIONS_FLAG_BORROW_ACTIVE != 0 {
        slot.liability_shares
    } else {
        Fx { raw: 0 }
    };
    let total = if bank.emissions_flags & EMISSIONS_FLAG_LENDING_ACTIVE != 0 {
        bank.total_asset_shares
    } else if bank.emissions_flags & EMISSIONS_FLAG_BORROW_ACTIVE != 0 {
        bank.total_liability_shares
    } else {
        Fx { raw: 0 }
    };
    let earned: Fx = if total.raw <= 0 {
        Fx { raw: 0 }
    } else {
        let rate_dt: u64 = match bank.emissions_rate.checked_mul(dt) {
            Some(v) => v,
            None => {
                return Err(AstrolendError::MathError);
            },
        };
        proof {
            if promised {
                crate::bank::lemma_fx_mul_in_range(
                    (rate_dt * fx_frac()) as int,
                    0x4000_0000 * fx_frac(),
                    shares.raw as int,
                    0x1_0000_0000_0000_0000_0000,
                );
            }
        }
        let x = match crate::fixed_point::fx_checked_mul(Fx::from_tokens(rate_dt), shares) {
            Some(v) => v,
            None => {
                return Err(AstrolendError::MathError);
            },
        };
        proof {
            if promised {
                crate::bank::lemma_fx_div_le_self(x.raw as int, total.raw as int);
            }
            lemma_mul_inequality(0, rate_dt as int, fx_frac());
            lemma_mul_inequality(0, rate_dt * fx_frac(), shares.raw as int);
            lemma_mul_is_commutative(rate_dt * fx_frac(), shares.raw as int);
            lemma_div_pos_is_pos((rate_dt * fx_frac()) * (shares.raw as int), fx_frac());
            lemma_mul_inequality(0, x.raw as int, fx_frac());
            lemma_mul_is_commutative(x.raw as int, fx_frac());
            lemma_div_pos_is_pos(x.raw * fx_frac(), total.raw as int);
        }
        match crate::fixed_point::fx_checked_div(x, total) {
            Some(v) => v,
            None => {
                return Err(AstrolendError::MathError);
            },
        }
    };
    let credited: Fx = if earned.raw <= bank.emissions_remaining.raw {
        earned
    } else {
        bank.emissions_remaining
    };
    let new_outstanding = match slot.emissions_outstanding.checked_add(credited) {
        Some(v) => v,
        None => {
            return Err(AstrolendError::MathError);
        },
    };
    let new_slot = BalanceSlot {
        emissions_outstanding: new_outstanding,
        last_update: now,
        ..slot
    };
    let mut new_bank = bank;
    new_bank.emissions_remaining = Fx { raw: bank.emissions_remaining.raw - credited.raw };
    account.balances.set(idx, new_slot);
    group.banks.set(bank_idx, new_bank);
    proof {
        commit_proof(a0, a0, *account, idx as int, new_slot, bank.key);
        crate::instructions::lemma_group_set_wf(*old(group), *group, bank_idx as int);
        crate::account::lemma_active_slot_index_unique(*account, bank.key, idx as int);
    }
    Ok(())
}

/// Settles and then pays out the whole-token part of the balance's
/// outstanding emissions; the host transfers that amount from the
/// emissions vault.
pub fn lending_account_withdraw_emissions(
    group: &mut AstrolendGroup,
    account: &mut LendingAccount,
    bank_idx: usize,
    now: u64,
) -> (r: Result<u64, AstrolendError>)
    requires
        old(group).wf(),
        old(account).wf(),
        bank_idx < old(group).banks.len(),
    ensures
        final(group).wf(),
        final(account).wf(),
        group_other_banks_unchanged(*old(group), *final(group), bank_idx as int),
        r == Result::<u64, AstrolendError>::Err(AstrolendError::AccountDisabled) <==> old(
            account,
        ).account_flags & crate::account::DISABLED_FLAG != 0,
        old(account).account_flags & crate::account::DISABLED_FLAG == 0 ==> (r == Result::<
            u64,
            AstrolendError,
        >::Err(AstrolendError::BankAccountNotFound) <==> !old(account).spec_has_active_slot(
            old(group).banks[bank_idx as int].key,
        )),
        ({
            let b0 = old(group).banks[bank_idx as int];
            let slot0 = old(account).spec_active_slot(b0.key);
            let dt = if now >= slot0.last_update {
                now - slot0.last_update
            } else {
                0
            };
            old(account).account_flags & crate::account::DISABLED_FLAG == 0 && old(
                account,
            ).spec_has_active_slot(b0.key) && spec_emissions_promised(b0, slot0, dt as int)
        }) ==> r is Ok,
        r matches Ok(paid) ==> ({
            let b0 = old(group).banks[bank_idx as int];
            let slot0 = old(account).spec_active_slot(b0.key);
            let dt = if now >= slot0.last_update {
                now - slot0.last_update
            } else {
                0
            };
            let settled = slot0.emissions_outstanding.raw + spec_emissions_credited(b0, slot0, dt);
            &&& final(account).spec_has_active_slot(b0.key)
            &&& paid == settled / fx_frac()
            &&& final(account).spec_active_slot(b0.key).emissions_outstanding.raw == settled
                - paid * fx_frac()
        }),
{
    if account.get_flag(crate::account::DISABLED_FLAG) {
        return Err(AstrolendError::AccountDisabled);
    }
    match lending_account_settle_emissions(group, account, bank_idx, now) {
        Ok(_) => (),
        Err(e) => {
            return Err(e);
        },
    }
    let bank = group.banks[bank_idx];
    let ghost a1 = *account;
    let idx = match account.find_balance_index(bank.key) {
        Some(i) => i,
        None => unreached(),
    };
    proof {
        crate::account::lemma_active_slot_index_unique(a1, bank.key, idx as int);
    }
    let slot = account.balances[idx];
    proof {
        let b0 = old(group).banks@[bank_idx as int];
        let slot0 = old(account).spec_active_slot(b0.key);
        let dt0 = if now >= slot0.last_update {
            now - slot0.last_update
        } else {
            0
        };
        if old(account).spec_has_active_slot(b0.key) && spec_emissions_promised(
            b0,
            slot0,
            dt0 as int,
        ) {
            lemma_emissions_credited_bound(b0, slot0, dt0 as int);
        }
    }
    let paid = match slot.emissions_outstanding.floor_tokens() {
        Some(p) => p,
        None => {
            return Err(AstrolendError::MathError);
        },
    };
    proof {
        vstd::arithmetic::div_mod::lemma_fundamental_div_mod(
            slot.emissions_outstanding.raw as int,
            fx_frac(),
        );
    }
    let new_slot = BalanceSlot {
        emissions_outstanding: Fx {
            raw: slot.emissions_outstanding.raw - (paid as i128) * crate::fixed_point::FX_FRAC_RAW,
        },
        ..slot
    };
    account.balances.set(idx, new_slot);
    proof {
        commit_proof(a1, a1, *account, idx as int, new_slot, bank.key);
        crate::account::lemma_active_slot_index_unique(*account, bank.key, idx as int);
    }
    Ok(paid)
}

/// Configures a bank's emissions program: reward mint, accrual side,
/// per-second rate and initial budget.
pub fn lending_pool_setup_emissions(
    group: &mut AstrolendGroup,
    bank_idx: usize,
    flags: u64,
    rate: u64,
    mint: u64,
    funding: u64,
) -> (r: Result<(), AstrolendError>)
    requires
        old(group).wf(),
        bank_idx < old(group).banks.len(),
    ensures
        final(group).wf(),
        group_other_banks_unchanged(*old(group), *final(group), bank_idx as int),
        r is Ok ==> final(group).banks[bank_idx as int] == (Bank {
            emissions_flags: flags,
            emissions_rate: rate,
            emissions_mint: mint,
            emissions_remaining: Fx { raw: (funding * fx_frac()) as i128 },
            ..old(group).banks[bank_idx as int]
        }),
        r is Ok,
{
    let mut bank = group.banks[bank_idx];
    bank.emissions_flags = flags;
    bank.emissions_rate = rate;
    bank.emissions_mint = mint;
    bank.emissions_remaining = Fx::from_tokens(funding);
    group.banks.set(bank_idx, bank);
    proof {
        crate::instructions::lemma_group_set_wf(*old(group), *group, bank_idx as int);
    }
    Ok(())
}

/// Updates the emissions rate or tops the budget up.
pub fn lending_pool_update_emissions_parameters(
    group: &mut AstrolendGroup,
    bank_idx: usize,
    rate: Option<u64>,
    additional_funding: Option<u64>,
) -> (r: Result<(), AstrolendError>)
    requires
        old(group).wf(),
        bank_idx < old(group).banks.len(),
    ensures
        final(group).wf(),
        group_other_banks_unchanged(*old(group), *final(group), bank_idx as int),
        r is Ok <==> (additional_funding matches Some(x) ==> old(group).banks[
            bank_idx as int
        ].emissions_remaining.raw + x * fx_frac() <= i128::MAX),
        r is Err ==> final(group).banks@ == old(group).banks@ && r == Result::<
            (),
            AstrolendError,
        >::Err(AstrolendError::MathError),
        r is Ok ==> ({
            let b0 = old(group).banks[bank_idx as int];
            let b1 = final(group).banks[bank_idx as int];
            &&& (rate matches Some(x) ==> b1.emissions_rate == x)
            &&& (rate is None ==> b1.emissions_rate == b0.emissions_rate)
            &&& (additional_funding matches Some(x) ==> b1.emissions_remaining.raw
                == b0.emissions_remaining.raw + x * fx_frac())
            &&& (additional_funding is None ==> b1.emissions_remaining
                == b0.emissions_remaining)
            &&& b1 == (Bank {
                emissions_rate: b1.emissions_rate,
                emissions_remaining: b1.emissions_remaining,
                ..b0
            })
        }),
{
    let mut bank = group.banks[bank_idx];
    match rate {
        Some(x) => {
            bank.emissions_rate = x;
        },
        None => (),
    }
    match additional_funding {
        Some(x) => {
            let add = Fx::from_tokens(x);
            let new_rem = match bank.emissions_remaining.checked_add(add) {
                Some(v) => v,
                None => {
                    return Err(AstrolendError::MathError);
                },
            };
            bank.emissions_remaining = new_rem;
        },
        None => (),
    }
    group.banks.set(bank_idx, bank);
    proof {
        crate::instructions::lemma_group_set_wf(*old(group), *group, bank_idx as int);
    }
    Ok(())
}

} // verus!
