use vstd::prelude::*;

use crate::account::{LendingAccount, DISABLED_FLAG, IN_FLASHLOAN_FLAG};
use crate::bank::Bank;
use crate::errors::AstrolendError;
use crate::price::OraclePrice;
use crate::risk::{
    check_account_init_health, risk_inputs_wf, spec_weighted_assets, spec_weighted_liabilities,
    RiskRequirementType,
};

verus! {

/// A top-level instruction runs at this stack height; anything deeper is a
/// nested program invocation.
pub const TRANSACTION_LEVEL_STACK_HEIGHT: u64 = 1;

/// Stable discriminator carried by the flash-loan end instruction's data.
pub const END_FLASHLOAN_DISCRIMINATOR: u64 = 0x2171_8f9d_6b60_0e35;

/// The core's view of one instruction in the surrounding transaction: the
/// program it targets, the discriminator its data starts with, and the
/// first account it names. The host reads these from the instruction
/// introspection table.
#[derive(Clone, Copy, Debug, PartialEq, Eq, Structural)]
pub struct TxInstruction {
    pub program_id: u64,
    pub discriminator: u64,
    pub first_account_key: u64,
}

/// All conditions under which a flash loan may begin: the account is free
/// and not already borrowing flash, the begin runs top-level in our
/// program, and a matching top-level end instruction for the same account
/// lies ahead in the same transaction.
pub open spec fn spec_flashloan_can_start(
    account: LendingAccount,
    ixs: Seq<TxInstruction>,
    current_index: int,
    end_index: int,
    this_program: u64,
    account_key: u64,
    stack_height: u64,
) -> bool {
    &&& account.account_flags & DISABLED_FLAG == 0
    &&& account.account_flags & IN_FLASHLOAN_FLAG == 0
    &&& current_index < end_index
    &&& stack_height == TRANSACTION_LEVEL_STACK_HEIGHT
    &&& 0 <= current_index < ixs.len()
    &&& ixs[current_index].program_id == this_program
    &&& 0 <= end_index < ixs.len()
    &&& ixs[end_index].discriminator == END_FLASHLOAN_DISCRIMINATOR
    &&& ixs[end_index].program_id == this_program
    &&& ixs[end_index].first_account_key == account_key
}

/// Validates the flash-loan begin checklist without touching the account.
pub fn check_flashloan_can_start(
    account: &LendingAccount,
    ixs: &Vec<TxInstruction>,
    current_index: usize,
    end_index: usize,
    this_program: u64,
    account_key: u64,
    stack_height: u64,
) -> (r: Result<(), AstrolendError>)
    ensures
        r is Ok <==> spec_flashloan_can_start(
            *account,
            ixs@,
            current_index as int,
            end_index as int,
            this_program,
            account_key,
            stack_height,
        ),
        r == Result::<(), AstrolendError>::Err(AstrolendError::AccountDisabled) <==>
            account.account_flags & DISABLED_FLAG != 0,
        r is Err ==> (r == Result::<(), AstrolendError>::Err(AstrolendError::AccountDisabled) || r
            == Result::<(), AstrolendError>::Err(AstrolendError::IllegalFlashloan)),
{
    if account.get_flag(DISABLED_FLAG) {
        return Err(AstrolendError::AccountDisabled);
    }
    if !(current_index < end_index) {
        return Err(AstrolendError::IllegalFlashloan);
    }
    if stack_height != TRANSACTION_LEVEL_STACK_HEIGHT {
        return Err(AstrolendError::IllegalFlashloan);
    }
    if !(current_index < ixs.len()) {
        return Err(AstrolendError::IllegalFlashloan);
    }
    if ixs[current_index].program_id != this_program {
        return Err(AstrolendError::IllegalFlashloan);
    }
    if !(end_index < ixs.len()) {
        return Err(AstrolendError::IllegalFlashloan);
    }
    let end_ix = ixs[end_index];
    if end_ix.discriminator != END_FLASHLOAN_DISCRIMINATOR {
        return Err(AstrolendError::IllegalFlashloan);
    }
    if end_ix.program_id != this_program {
        return Err(AstrolendError::IllegalFlashloan);
    }
    if end_ix.first_account_key != account_key {
        return Err(AstrolendError::IllegalFlashloan);
    }
    if account.get_flag(IN_FLASHLOAN_FLAG) {
        return Err(AstrolendError::IllegalFlashloan);
    }
    Ok(())
}

/// Begins a flash loan: after the checklist passes, the account is marked
/// in-flash-loan, which defers per-operation health gating to the matched
/// end instruction.
pub fn lending_account_start_flashloan(
    account: &mut LendingAccount,
    ixs: &Vec<TxInstruction>,
    current_index: usize,
    end_index: usize,
    this_program: u64,
    account_key: u64,
    stack_height: u64,
) -> (r: Result<(), AstrolendError>)
    ensures
        r is Err ==> *final(account) == *old(account),
        r is Ok <==> spec_flashloan_can_start(
            *old(account),
            ixs@,
            current_index as int,
            end_index as int,
            this_program,
            account_key,
            stack_height,
        ),
        r is Ok ==> *final(account) == (LendingAccount {
            account_flags: old(account).account_flags | IN_FLASHLOAN_FLAG,
            ..*old(account)
        }),
        r is Ok ==> final(account).account_flags & IN_FLASHLOAN_FLAG != 0,
{
    match check_flashloan_can_start(
        account,
        ixs,
        current_index,
        end_index,
        this_program,
        account_key,
        stack_height,
    ) {
        Ok(_) => (),
        Err(e) => {
            return Err(e);
        },
    }
    let f0 = account.account_flags;
    account.set_flag(IN_FLASHLOAN_FLAG);
    proof {
        let f: u64 = f0;
        assert((f | 2u64) & 2u64 != 0) by (bit_vector);
        assert(IN_FLASHLOAN_FLAG == 2u64);
    }
    Ok(())
}

/// Ends a flash loan: clears the in-flash-loan mark and performs the one
/// deferred initialization-health check. A failing check leaves the
/// account exactly as it was, mirroring the host's transaction rollback.
pub fn lending_account_end_flashloan(
    account: &mut LendingAccount,
    banks: &Vec<Bank>,
    oracles: &Vec<OraclePrice>,
    now: i64,
    stack_height: u64,
) -> (r: Result<(), AstrolendError>)
    requires
        risk_inputs_wf(*old(account), banks@, oracles@),
    ensures
        r is Err ==> *final(account) == *old(account),
        r == Result::<(), AstrolendError>::Err(AstrolendError::IllegalFlashloan) <==> stack_height
            != TRANSACTION_LEVEL_STACK_HEIGHT,
        r is Ok ==> *final(account) == (LendingAccount {
            account_flags: old(account).account_flags & !IN_FLASHLOAN_FLAG,
            ..*old(account)
        }),
        r is Ok ==> final(account).account_flags & IN_FLASHLOAN_FLAG == 0,
        r is Ok ==> spec_weighted_assets(
            final(account).balances@,
            banks@,
            oracles@,
            RiskRequirementType::Initial,
            final(account).balances.len() as int,
        ) >= spec_weighted_liabilities(
            final(account).balances@,
            banks@,
            oracles@,
            RiskRequirementType::Initial,
            final(account).balances.len() as int,
        ),
        stack_height == TRANSACTION_LEVEL_STACK_HEIGHT ==> (r == Result::<
            (),
            AstrolendError,
        >::Err(AstrolendError::IsolatedAccountIllegalState) <==> !crate::risk::spec_isolated_ok(
            old(account).balances@,
            banks@,
        )),
        (stack_height == TRANSACTION_LEVEL_STACK_HEIGHT && crate::risk::spec_isolated_ok(
            old(account).balances@,
            banks@,
        ) && crate::risk::spec_oracles_fresh(old(account).balances@, banks@, oracles@, now)
            && crate::risk::spec_oracles_confident(old(account).balances@, banks@, oracles@)
            && crate::risk::risk_inputs_bounded(old(account).balances@, banks@, oracles@)) ==> ({
            let healthy = spec_weighted_assets(
                old(account).balances@,
                banks@,
                oracles@,
                RiskRequirementType::Initial,
                old(account).balances.len() as int,
            ) >= spec_weighted_liabilities(
                old(account).balances@,
                banks@,
                oracles@,
                RiskRequirementType::Initial,
                old(account).balances.len() as int,
            );
            &&& (r is Ok <==> healthy)
            &&& (r == Result::<(), AstrolendError>::Err(AstrolendError::RiskEngineInitRejected)
                <==> !healthy)
        }),
{
    if stack_height != TRANSACTION_LEVEL_STACK_HEIGHT {
        return Err(AstrolendError::IllegalFlashloan);
    }
    let saved_flags = account.account_flags;
    account.unset_flag(IN_FLASHLOAN_FLAG);
    proof {
        let f: u64 = saved_flags;
        assert(f & !2u64 & 2u64 == 0) by (bit_vector);
        assert(IN_FLASHLOAN_FLAG == 2u64);
    }
    match check_account_init_health(account, banks, oracles, now) {
        Ok(_) => Ok(()),
        Err(e) => {
            account.account_flags = saved_flags;
            Err(e)
        },
    }
}

} // verus!
