use astrolend::account::{LendingAccount, DISABLED_FLAG, IN_FLASHLOAN_FLAG};
use astrolend::bank::{BankConfig, BankOperationalState, RiskTier};
use astrolend::errors::AstrolendError;
use astrolend::fixed_point::{Fx, FX_FRAC_RAW};
use astrolend::flashloan::{
    check_flashloan_can_start, lending_account_end_flashloan, lending_account_start_flashloan,
    TxInstruction, END_FLASHLOAN_DISCRIMINATOR,
};
use astrolend::group::AstrolendGroup;
use astrolend::instructions::{
    astrolend_account_close, astrolend_account_initialize, astrolend_group_initialize,
    lending_account_borrow, lending_account_close_balance, lending_account_deposit,
    lending_account_repay, lending_account_withdraw, lending_pool_add_bank,
};
use astrolend::liquidation::{lending_account_liquidate, lending_pool_handle_bankruptcy};
use astrolend::price::{OraclePrice, OracleSetup};
use astrolend::rate::InterestRateConfig;

const NOW: i64 = 1_000;
const THIS_PROGRAM: u64 = 77;

fn dummy_rate_config() -> InterestRateConfig {
    InterestRateConfig {
        optimal_utilization_rate: Fx { raw: FX_FRAC_RAW / 2 },
        plateau_interest_rate: Fx { raw: 0 },
        max_interest_rate: Fx { raw: 0 },
        insurance_fee_fixed_apr: Fx { raw: 0 },
        insurance_ir_fee: Fx { raw: 0 },
        protocol_fixed_fee_apr: Fx { raw: 0 },
        protocol_ir_fee: Fx { raw: 0 },
    }
}

fn dummy_bank_config(oracle_key: u64) -> BankConfig {
    BankConfig {
        asset_weight_init: Fx { raw: FX_FRAC_RAW },
        asset_weight_maint: Fx { raw: FX_FRAC_RAW },
        liability_weight_init: Fx { raw: FX_FRAC_RAW },
        liability_weight_maint: Fx { raw: FX_FRAC_RAW },
        deposit_limit: u64::MAX,
        borrow_limit: u64::MAX,
        operational_state: BankOperationalState::Operational,
        risk_tier: RiskTier::Collateral,
        interest_rate_config: dummy_rate_config(),
        oracle_setup: OracleSetup::Stub,
        oracle_key,
        oracle_max_age: 100,
    }
}

fn whole_price(p: u64) -> OraclePrice {
    OraclePrice {
        price: Fx::from_tokens(p),
        confidence: Fx { raw: 0 },
        publish_time: NOW,
    }
}

/// Two banks with unit prices, unit weights and no interest, each seeded
/// with a large deposit by an extra account, plus `n_users` fresh accounts.
fn setup(n_users: usize) -> (AstrolendGroup, Vec<OraclePrice>, Vec<LendingAccount>) {
    let mut group = astrolend_group_initialize(7, 42);
    for b in 0..2u64 {
        let key = lending_pool_add_bank(&mut group, 100 + b, 6, dummy_bank_config(b));
        assert_eq!(key, b);
    }
    let oracles = vec![whole_price(1), whole_price(1)];
    let mut accounts = Vec::new();
    for u in 0..n_users {
        accounts.push(astrolend_account_initialize(&group, 1_000 + u as u64));
    }
    // Seeding account, one deposit per bank.
    let mut seeder = astrolend_account_initialize(&group, 9_999);
    for b in 0..2usize {
        lending_account_deposit(&mut group, &mut seeder, b, 1_000_000_000, NOW).unwrap();
    }
    accounts.push(seeder);
    (group, oracles, accounts)
}

#[test]
fn deposit_test() {
    let (mut group, _oracles, mut accounts) = setup(2);
    assert_eq!(group.admin, 42);

    lending_account_deposit(&mut group, &mut accounts[0], 0, 1000, NOW).unwrap();

    assert_eq!(accounts[0].balances[0].asset_shares, Fx::from_tokens(1000));
    assert!(accounts[0].balances[0].active);
    assert_eq!(accounts[0].balances[0].bank_key, 0);
}

#[test]
fn borrow_test() {
    let (mut group, oracles, mut accounts) = setup(2);

    lending_account_deposit(&mut group, &mut accounts[1], 1, 1000, NOW).unwrap();
    lending_account_deposit(&mut group, &mut accounts[0], 0, 1000, NOW).unwrap();
    lending_account_borrow(&mut group, &mut accounts[0], 1, 100, &oracles, NOW).unwrap();

    assert_eq!(accounts[0].balances[0].asset_shares, Fx::from_tokens(1000));
    assert_eq!(
        accounts[0].balances[1].liability_shares,
        Fx::from_tokens(100)
    );

    lending_account_repay(&mut group, &mut accounts[0], 1, 100, Some(false), NOW).unwrap();

    assert_eq!(accounts[0].balances[1].liability_shares, Fx::from_tokens(0));
}

#[test]
fn liquidation_test() {
    let (mut group, mut oracles, mut accounts) = setup(3);

    lending_account_deposit(&mut group, &mut accounts[1], 1, 1000, NOW).unwrap();
    lending_account_deposit(&mut group, &mut accounts[0], 0, 1000, NOW).unwrap();
    lending_account_borrow(&mut group, &mut accounts[0], 1, 500, &oracles, NOW).unwrap();

    // The borrowed asset explodes in price; the borrower becomes unhealthy.
    oracles[1] = whole_price(10_000_000);

    lending_account_deposit(&mut group, &mut accounts[2], 1, 1000, NOW).unwrap();

    let (mut liquidator, mut liquidatee) = {
        let (a, b) = accounts.split_at_mut(2);
        (b[0].clone(), a[0].clone())
    };
    lending_account_liquidate(
        &mut group,
        &mut liquidator,
        &mut liquidatee,
        0,
        1,
        50,
        &oracles,
        NOW,
    )
    .unwrap();

    assert_eq!(liquidatee.balances[0].asset_shares, Fx::from_tokens(950));
    // The liquidator gained the seized collateral shares...
    assert_eq!(liquidator.balances[1].asset_shares, Fx::from_tokens(50));
    // ...and paid for them at a discount out of its deposit.
    assert!(liquidator.balances[0].asset_shares.raw < Fx::from_tokens(1000).raw);
    assert!(liquidator.balances[0].asset_shares.raw > 0);
}

#[test]
fn liquidation_and_bankruptcy() {
    let (mut group, mut oracles, mut accounts) = setup(3);

    lending_account_deposit(&mut group, &mut accounts[1], 1, 1000, NOW).unwrap();
    lending_account_deposit(&mut group, &mut accounts[0], 0, 1000, NOW).unwrap();
    lending_account_borrow(&mut group, &mut accounts[0], 1, 500, &oracles, NOW).unwrap();

    oracles[1] = whole_price(1_000_000);

    lending_account_deposit(&mut group, &mut accounts[2], 1, 1000, NOW).unwrap();

    let (mut liquidator, mut liquidatee) = {
        let (a, b) = accounts.split_at_mut(2);
        (b[0].clone(), a[0].clone())
    };
    // Seize the entire collateral.
    lending_account_liquidate(
        &mut group,
        &mut liquidator,
        &mut liquidatee,
        0,
        1,
        1000,
        &oracles,
        NOW,
    )
    .unwrap();

    assert_eq!(liquidatee.balances[0].asset_shares, Fx::from_tokens(0));

    let av_before = group.banks[1].asset_share_value;
    lending_pool_handle_bankruptcy(&mut group, &mut liquidatee, 1, &oracles, NOW).unwrap();

    assert_eq!(liquidatee.balances[0].asset_shares, Fx::from_tokens(0));
    assert_eq!(liquidatee.balances[0].liability_shares, Fx::from_tokens(0));
    assert_eq!(liquidatee.balances[1].liability_shares, Fx::from_tokens(0));
    // The residual loss was socialized: depositors' share value fell.
    assert!(group.banks[1].asset_share_value.raw < av_before.raw);
}

#[test]
fn flashloan_bracket_success() {
    let (mut group, oracles, mut accounts) = setup(1);
    let account_key = 555;
    let ixs = vec![
        TxInstruction { program_id: THIS_PROGRAM, discriminator: 1, first_account_key: account_key },
        TxInstruction { program_id: THIS_PROGRAM, discriminator: 2, first_account_key: account_key },
        TxInstruction { program_id: THIS_PROGRAM, discriminator: 3, first_account_key: account_key },
        TxInstruction {
            program_id: THIS_PROGRAM,
            discriminator: END_FLASHLOAN_DISCRIMINATOR,
            first_account_key: account_key,
        },
    ];
    let acct = &mut accounts[0];
    lending_account_start_flashloan(acct, &ixs, 0, 3, THIS_PROGRAM, account_key, 1).unwrap();
    assert!(acct.account_flags & IN_FLASHLOAN_FLAG != 0);

    // Uncollateralized borrow: the per-operation health gate is deferred.
    lending_account_borrow(&mut group, acct, 0, 100, &oracles, NOW).unwrap();
    // Settle the debt before the bracket closes.
    lending_account_repay(&mut group, acct, 0, 100, Some(true), NOW).unwrap();

    lending_account_end_flashloan(acct, &group.banks, &oracles, NOW, 1).unwrap();
    assert!(acct.account_flags & IN_FLASHLOAN_FLAG == 0);
}

#[test]
fn flashloan_unhealthy_end_fails() {
    let (mut group, oracles, mut accounts) = setup(1);
    let account_key = 555;
    let ixs = vec![
        TxInstruction { program_id: THIS_PROGRAM, discriminator: 1, first_account_key: account_key },
        TxInstruction {
            program_id: THIS_PROGRAM,
            discriminator: END_FLASHLOAN_DISCRIMINATOR,
            first_account_key: account_key,
        },
    ];
    let acct = &mut accounts[0];
    lending_account_start_flashloan(acct, &ixs, 0, 1, THIS_PROGRAM, account_key, 1).unwrap();
    lending_account_borrow(&mut group, acct, 0, 100, &oracles, NOW).unwrap();

    // The debt was never settled: the deferred health check rejects.
    let res = lending_account_end_flashloan(acct, &group.banks, &oracles, NOW, 1);
    assert_eq!(res, Err(AstrolendError::RiskEngineInitRejected));
}

#[test]
fn flashloan_checklist() {
    let (_group, _oracles, accounts) = setup(1);
    let account_key = 555;
    let good_end = TxInstruction {
        program_id: THIS_PROGRAM,
        discriminator: END_FLASHLOAN_DISCRIMINATOR,
        first_account_key: account_key,
    };
    let start = TxInstruction {
        program_id: THIS_PROGRAM,
        discriminator: 1,
        first_account_key: account_key,
    };
    let acct = &accounts[0];

    // A matched bracket passes the checklist.
    let ixs = vec![start, good_end];
    assert!(check_flashloan_can_start(acct, &ixs, 0, 1, THIS_PROGRAM, account_key, 1).is_ok());

    // The end must come after the start.
    assert_eq!(
        check_flashloan_can_start(acct, &ixs, 1, 1, THIS_PROGRAM, account_key, 1),
        Err(AstrolendError::IllegalFlashloan)
    );
    // A nested invocation may not begin a flash loan.
    assert_eq!(
        check_flashloan_can_start(acct, &ixs, 0, 1, THIS_PROGRAM, account_key, 2),
        Err(AstrolendError::IllegalFlashloan)
    );
    // The end instruction must carry the end-flashloan discriminator.
    let ixs_bad = vec![start, start];
    assert_eq!(
        check_flashloan_can_start(acct, &ixs_bad, 0, 1, THIS_PROGRAM, account_key, 1),
        Err(AstrolendError::IllegalFlashloan)
    );
    // The end instruction must target the same program.
    let mut foreign_end = good_end;
    foreign_end.program_id = 99;
    let ixs_foreign = vec![start, foreign_end];
    assert_eq!(
        check_flashloan_can_start(acct, &ixs_foreign, 0, 1, THIS_PROGRAM, account_key, 1),
        Err(AstrolendError::IllegalFlashloan)
    );
    // The end instruction must name the same account.
    let mut other_account = good_end;
    other_account.first_account_key = 556;
    let ixs_other = vec![start, other_account];
    assert_eq!(
        check_flashloan_can_start(acct, &ixs_other, 0, 1, THIS_PROGRAM, account_key, 1),
        Err(AstrolendError::IllegalFlashloan)
    );
}

#[test]
fn close_astrolend_account() {
    let (mut group, oracles, mut accounts) = setup(2);

    // A fresh account with nothing in it may close.
    let empty = astrolend_account_initialize(&group, 4_242);
    assert!(astrolend_account_close(&empty).is_ok());

    // Any nonzero share forbids closing.
    lending_account_deposit(&mut group, &mut accounts[0], 0, 1000, NOW).unwrap();
    assert_eq!(
        astrolend_account_close(&accounts[0]),
        Err(AstrolendError::IllegalAction)
    );

    // Borrow a little on the other side too.
    lending_account_borrow(&mut group, &mut accounts[0], 1, 10, &oracles, NOW).unwrap();
    assert_eq!(
        astrolend_account_close(&accounts[0]),
        Err(AstrolendError::IllegalAction)
    );

    // Repay everything and pull the deposit out; the slots are freed.
    lending_account_repay(&mut group, &mut accounts[0], 1, 10, Some(true), NOW).unwrap();
    lending_account_withdraw(&mut group, &mut accounts[0], 0, 1000, Some(true), &oracles, NOW)
        .unwrap();

    assert!(astrolend_account_close(&accounts[0]).is_ok());
}

#[test]
fn deposit_of_zero_is_a_no_op() {
    let (mut group, _oracles, mut accounts) = setup(1);
    let total_before = group.banks[0].total_asset_shares;
    lending_account_deposit(&mut group, &mut accounts[0], 0, 0, NOW).unwrap();
    assert_eq!(group.banks[0].total_asset_shares, total_before);
    assert_eq!(accounts[0].balances[0].asset_shares, Fx::from_tokens(0));
}

#[test]
fn borrow_limit_boundary() {
    let (mut group, oracles, mut accounts) = setup(1);
    let mut cfg = dummy_bank_config(1);
    cfg.borrow_limit = 500;
    astrolend::instructions::lending_pool_configure_bank(&mut group, 1, cfg).unwrap();

    lending_account_deposit(&mut group, &mut accounts[0], 0, 10_000, NOW).unwrap();
    // Borrowing up to exactly the limit succeeds.
    lending_account_borrow(&mut group, &mut accounts[0], 1, 500, &oracles, NOW).unwrap();
    // One token more fails.
    assert_eq!(
        lending_account_borrow(&mut group, &mut accounts[0], 1, 1, &oracles, NOW),
        Err(AstrolendError::BorrowLimitExceeded)
    );
}

#[test]
fn deposit_limit_boundary() {
    let (mut group, _oracles, mut accounts) = setup(1);
    let mut cfg = dummy_bank_config(0);
    cfg.deposit_limit = 1_000_000_000 + 100;
    astrolend::instructions::lending_pool_configure_bank(&mut group, 0, cfg).unwrap();

    lending_account_deposit(&mut group, &mut accounts[0], 0, 100, NOW).unwrap();
    assert_eq!(
        lending_account_deposit(&mut group, &mut accounts[0], 0, 1, NOW),
        Err(AstrolendError::DepositLimitExceeded)
    );
}

#[test]
fn operation_shape_errors() {
    let (mut group, oracles, mut accounts) = setup(2);

    // Depositing into a borrow-side slot is refused.
    lending_account_deposit(&mut group, &mut accounts[0], 0, 1000, NOW).unwrap();
    lending_account_borrow(&mut group, &mut accounts[0], 1, 10, &oracles, NOW).unwrap();
    assert_eq!(
        lending_account_deposit(&mut group, &mut accounts[0], 1, 10, NOW),
        Err(AstrolendError::OperationDepositOnly)
    );
    // Withdrawing from it is refused too.
    assert_eq!(
        lending_account_withdraw(&mut group, &mut accounts[0], 1, 1, None, &oracles, NOW),
        Err(AstrolendError::OperationWithdrawOnly)
    );
    // Repaying the deposit-side slot is refused.
    assert_eq!(
        lending_account_repay(&mut group, &mut accounts[0], 0, 1, None, NOW),
        Err(AstrolendError::OperationRepayOnly)
    );
    // Borrowing from the deposit-side slot is refused.
    assert_eq!(
        lending_account_borrow(&mut group, &mut accounts[0], 0, 1, &oracles, NOW),
        Err(AstrolendError::OperationBorrowOnly)
    );
    // Withdrawing more than the position holds finds no such asset.
    assert_eq!(
        lending_account_withdraw(&mut group, &mut accounts[0], 0, 2000, None, &oracles, NOW),
        Err(AstrolendError::NoAssetFound)
    );
    // Repaying more than is owed finds no such debt.
    assert_eq!(
        lending_account_repay(&mut group, &mut accounts[0], 1, 2000, None, NOW),
        Err(AstrolendError::NoLiabilityFound)
    );
    // An account without a position in the bank cannot withdraw from it.
    assert_eq!(
        lending_account_withdraw(&mut group, &mut accounts[1], 0, 1, None, &oracles, NOW),
        Err(AstrolendError::BankAccountNotFound)
    );
}

#[test]
fn disabled_and_paused_errors() {
    let (mut group, _oracles, mut accounts) = setup(1);

    accounts[0].account_flags = DISABLED_FLAG;
    assert_eq!(
        lending_account_deposit(&mut group, &mut accounts[0], 0, 1, NOW),
        Err(AstrolendError::AccountDisabled)
    );
    accounts[0].account_flags = 0;

    let mut cfg = dummy_bank_config(0);
    cfg.operational_state = BankOperationalState::Paused;
    astrolend::instructions::lending_pool_configure_bank(&mut group, 0, cfg).unwrap();
    assert_eq!(
        lending_account_deposit(&mut group, &mut accounts[0], 0, 1, NOW),
        Err(AstrolendError::BankPaused)
    );

    let mut cfg = dummy_bank_config(0);
    cfg.operational_state = BankOperationalState::ReduceOnly;
    astrolend::instructions::lending_pool_configure_bank(&mut group, 0, cfg).unwrap();
    assert_eq!(
        lending_account_deposit(&mut group, &mut accounts[0], 0, 1, NOW),
        Err(AstrolendError::IllegalAction)
    );
}

#[test]
fn isolated_tier_discipline() {
    let (mut group, oracles, mut accounts) = setup(1);
    let mut cfg = dummy_bank_config(2);
    cfg.risk_tier = RiskTier::Isolated;
    let key = lending_pool_add_bank(&mut group, 102, 6, cfg);
    assert_eq!(key, 2);
    let mut oracles = oracles.clone();
    oracles.push(whole_price(1));
    // Seed the isolated bank so there is something to borrow.
    let mut seeder = astrolend_account_initialize(&group, 777);
    lending_account_deposit(&mut group, &mut seeder, 2, 1_000_000, NOW).unwrap();

    lending_account_deposit(&mut group, &mut accounts[0], 0, 1000, NOW).unwrap();
    lending_account_borrow(&mut group, &mut accounts[0], 1, 10, &oracles, NOW).unwrap();

    // A debt elsewhere forbids borrowing from an isolated-tier bank.
    assert_eq!(
        lending_account_borrow(&mut group, &mut accounts[0], 2, 10, &oracles, NOW),
        Err(AstrolendError::IsolatedAccountIllegalState)
    );
}

#[test]
fn liquidation_of_healthy_account_is_refused() {
    let (mut group, oracles, mut accounts) = setup(3);
    lending_account_deposit(&mut group, &mut accounts[0], 0, 1000, NOW).unwrap();
    lending_account_deposit(&mut group, &mut accounts[2], 1, 1000, NOW).unwrap();

    let (mut liquidator, mut liquidatee) = {
        let (a, b) = accounts.split_at_mut(2);
        (b[0].clone(), a[0].clone())
    };
    assert_eq!(
        lending_account_liquidate(
            &mut group,
            &mut liquidator,
            &mut liquidatee,
            0,
            1,
            50,
            &oracles,
            NOW,
        ),
        Err(AstrolendError::IllegalLiquidation)
    );
}

#[test]
fn zero_amount_liquidation_is_refused() {
    let (mut group, mut oracles, mut accounts) = setup(3);
    lending_account_deposit(&mut group, &mut accounts[1], 1, 1000, NOW).unwrap();
    lending_account_deposit(&mut group, &mut accounts[0], 0, 1000, NOW).unwrap();
    lending_account_borrow(&mut group, &mut accounts[0], 1, 500, &oracles, NOW).unwrap();
    oracles[1] = whole_price(10_000_000);
    lending_account_deposit(&mut group, &mut accounts[2], 1, 1000, NOW).unwrap();

    let (mut liquidator, mut liquidatee) = {
        let (a, b) = accounts.split_at_mut(2);
        (b[0].clone(), a[0].clone())
    };
    // Seizing nothing is not a liquidation, even of an unhealthy account.
    assert_eq!(
        lending_account_liquidate(
            &mut group,
            &mut liquidator,
            &mut liquidatee,
            0,
            1,
            0,
            &oracles,
            NOW,
        ),
        Err(AstrolendError::IllegalLiquidation)
    );
    assert_eq!(liquidatee.balances[0].asset_shares, Fx::from_tokens(1000));
}

#[test]
fn bankruptcy_of_solvent_account_is_refused() {
    let (mut group, oracles, mut accounts) = setup(1);
    lending_account_deposit(&mut group, &mut accounts[0], 0, 1000, NOW).unwrap();
    let mut acct = accounts.remove(0);
    assert_eq!(
        lending_pool_handle_bankruptcy(&mut group, &mut acct, 0, &oracles, NOW),
        Err(AstrolendError::AccountNotBankrupt)
    );
}

#[test]
fn close_balance_is_idempotent_on_empty_slots() {
    let (mut group, oracles, mut accounts) = setup(1);
    lending_account_deposit(&mut group, &mut accounts[0], 0, 1000, NOW).unwrap();
    lending_account_withdraw(&mut group, &mut accounts[0], 0, 1000, None, &oracles, NOW)
        .unwrap();
    // The slot is empty but still active: closing frees it.
    assert!(accounts[0].balances[0].active);
    lending_account_close_balance(&mut group, &mut accounts[0], 0, NOW).unwrap();
    assert!(!accounts[0].balances[0].active);
    // Closing again is a no-op, not an error.
    lending_account_close_balance(&mut group, &mut accounts[0], 0, NOW).unwrap();
    // A non-empty slot is rejected.
    lending_account_deposit(&mut group, &mut accounts[0], 0, 5, NOW).unwrap();
    assert_eq!(
        lending_account_close_balance(&mut group, &mut accounts[0], 0, NOW),
        Err(AstrolendError::IllegalAction)
    );
}

#[test]
fn accrual_is_idempotent_without_time() {
    let (mut group, oracles, mut accounts) = setup(1);
    lending_account_deposit(&mut group, &mut accounts[0], 0, 1000, NOW).unwrap();
    lending_account_borrow(&mut group, &mut accounts[0], 1, 100, &oracles, NOW).unwrap();
    let before = group.banks[1];
    astrolend::instructions::lending_pool_accrue_bank_interest(&mut group, 1, NOW).unwrap();
    assert_eq!(group.banks[1], before);
    // A clock running backwards is rejected.
    assert_eq!(
        astrolend::instructions::lending_pool_accrue_bank_interest(&mut group, 1, NOW - 1),
        Err(AstrolendError::ClockRegression)
    );
}

#[test]
fn interest_accrues_and_respects_rounding() {
    let (mut group, oracles, mut accounts) = setup(1);
    // Give the second bank a real rate curve: 50% plateau at 50% use.
    let mut cfg = dummy_bank_config(1);
    cfg.interest_rate_config.plateau_interest_rate = Fx { raw: FX_FRAC_RAW / 2 };
    cfg.interest_rate_config.max_interest_rate = Fx { raw: 2 * FX_FRAC_RAW };
    astrolend::instructions::lending_pool_configure_bank(&mut group, 1, cfg).unwrap();

    lending_account_deposit(&mut group, &mut accounts[0], 0, 1_000_000_000, NOW).unwrap();
    lending_account_borrow(&mut group, &mut accounts[0], 1, 400_000_000, &oracles, NOW).unwrap();

    let lv_before = group.banks[1].liability_share_value;
    let av_before = group.banks[1].asset_share_value;
    let one_month: i64 = 2_592_000;
    astrolend::instructions::lending_pool_accrue_bank_interest(&mut group, 1, NOW + one_month)
        .unwrap();
    // Borrow interest accrued, and depositors earned no more than borrowers
    // paid per unit.
    assert!(group.banks[1].liability_share_value.raw > lv_before.raw);
    assert!(group.banks[1].asset_share_value.raw >= av_before.raw);
    assert!(
        group.banks[1].liability_share_value.raw - lv_before.raw
            >= group.banks[1].asset_share_value.raw - av_before.raw
    );
}

#[test]
fn deposit_withdraw_round_trip_never_pays_extra() {
    let (mut group, oracles, mut accounts) = setup(1);
    // Let interest run so the share value is no longer exactly one.
    let mut cfg = dummy_bank_config(0);
    cfg.interest_rate_config.plateau_interest_rate = Fx { raw: FX_FRAC_RAW / 2 };
    cfg.interest_rate_config.max_interest_rate = Fx { raw: 2 * FX_FRAC_RAW };
    astrolend::instructions::lending_pool_configure_bank(&mut group, 0, cfg).unwrap();
    lending_account_deposit(&mut group, &mut accounts[0], 1, 1_000_000_000, NOW).unwrap();
    lending_account_borrow(&mut group, &mut accounts[0], 0, 300_000_000, &oracles, NOW).unwrap();
    let later = NOW + 1_000_000;
    astrolend::instructions::lending_pool_accrue_bank_interest(&mut group, 0, later).unwrap();
    assert!(group.banks[0].asset_share_value.raw > FX_FRAC_RAW);

    let fresh_oracles = vec![
        OraclePrice { price: Fx::from_tokens(1), confidence: Fx { raw: 0 }, publish_time: later },
        OraclePrice { price: Fx::from_tokens(1), confidence: Fx { raw: 0 }, publish_time: later },
    ];
    let deposited: u64 = 777;
    let mut probe = astrolend_account_initialize(&group, 31_337);
    lending_account_deposit(&mut group, &mut probe, 0, deposited, later).unwrap();
    let paid = lending_account_withdraw(
        &mut group,
        &mut probe,
        0,
        0,
        Some(true),
        &fresh_oracles,
        later,
    )
    .unwrap();
    assert!(paid <= deposited);
}

#[test]
fn unhealthy_borrow_is_rejected_and_rolled_back() {
    let (mut group, oracles, mut accounts) = setup(1);
    lending_account_deposit(&mut group, &mut accounts[0], 0, 1000, NOW).unwrap();
    let before = accounts[0].balances[1];
    // Ten times the collateral's value cannot be borrowed.
    assert_eq!(
        lending_account_borrow(&mut group, &mut accounts[0], 1, 10_000, &oracles, NOW),
        Err(AstrolendError::RiskEngineInitRejected)
    );
    // The rejected borrow left no trace.
    assert_eq!(accounts[0].balances[1], before);
    assert_eq!(group.banks[1].total_liability_shares, Fx::from_tokens(0));
}

#[test]
fn stale_oracle_blocks_withdrawal() {
    let (mut group, oracles, mut accounts) = setup(1);
    lending_account_deposit(&mut group, &mut accounts[0], 0, 1000, NOW).unwrap();
    lending_account_borrow(&mut group, &mut accounts[0], 1, 10, &oracles, NOW).unwrap();
    // Far past the oracle's maximum age, health cannot be assessed.
    let later = NOW + 1_000;
    assert_eq!(
        lending_account_withdraw(&mut group, &mut accounts[0], 0, 10, None, &oracles, later),
        Err(AstrolendError::StaleOracle)
    );
}
