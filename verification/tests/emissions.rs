use astrolend::account::LendingAccount;
use astrolend::bank::{BankConfig, BankOperationalState, RiskTier};
use astrolend::emissions::{
    lending_account_settle_emissions, lending_account_withdraw_emissions,
    lending_pool_setup_emissions, lending_pool_update_emissions_parameters,
    EMISSIONS_FLAG_LENDING_ACTIVE,
};
use astrolend::fixed_point::{Fx, FX_FRAC_RAW};
use astrolend::group::AstrolendGroup;
use astrolend::instructions::{
    astrolend_account_initialize, astrolend_group_initialize, lending_account_deposit,
    lending_pool_add_bank, lending_pool_collect_bank_fees,
};
use astrolend::price::OracleSetup;
use astrolend::rate::InterestRateConfig;

const NOW: i64 = 1_000;

fn bank_config() -> BankConfig {
    BankConfig {
        asset_weight_init: Fx { raw: FX_FRAC_RAW },
        asset_weight_maint: Fx { raw: FX_FRAC_RAW },
        liability_weight_init: Fx { raw: FX_FRAC_RAW },
        liability_weight_maint: Fx { raw: FX_FRAC_RAW },
        deposit_limit: u64::MAX,
        borrow_limit: u64::MAX,
        operational_state: BankOperationalState::Operational,
        risk_tier: RiskTier::Collateral,
        interest_rate_config: InterestRateConfig {
            optimal_utilization_rate: Fx { raw: FX_FRAC_RAW / 2 },
            plateau_interest_rate: Fx { raw: 0 },
            max_interest_rate: Fx { raw: 0 },
            insurance_fee_fixed_apr: Fx { raw: 0 },
            insurance_ir_fee: Fx { raw: 0 },
            protocol_fixed_fee_apr: Fx { raw: 0 },
            protocol_ir_fee: Fx { raw: 0 },
        },
        oracle_setup: OracleSetup::Stub,
        oracle_key: 0,
        oracle_max_age: 100,
    }
}

fn one_bank_setup() -> (AstrolendGroup, LendingAccount) {
    let mut group = astrolend_group_initialize(3, 9);
    lending_pool_add_bank(&mut group, 100, 6, bank_config());
    let account = astrolend_account_initialize(&group, 55);
    (group, account)
}

#[test]
fn emissions_accrue_and_pay_out() {
    let (mut group, mut account) = one_bank_setup();
    lending_account_deposit(&mut group, &mut account, 0, 100, NOW).unwrap();
    lending_pool_setup_emissions(&mut group, 0, EMISSIONS_FLAG_LENDING_ACTIVE, 3, 200, 1000)
        .unwrap();
    assert_eq!(group.banks[0].emissions_remaining, Fx::from_tokens(1000));

    // Stamp the slot without any elapsed time: nothing accrues.
    lending_account_settle_emissions(&mut group, &mut account, 0, 0).unwrap();
    assert_eq!(account.balances[0].emissions_outstanding, Fx::from_tokens(0));

    // The only depositor earns the full rate over ten seconds.
    lending_account_settle_emissions(&mut group, &mut account, 0, 10).unwrap();
    assert_eq!(account.balances[0].emissions_outstanding, Fx::from_tokens(30));
    assert_eq!(group.banks[0].emissions_remaining, Fx::from_tokens(970));

    let paid = lending_account_withdraw_emissions(&mut group, &mut account, 0, 10).unwrap();
    assert_eq!(paid, 30);
    assert_eq!(account.balances[0].emissions_outstanding, Fx::from_tokens(0));
}

#[test]
fn emissions_are_capped_by_the_budget() {
    let (mut group, mut account) = one_bank_setup();
    lending_account_deposit(&mut group, &mut account, 0, 100, NOW).unwrap();
    lending_pool_setup_emissions(&mut group, 0, EMISSIONS_FLAG_LENDING_ACTIVE, 3, 200, 20)
        .unwrap();

    lending_account_settle_emissions(&mut group, &mut account, 0, 0).unwrap();
    // Thirty tokens earned, but only twenty left in the budget.
    lending_account_settle_emissions(&mut group, &mut account, 0, 10).unwrap();
    assert_eq!(account.balances[0].emissions_outstanding, Fx::from_tokens(20));
    assert_eq!(group.banks[0].emissions_remaining, Fx::from_tokens(0));
}

#[test]
fn emissions_parameters_update() {
    let (mut group, _account) = one_bank_setup();
    lending_pool_setup_emissions(&mut group, 0, EMISSIONS_FLAG_LENDING_ACTIVE, 3, 200, 10)
        .unwrap();
    lending_pool_update_emissions_parameters(&mut group, 0, Some(5), Some(7)).unwrap();
    assert_eq!(group.banks[0].emissions_rate, 5);
    assert_eq!(group.banks[0].emissions_remaining, Fx::from_tokens(17));
    lending_pool_update_emissions_parameters(&mut group, 0, None, None).unwrap();
    assert_eq!(group.banks[0].emissions_rate, 5);
}

#[test]
fn fee_collection_drains_pending_counters() {
    let (mut group, mut account) = one_bank_setup();
    lending_account_deposit(&mut group, &mut account, 0, 1_000, NOW).unwrap();

    // Pretend accrual left pending fees of 2.5 and 1.5 tokens.
    let mut bank = group.banks[0];
    bank.collected_insurance_fees_outstanding = Fx { raw: 5 * FX_FRAC_RAW / 2 };
    bank.collected_group_fees_outstanding = Fx { raw: 3 * FX_FRAC_RAW / 2 };
    group.banks[0] = bank;

    lending_pool_collect_bank_fees(&mut group, 0).unwrap();
    let b = group.banks[0];
    // Whole tokens moved; the fractional remainders stay pending.
    assert_eq!(b.insurance_vault_balance, 2);
    assert_eq!(b.fee_vault_balance, 1);
    assert_eq!(b.liquidity_vault_balance, 1_000 - 3);
    assert_eq!(b.collected_insurance_fees_outstanding, Fx { raw: FX_FRAC_RAW / 2 });
    assert_eq!(b.collected_group_fees_outstanding, Fx { raw: FX_FRAC_RAW / 2 });
}
