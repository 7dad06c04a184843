use vstd::prelude::*;
use vstd::arithmetic::div_mod::{
    lemma_div_denominator, lemma_div_is_ordered, lemma_div_multiples_vanish,
    lemma_div_pos_is_pos,
};
use vstd::arithmetic::mul::{
    lemma_mul_inequality, lemma_mul_is_commutative, lemma_mul_upper_bound,
};

use crate::errors::AstrolendError;
use crate::fixed_point::{
    fx_div_ceil_spec, fx_div_spec, fx_frac, fx_mul_spec, Fx, FX_FRAC_RAW,
};
use crate::price::OracleSetup;
use crate::rate::{
    calc_interest_rate, rate_bound, spec_borrowing_apr, spec_insurance_apr, spec_lending_apr,
    spec_protocol_apr, InterestRateConfig,
};

verus! {

pub const SECONDS_PER_YEAR: u64 = 31_536_000;

pub open spec fn seconds_per_year() -> int {
    31_536_000
}

/// Longest accrual step for which success is promised: about two years.
pub const MAX_ACCRUAL_STEP: i64 = 0x400_0000;

/// Raw share-count bound under which every protocol computation is promised
/// to stay in range.
pub open spec fn shares_bound() -> int {
    0x1000_0000_0000_0000_0000_0000
}

/// Raw share-value bound under which every protocol computation is promised
/// to stay in range.
pub open spec fn share_value_bound() -> int {
    0x10_0000_0000_0000
}

/// Raw bound on pending fee counters under which fee accrual is promised to
/// stay in range.
pub open spec fn fee_counter_bound() -> int {
    0x4000_0000_0000_0000_0000_0000_0000
}

#[derive(Clone, Copy, Debug, PartialEq, Eq, Structural)]
pub enum BankOperationalState {
    Paused,
    Operational,
    ReduceOnly,
}

#[derive(Clone, Copy, Debug, PartialEq, Eq, Structural)]
pub enum RiskTier {
    Collateral,
    Isolated,
}

/// Per-bank risk and rate configuration.
#[derive(Clone, Copy, Debug, PartialEq, Eq, Structural)]
pub struct BankConfig {
    pub asset_weight_init: Fx,
    pub asset_weight_maint: Fx,
    pub liability_weight_init: Fx,
    pub liability_weight_maint: Fx,
    pub deposit_limit: u64,
    pub borrow_limit: u64,
    pub operational_state: BankOperationalState,
    pub risk_tier: RiskTier,
    pub interest_rate_config: InterestRateConfig,
    pub oracle_setup: OracleSetup,
    pub oracle_key: u64,
    pub oracle_max_age: u64,
}

impl BankConfig {
    /// Asset weights lie in [0, 1] with the initial one at most the
    /// maintenance one; liability weights lie in [1, 4] the other way
    /// around; the rate curve is well formed. The cap of four on liability
    /// weights is a machine limit: it keeps every weighted liability value
    /// inside the 128-bit backing under the stated magnitude bounds, and
    /// sits far above the premia (typically 1.0 to 1.5) a deployment
    /// configures.
    pub open spec fn wf(self) -> bool {
        &&& 0 <= self.asset_weight_init.raw <= self.asset_weight_maint.raw <= fx_frac()
        &&& fx_frac() <= self.liability_weight_maint.raw <= self.liability_weight_init.raw
        &&& self.liability_weight_init.raw <= 4 * fx_frac()
        &&& self.interest_rate_config.wf()
    }
}

/// Per-asset pool: share ledgers, share values, configuration, pending fee
/// counters and the balances of the three bank-owned vaults.
#[derive(Clone, Copy, Debug, PartialEq, Eq, Structural)]
pub struct Bank {
    pub key: u64,
    pub group: u64,
    pub mint: u64,
    pub mint_decimals: u8,
    pub total_asset_shares: Fx,
    pub total_liability_shares: Fx,
    pub asset_share_value: Fx,
    pub liability_share_value: Fx,
    pub last_update: i64,
    pub config: BankConfig,
    pub liquidity_vault_balance: u64,
    pub insurance_vault_balance: u64,
    pub fee_vault_balance: u64,
    pub collected_insurance_fees_outstanding: Fx,
    pub collected_group_fees_outstanding: Fx,
    pub emissions_flags: u64,
    pub emissions_rate: u64,
    pub emissions_remaining: Fx,
    pub emissions_mint: u64,
}

impl Bank {
    pub open spec fn wf(self) -> bool {
        &&& self.config.wf()
        &&& self.asset_share_value.raw >= 1
        &&& self.liability_share_value.raw >= 1
        &&& self.total_asset_shares.raw >= 0
        &&& self.total_liability_shares.raw >= 0
        &&& self.collected_insurance_fees_outstanding.raw >= 0
        &&& self.collected_group_fees_outstanding.raw >= 0
        &&& self.emissions_remaining.raw >= 0
        &&& self.last_update >= 0
        &&& self.mint_decimals <= 12
    }

    /// Bounds under which the contracts promise that checked arithmetic
    /// succeeds.
    pub open spec fn amounts_bounded(self) -> bool {
        &&& self.total_asset_shares.raw <= shares_bound()
        &&& self.total_liability_shares.raw <= shares_bound()
        &&& self.asset_share_value.raw <= share_value_bound()
        &&& self.liability_share_value.raw <= share_value_bound()
        &&& self.collected_insurance_fees_outstanding.raw <= fee_counter_bound()
        &&& self.collected_group_fees_outstanding.raw <= fee_counter_bound()
    }

    /// Total deposited tokens, in raw fixed-point units.
    pub open spec fn spec_asset_tokens(self) -> int {
        fx_mul_spec(self.total_asset_shares.raw as int, self.asset_share_value.raw as int)
    }

    /// Total borrowed tokens, in raw fixed-point units.
    pub open spec fn spec_liability_tokens(self) -> int {
        fx_mul_spec(self.total_liability_shares.raw as int, self.liability_share_value.raw as int)
    }

    /// Utilization clamped to [0, 1].
    pub open spec fn spec_utilization(self) -> int {
        if self.spec_liability_tokens() >= self.spec_asset_tokens() {
            fx_frac()
        } else {
            fx_div_spec(self.spec_liability_tokens(), self.spec_asset_tokens())
        }
    }

    /// The state of a freshly added bank.
    pub open spec fn new_spec(
        key: u64,
        group: u64,
        mint: u64,
        mint_decimals: u8,
        config: BankConfig,
    ) -> Bank {
        Bank {
            key,
            group,
            mint,
            mint_decimals,
            total_asset_shares: Fx { raw: 0 },
            total_liability_shares: Fx { raw: 0 },
            asset_share_value: Fx { raw: FX_FRAC_RAW },
            liability_share_value: Fx { raw: FX_FRAC_RAW },
            last_update: 0,
            config,
            liquidity_vault_balance: 0,
            insurance_vault_balance: 0,
            fee_vault_balance: 0,
            collected_insurance_fees_outstanding: Fx { raw: 0 },
            collected_group_fees_outstanding: Fx { raw: 0 },
            emissions_flags: 0,
            emissions_rate: 0,
            emissions_remaining: Fx { raw: 0 },
            emissions_mint: 0,
        }
    }

    /// A freshly added bank: empty ledgers, unit share values, empty vaults.
    pub fn new(key: u64, group: u64, mint: u64, mint_decimals: u8, config: BankConfig) -> (r: Bank)
        requires
            config.wf(),
            mint_decimals <= 12,
        ensures
            r.wf(),
            r.amounts_bounded(),
            r == Bank::new_spec(key, group, mint, mint_decimals, config),
            r == (Bank {
                key,
                group,
                mint,
                mint_decimals,
                total_asset_shares: Fx { raw: 0 },
                total_liability_shares: Fx { raw: 0 },
                asset_share_value: Fx { raw: FX_FRAC_RAW },
                liability_share_value: Fx { raw: FX_FRAC_RAW },
                last_update: 0,
                config,
                liquidity_vault_balance: 0,
                insurance_vault_balance: 0,
                fee_vault_balance: 0,
                collected_insurance_fees_outstanding: Fx { raw: 0 },
                collected_group_fees_outstanding: Fx { raw: 0 },
                emissions_flags: 0,
                emissions_rate: 0,
                emissions_remaining: Fx { raw: 0 },
                emissions_mint: 0,
            }),
    {
        Bank {
            key,
            group,
            mint,
            mint_decimals,
            total_asset_shares: Fx { raw: 0 },
            total_liability_shares: Fx { raw: 0 },
            asset_share_value: Fx { raw: FX_FRAC_RAW },
            liability_share_value: Fx { raw: FX_FRAC_RAW },
            last_update: 0,
            config,
            liquidity_vault_balance: 0,
            insurance_vault_balance: 0,
            fee_vault_balance: 0,
            collected_insurance_fees_outstanding: Fx { raw: 0 },
            collected_group_fees_outstanding: Fx { raw: 0 },
            emissions_flags: 0,
            emissions_rate: 0,
            emissions_remaining: Fx { raw: 0 },
            emissions_mint: 0,
        }
    }

    /// Tokens worth of a count of asset shares, rounded down.
    pub fn get_asset_amount(&self, shares: Fx) -> (r: Result<Fx, AstrolendError>)
        requires
            self.wf(),
            shares.raw >= 0,
        ensures
            r matches Ok(a) ==> a.raw == fx_mul_spec(
                shares.raw as int,
                self.asset_share_value.raw as int,
            ),
            r is Ok <==> fx_mul_spec(shares.raw as int, self.asset_share_value.raw as int)
                <= i128::MAX,
            r is Err ==> r == Result::<Fx, AstrolendError>::Err(AstrolendError::MathError),
    {
        crate::fixed_point::fx_require(
            crate::fixed_point::fx_checked_mul(shares, self.asset_share_value),
        )
    }

    /// Tokens owed for a count of liability shares, rounded down.
    pub fn get_liability_amount(&self, shares: Fx) -> (r: Result<Fx, AstrolendError>)
        requires
            self.wf(),
            shares.raw >= 0,
        ensures
            r matches Ok(a) ==> a.raw == fx_mul_spec(
                shares.raw as int,
                self.liability_share_value.raw as int,
            ),
            r is Ok <==> fx_mul_spec(shares.raw as int, self.liability_share_value.raw as int)
                <= i128::MAX,
            r is Err ==> r == Result::<Fx, AstrolendError>::Err(AstrolendError::MathError),
    {
        crate::fixed_point::fx_require(
            crate::fixed_point::fx_checked_mul(shares, self.liability_share_value),
        )
    }

    /// Asset shares bought by a token amount, rounded down (crediting the
    /// user rounds in the pool's favor).
    pub fn get_asset_shares_floor(&self, tokens: Fx) -> (r: Result<Fx, AstrolendError>)
        requires
            self.wf(),
            tokens.raw >= 0,
        ensures
            r matches Ok(s) ==> s.raw == fx_div_spec(
                tokens.raw as int,
                self.asset_share_value.raw as int,
            ),
            r is Ok <==> fx_div_spec(tokens.raw as int, self.asset_share_value.raw as int)
                <= i128::MAX,
            r is Err ==> r == Result::<Fx, AstrolendError>::Err(AstrolendError::MathError),
    {
        crate::fixed_point::fx_require(
            crate::fixed_point::fx_checked_div(tokens, self.asset_share_value),
        )
    }

    /// Asset shares burned for a token amount, rounded up (debiting the
    /// user rounds in the pool's favor).
    pub fn get_asset_shares_ceil(&self, tokens: Fx) -> (r: Result<Fx, AstrolendError>)
        requires
            self.wf(),
            tokens.raw >= 0,
        ensures
            r matches Ok(s) ==> s.raw == fx_div_ceil_spec(
                tokens.raw as int,
                self.asset_share_value.raw as int,
            ),
            r is Ok <==> fx_div_ceil_spec(tokens.raw as int, self.asset_share_value.raw as int)
                <= i128::MAX,
            r is Err ==> r == Result::<Fx, AstrolendError>::Err(AstrolendError::MathError),
    {
        crate::fixed_point::fx_require(
            crate::fixed_point::fx_div_ceil(tokens, self.asset_share_value),
        )
    }

    /// Liability shares incurred by a token amount, rounded up (incurring
    /// debt rounds against the user).
    pub fn get_liability_shares_ceil(&self, tokens: Fx) -> (r: Result<Fx, AstrolendError>)
        requires
            self.wf(),
            tokens.raw >= 0,
        ensures
            r matches Ok(s) ==> s.raw == fx_div_ceil_spec(
                tokens.raw as int,
                self.liability_share_value.raw as int,
            ),
            r is Ok <==> fx_div_ceil_spec(tokens.raw as int, self.liability_share_value.raw as int)
                <= i128::MAX,
            r is Err ==> r == Result::<Fx, AstrolendError>::Err(AstrolendError::MathError),
    {
        crate::fixed_point::fx_require(
            crate::fixed_point::fx_div_ceil(tokens, self.liability_share_value),
        )
    }

    /// Liability shares settled by a token amount, rounded down (repaying
    /// debt rounds against the user).
    pub fn get_liability_shares_floor(&self, tokens: Fx) -> (r: Result<Fx, AstrolendError>)
        requires
            self.wf(),
            tokens.raw >= 0,
        ensures
            r matches Ok(s) ==> s.raw == fx_div_spec(
                tokens.raw as int,
                self.liability_share_value.raw as int,
            ),
            r is Ok <==> fx_div_spec(tokens.raw as int, self.liability_share_value.raw as int)
                <= i128::MAX,
            r is Err ==> r == Result::<Fx, AstrolendError>::Err(AstrolendError::MathError),
    {
        crate::fixed_point::fx_require(
            crate::fixed_point::fx_checked_div(tokens, self.liability_share_value),
        )
    }
}

/// Accrual factor for an APR over `dt` seconds: `apr * dt / SECONDS_PER_YEAR`,
/// evaluated in the order the implementation uses.
pub open spec fn spec_rate_factor(apr: int, dt: int) -> int {
    fx_div_spec(fx_mul_spec(apr, dt * fx_frac()), seconds_per_year() * fx_frac())
}

impl Bank {
    /// Asset share value after accruing over `dt` seconds.
    pub open spec fn spec_accrued_asset_share_value(self, dt: int) -> int {
        fx_mul_spec(
            self.asset_share_value.raw as int,
            fx_frac() + spec_rate_factor(
                spec_lending_apr(self.config.interest_rate_config, self.spec_utilization()),
                dt,
            ),
        )
    }

    /// Liability share value after accruing over `dt` seconds.
    pub open spec fn spec_accrued_liability_share_value(self, dt: int) -> int {
        fx_mul_spec(
            self.liability_share_value.raw as int,
            fx_frac() + spec_rate_factor(
                spec_borrowing_apr(self.config.interest_rate_config, self.spec_utilization()),
                dt,
            ),
        )
    }

    /// Tokens newly owed to the insurance vault after accruing over `dt`
    /// seconds.
    pub open spec fn spec_accrued_insurance_fees(self, dt: int) -> int {
        fx_mul_spec(
            self.spec_liability_tokens(),
            spec_rate_factor(
                spec_insurance_apr(self.config.interest_rate_config, self.spec_utilization()),
                dt,
            ),
        )
    }

    /// Tokens newly owed to the fee vault after accruing over `dt` seconds.
    pub open spec fn spec_accrued_group_fees(self, dt: int) -> int {
        fx_mul_spec(
            self.spec_liability_tokens(),
            spec_rate_factor(
                spec_protocol_apr(self.config.interest_rate_config, self.spec_utilization()),
                dt,
            ),
        )
    }

    /// Whether accrual at `now` leaves the ledgers untouched: no time has
    /// passed, or one side of the pool is empty.
    pub open spec fn spec_accrual_is_noop(self, now: i64) -> bool {
        now == self.last_update || self.spec_asset_tokens() == 0 || self.spec_liability_tokens()
            == 0
    }

    /// The fields accrual may touch, and no others: share values, pending
    /// fee counters and the timestamp.
    pub open spec fn same_but_accrual(pre: Bank, post: Bank) -> bool {
        post == (Bank {
            asset_share_value: post.asset_share_value,
            liability_share_value: post.liability_share_value,
            collected_insurance_fees_outstanding: post.collected_insurance_fees_outstanding,
            collected_group_fees_outstanding: post.collected_group_fees_outstanding,
            last_update: post.last_update,
            ..pre
        })
    }

    /// Ledger state after a full accrual step of `dt` seconds.
    pub open spec fn spec_accrual_applied(pre: Bank, post: Bank, dt: int) -> bool {
        &&& post.asset_share_value.raw == pre.spec_accrued_asset_share_value(dt)
        &&& post.liability_share_value.raw == pre.spec_accrued_liability_share_value(dt)
        &&& post.collected_insurance_fees_outstanding.raw
            == pre.collected_insurance_fees_outstanding.raw + pre.spec_accrued_insurance_fees(dt)
        &&& post.collected_group_fees_outstanding.raw
            == pre.collected_group_fees_outstanding.raw + pre.spec_accrued_group_fees(dt)
    }

    /// Everything a completed accrual step guarantees, as one predicate:
    /// only the accrual fields moved, share values did not shrink, and the
    /// new ledger state is the specified one.
    pub open spec fn accrual_ok(pre: Bank, post: Bank, now: i64) -> bool {
        &&& Bank::same_but_accrual(pre, post)
        &&& post.last_update == now
        &&& (pre.spec_accrual_is_noop(now) ==> post == (Bank { last_update: now, ..pre }))
        &&& (!pre.spec_accrual_is_noop(now) ==> Bank::spec_accrual_applied(
            pre,
            post,
            now - pre.last_update,
        ))
        &&& post.asset_share_value.raw >= pre.asset_share_value.raw
        &&& post.liability_share_value.raw >= pre.liability_share_value.raw
    }

    /// The hypotheses under which accrual is promised to succeed: bounded
    /// ledgers and a step of at most the maximal length.
    pub open spec fn spec_accrual_promised(self, now: i64) -> bool {
        &&& self.amounts_bounded()
        &&& now >= self.last_update
        &&& now - self.last_update <= MAX_ACCRUAL_STEP
    }

    /// The bank state a successful accrual at `now` produces, as a value:
    /// entry-point contracts are stated over it.
    pub open spec fn spec_accrued(self, now: i64) -> Bank {
        if self.spec_accrual_is_noop(now) {
            Bank { last_update: now, ..self }
        } else {
            let dt = now - self.last_update;
            Bank {
                asset_share_value: Fx { raw: self.spec_accrued_asset_share_value(dt) as i128 },
                liability_share_value: Fx {
                    raw: self.spec_accrued_liability_share_value(dt) as i128,
                },
                collected_insurance_fees_outstanding: Fx {
                    raw: (self.collected_insurance_fees_outstanding.raw
                        + self.spec_accrued_insurance_fees(dt)) as i128,
                },
                collected_group_fees_outstanding: Fx {
                    raw: (self.collected_group_fees_outstanding.raw
                        + self.spec_accrued_group_fees(dt)) as i128,
                },
                last_update: now,
                ..self
            }
        }
    }

    /// Time-integrated interest accrual. Grows both share values by their
    /// linearized multipliers, credits the pending fee counters, and stamps
    /// the bank with `now`. Idempotent when no time has passed; a clock
    /// running backwards is rejected.
    pub fn accrue_interest(&mut self, now: i64) -> (r: Result<(), AstrolendError>)
        requires
            old(self).wf(),
        ensures
            final(self).wf(),
            r is Ok ==> Bank::accrual_ok(*old(self), *final(self), now),
            r is Ok ==> *final(self) == old(self).spec_accrued(now),
            old(self).spec_accrual_promised(now) ==> r is Ok,
            r is Err ==> (r == Result::<(), AstrolendError>::Err(AstrolendError::ClockRegression)
                || r == Result::<(), AstrolendError>::Err(AstrolendError::MathError)),
            r is Err ==> *final(self) == *old(self),
            r == Result::<(), AstrolendError>::Err(AstrolendError::ClockRegression) <==> now
                < old(self).last_update,
            r is Ok ==> final(self).last_update == now,
            r is Ok ==> Bank::same_but_accrual(*old(self), *final(self)),
            r is Ok && old(self).spec_accrual_is_noop(now) ==> *final(self) == (Bank {
                last_update: now,
                ..*old(self)
            }),
            r is Ok && !old(self).spec_accrual_is_noop(now) ==> Bank::spec_accrual_applied(
                *old(self),
                *final(self),
                now - old(self).last_update,
            ),
            r is Ok ==> final(self).asset_share_value.raw >= old(self).asset_share_value.raw,
            r is Ok ==> final(self).liability_share_value.raw >= old(
                self,
            ).liability_share_value.raw,
            (old(self).amounts_bounded() && now >= old(self).last_update && now - old(
                self,
            ).last_update <= MAX_ACCRUAL_STEP) ==> r is Ok,
    {
        if now < self.last_update {
            return Err(AstrolendError::ClockRegression);
        }
        let dt_i: i64 = now - self.last_update;
        if dt_i == 0 {
            self.last_update = now;
            return Ok(());
        }
        let ghost bounded = self.amounts_bounded() && dt_i <= MAX_ACCRUAL_STEP;
        let a = self.total_asset_shares;
        let l = self.total_liability_shares;
        let av = self.asset_share_value;
        let lv = self.liability_share_value;
        proof {
            if bounded {
                lemma_fx_mul_in_range(
                    a.raw as int,
                    shares_bound(),
                    av.raw as int,
                    share_value_bound(),
                );
                lemma_fx_mul_in_range(
                    l.raw as int,
                    shares_bound(),
                    lv.raw as int,
                    share_value_bound(),
                );
            }
        }
        let asset_tokens = match crate::fixed_point::fx_checked_mul(a, av) {
            Some(v) => v,
            None => {
                return Err(AstrolendError::MathError);
            },
        };
        let liab_tokens = match crate::fixed_point::fx_checked_mul(l, lv) {
            Some(v) => v,
            None => {
                return Err(AstrolendError::MathError);
            },
        };
        if asset_tokens.raw == 0 || liab_tokens.raw == 0 {
            self.last_update = now;
            return Ok(());
        }
        let utilization = if liab_tokens.raw >= asset_tokens.raw {
            Fx::one()
        } else {
            match crate::fixed_point::fx_checked_div(liab_tokens, asset_tokens) {
                Some(v) => v,
                None => {
                    proof {
                        lemma_fx_div_le_one(liab_tokens.raw as int, asset_tokens.raw as int);
                    }
                    unreached()
                },
            }
        };
        proof {
            if liab_tokens.raw < asset_tokens.raw {
                lemma_fx_div_le_one(liab_tokens.raw as int, asset_tokens.raw as int);
                lemma_div_pos_is_pos(liab_tokens.raw * fx_frac(), asset_tokens.raw as int);
                lemma_mul_inequality(0, liab_tokens.raw as int, fx_frac());
                lemma_mul_is_commutative(liab_tokens.raw as int, fx_frac());
            }
        }
        let rates = calc_interest_rate(&self.config.interest_rate_config, utilization);
        let dt_fx = Fx::from_tokens(dt_i as u64);
        let year_fx = Fx::from_tokens(SECONDS_PER_YEAR);

        proof {
            if bounded {
                lemma_rate_factor_bound(rates.lending_apr.raw as int, dt_i as int);
                lemma_rate_factor_bound(rates.borrowing_apr.raw as int, dt_i as int);
                lemma_rate_factor_bound(rates.insurance_apr.raw as int, dt_i as int);
                lemma_rate_factor_bound(rates.protocol_apr.raw as int, dt_i as int);
            }
        }
        let asset_factor = match rate_factor(rates.lending_apr, dt_fx, year_fx) {
            Some(v) => v,
            None => {
                return Err(AstrolendError::MathError);
            },
        };
        let liab_factor = match rate_factor(rates.borrowing_apr, dt_fx, year_fx) {
            Some(v) => v,
            None => {
                return Err(AstrolendError::MathError);
            },
        };
        let ins_factor = match rate_factor(rates.insurance_apr, dt_fx, year_fx) {
            Some(v) => v,
            None => {
                return Err(AstrolendError::MathError);
            },
        };
        let grp_factor = match rate_factor(rates.protocol_apr, dt_fx, year_fx) {
            Some(v) => v,
            None => {
                return Err(AstrolendError::MathError);
            },
        };
        proof {
            lemma_rate_factor_nonneg(rates.lending_apr.raw as int, dt_i as int);
            lemma_rate_factor_nonneg(rates.borrowing_apr.raw as int, dt_i as int);
            lemma_rate_factor_nonneg(rates.insurance_apr.raw as int, dt_i as int);
            lemma_rate_factor_nonneg(rates.protocol_apr.raw as int, dt_i as int);
        }
        let asset_mult = match Fx::one().checked_add(asset_factor) {
            Some(v) => v,
            None => {
                return Err(AstrolendError::MathError);
            },
        };
        let liab_mult = match Fx::one().checked_add(liab_factor) {
            Some(v) => v,
            None => {
                return Err(AstrolendError::MathError);
            },
        };
        proof {
            if bounded {
                lemma_fx_mul_in_range(
                    av.raw as int,
                    share_value_bound(),
                    asset_mult.raw as int,
                    fx_frac() + 0x200_0000_0000_0000_0000,
                );
                lemma_fx_mul_in_range(
                    lv.raw as int,
                    share_value_bound(),
                    liab_mult.raw as int,
                    fx_frac() + 0x200_0000_0000_0000_0000,
                );
            }
        }
        let new_av = match crate::fixed_point::fx_checked_mul(av, asset_mult) {
            Some(v) => v,
            None => {
                return Err(AstrolendError::MathError);
            },
        };
        let new_lv = match crate::fixed_point::fx_checked_mul(lv, liab_mult) {
            Some(v) => v,
            None => {
                return Err(AstrolendError::MathError);
            },
        };
        proof {
            if bounded {
                lemma_fx_mul_in_range(
                    liab_tokens.raw as int,
                    (shares_bound() * share_value_bound()) / fx_frac(),
                    ins_factor.raw as int,
                    0x200_0000_0000_0000_0000,
                );
                lemma_fx_mul_in_range(
                    liab_tokens.raw as int,
                    (shares_bound() * share_value_bound()) / fx_frac(),
                    grp_factor.raw as int,
                    0x200_0000_0000_0000_0000,
                );
            }
            lemma_fx_mul_nonneg(liab_tokens.raw as int, ins_factor.raw as int);
            lemma_fx_mul_nonneg(liab_tokens.raw as int, grp_factor.raw as int);
        }
        let ins_fees = match crate::fixed_point::fx_checked_mul(liab_tokens, ins_factor) {
            Some(v) => v,
            None => {
                return Err(AstrolendError::MathError);
            },
        };
        let grp_fees = match crate::fixed_point::fx_checked_mul(liab_tokens, grp_factor) {
            Some(v) => v,
            None => {
                return Err(AstrolendError::MathError);
            },
        };
        let new_ins_outstanding = match self.collected_insurance_fees_outstanding.checked_add(
            ins_fees,
        ) {
            Some(v) => v,
            None => {
                return Err(AstrolendError::MathError);
            },
        };
        let new_grp_outstanding = match self.collected_group_fees_outstanding.checked_add(
            grp_fees,
        ) {
            Some(v) => v,
            None => {
                return Err(AstrolendError::MathError);
            },
        };
        proof {
            lemma_fx_mul_value_monotone(av.raw as int, asset_factor.raw as int);
            lemma_fx_mul_value_monotone(lv.raw as int, liab_factor.raw as int);
        }
        self.asset_share_value = new_av;
        self.liability_share_value = new_lv;
        self.collected_insurance_fees_outstanding = new_ins_outstanding;
        self.collected_group_fees_outstanding = new_grp_outstanding;
        self.last_update = now;
        Ok(())
    }
}

/// `apr * dt / SECONDS_PER_YEAR` with checked arithmetic, matching
/// `spec_rate_factor` exactly.
fn rate_factor(apr: Fx, dt_fx: Fx, year_fx: Fx) -> (r: Option<Fx>)
    requires
        apr.raw >= 0,
        dt_fx.raw >= 0,
        year_fx.raw == seconds_per_year() * fx_frac(),
    ensures
        r matches Some(v) ==> v.raw == fx_div_spec(
            fx_mul_spec(apr.raw as int, dt_fx.raw as int),
            seconds_per_year() * fx_frac(),
        ),
        fx_mul_spec(apr.raw as int, dt_fx.raw as int) <= i128::MAX ==> r is Some,
{
    let x = match crate::fixed_point::fx_checked_mul(apr, dt_fx) {
        Some(v) => v,
        None => {
            return None;
        },
    };
    proof {
        lemma_fx_mul_nonneg(apr.raw as int, dt_fx.raw as int);
        lemma_fx_div_le_self(x.raw as int, seconds_per_year() * fx_frac());
    }
    match crate::fixed_point::fx_checked_div(x, year_fx) {
        Some(v) => Some(v),
        None => unreached(),
    }
}

/// The fixed-point product of non-negative operands is non-negative.
pub proof fn lemma_fx_mul_nonneg(a: int, b: int)
    requires
        a >= 0,
        b >= 0,
    ensures
        fx_mul_spec(a, b) >= 0,
{
    lemma_mul_inequality(0, a, b);
    lemma_mul_is_commutative(a, b);
    lemma_div_pos_is_pos(a * b, fx_frac());
}

/// Bound on the fixed-point product from bounds on its operands.
pub proof fn lemma_fx_mul_in_range(a: int, abound: int, b: int, bbound: int)
    requires
        0 <= a <= abound,
        0 <= b <= bbound,
    ensures
        0 <= fx_mul_spec(a, b) <= (abound * bbound) / fx_frac(),
{
    lemma_fx_mul_nonneg(a, b);
    lemma_mul_upper_bound(a, abound, b, bbound);
    lemma_div_is_ordered(a * b, abound * bbound, fx_frac());
}

/// Dividing a value smaller than the divisor yields at most one.
pub proof fn lemma_fx_div_le_one(a: int, b: int)
    requires
        0 <= a <= b,
        b > 0,
    ensures
        fx_div_spec(a, b) <= fx_frac(),
{
    lemma_mul_inequality(a, b, fx_frac());
    lemma_div_is_ordered(a * fx_frac(), b * fx_frac(), b);
    lemma_mul_is_commutative(b, fx_frac());
    lemma_div_multiples_vanish(fx_frac(), b);
}

/// Dividing by a divisor of at least one whole unit does not grow a
/// non-negative value.
pub proof fn lemma_fx_div_le_self(x: int, d: int)
    requires
        x >= 0,
        d >= fx_frac(),
    ensures
        0 <= fx_div_spec(x, d) <= x,
{
    lemma_mul_inequality(0, x, fx_frac());
    lemma_mul_is_commutative(x, fx_frac());
    lemma_div_pos_is_pos(x * fx_frac(), d);
    lemma_mul_inequality(fx_frac(), d, x);
    lemma_mul_is_commutative(fx_frac(), x);
    lemma_mul_is_commutative(d, x);
    assert(x * fx_frac() <= x * d);
    lemma_div_is_ordered(x * fx_frac(), x * d, d);
    lemma_mul_is_commutative(x, d);
    lemma_div_multiples_vanish(x, d);
}

/// Multiplying by one plus a non-negative factor does not shrink a
/// non-negative value.
pub proof fn lemma_fx_mul_value_monotone(v: int, factor: int)
    requires
        v >= 0,
        factor >= 0,
    ensures
        fx_mul_spec(v, fx_frac() + factor) >= v,
{
    lemma_mul_inequality(fx_frac(), fx_frac() + factor, v);
    lemma_mul_is_commutative(fx_frac(), v);
    lemma_mul_is_commutative(fx_frac() + factor, v);
    lemma_div_is_ordered(v * fx_frac(), v * (fx_frac() + factor), fx_frac());
    lemma_mul_is_commutative(v, fx_frac());
    lemma_div_multiples_vanish(v, fx_frac());
}

/// Bound on a rate factor for bounded APRs and a bounded step.
proof fn lemma_rate_factor_bound(apr: int, dt: int)
    requires
        0 <= apr <= 5 * rate_bound(),
        0 <= dt <= MAX_ACCRUAL_STEP,
    ensures
        0 <= spec_rate_factor(apr, dt) <= 0x200_0000_0000_0000_0000,
        fx_mul_spec(apr, dt * fx_frac()) <= i128::MAX,
{
    let f = fx_frac();
    lemma_mul_inequality(0, dt, f);
    lemma_fx_mul_in_range(apr, 5 * rate_bound(), dt * f, MAX_ACCRUAL_STEP * f);
    let x = fx_mul_spec(apr, dt * f);
    lemma_fx_div_le_self(x, seconds_per_year() * f);
    lemma_rate_factor_nonneg(apr, dt);
    // x <= (5*rb * step*f)/f = 5*rb*step; dividing by a year of seconds
    // brings it under the stated bound.
    lemma_div_denominator(x * f, f, seconds_per_year());
    lemma_mul_is_commutative(x, f);
    lemma_div_multiples_vanish(x, f);
    assert(spec_rate_factor(apr, dt) == x / seconds_per_year()) by {
        lemma_mul_is_commutative(seconds_per_year(), f);
        assert(f * seconds_per_year() == seconds_per_year() * f);
        assert((x * f) / (f * seconds_per_year()) == ((x * f) / f) / seconds_per_year());
        assert((x * f) / f == x);
    }
    lemma_div_is_ordered(x, (5 * rate_bound() * (MAX_ACCRUAL_STEP as int * f)) / f, seconds_per_year());
}

/// A rate factor is non-negative.
proof fn lemma_rate_factor_nonneg(apr: int, dt: int)
    requires
        apr >= 0,
        dt >= 0,
    ensures
        spec_rate_factor(apr, dt) >= 0,
{
    let f = fx_frac();
    lemma_mul_inequality(0, dt, f);
    lemma_fx_mul_nonneg(apr, dt * f);
    let x = fx_mul_spec(apr, dt * f);
    lemma_mul_inequality(0, x, f);
    lemma_mul_is_commutative(x, f);
    lemma_div_pos_is_pos(x * f, seconds_per_year() * f);
}

} // verus!
