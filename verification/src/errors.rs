use vstd::prelude::*;

verus! {

/// Stable error taxonomy of the protocol. Every fallible operation names,
/// in its contract, exactly the inputs on which each variant is returned.
#[derive(Clone, Copy, Debug, PartialEq, Eq, Structural)]
pub enum AstrolendError {
    AccountDisabled,
    BankPaused,
    IllegalFlag,
    IllegalAction,
    IllegalFlashloan,
    IsolatedAccountIllegalState,
    OperationDepositOnly,
    OperationBorrowOnly,
    OperationWithdrawOnly,
    OperationRepayOnly,
    NoAssetFound,
    NoLiabilityFound,
    BankAccountNotFound,
    DepositLimitExceeded,
    BorrowLimitExceeded,
    IllegalUtilizationRatio,
    LendingAccountFull,
    RiskEngineInitRejected,
    IllegalLiquidation,
    AccountNotBankrupt,
    StaleOracle,
    InvalidOracle,
    PriceConfidenceTooWide,
    MathError,
    ClockRegression,
}

} // verus!
