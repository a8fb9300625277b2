//! Errors of every operation, grouped into five kinds.
//!
//! An operation that returns an error leaves every component it was handed
//! exactly as it found it.

use vstd::prelude::*;

verus! {

/// The five kinds into which every error falls.
#[derive(Clone, Copy, Debug, PartialEq, Eq, Structural)]
pub enum ErrorKind {
    /// The caller is not who the operation requires.
    Authorization,
    /// An argument is outside what the operation accepts.
    Validation,
    /// The entity is missing, already there, or in the wrong state.
    State,
    /// The operation would break a limit that protects the venue.
    InvariantViolation,
    /// A checked operation overflowed or a denominator was zero.
    Arithmetic,
}

/// Why an operation was refused.
#[derive(Clone, Copy, Debug, PartialEq, Eq, Structural)]
pub enum Error {
    /// The caller is not the administrator or the registered privileged caller.
    Unauthorized,
    /// The caller does not own the position.
    NotPositionOwner,
    /// The caller does not own the order.
    NotOrderOwner,
    /// A token or deposit amount is zero or negative.
    AmountNotPositive,
    /// A share amount is zero or negative.
    SharesNotPositive,
    /// An allowance amount is negative.
    NegativeAmount,
    /// An allowance or an order expires at or before the present.
    ExpirationInPast,
    /// The collateral is zero.
    ZeroCollateral,
    /// The leverage is zero.
    ZeroLeverage,
    /// The leverage is under the configured minimum.
    LeverageTooLow,
    /// The leverage is over the configured maximum.
    LeverageTooHigh,
    /// The size is under the configured minimum.
    PositionSizeTooSmall,
    /// A trigger price is zero or negative.
    InvalidTriggerPrice,
    /// An acceptable price is negative.
    InvalidAcceptablePrice,
    /// The execution fee is under the minimum.
    ExecutionFeeTooLow,
    /// The close percentage is zero or over 10000.
    InvalidClosePercentage,
    /// A stop-loss on a long position is not under the current price.
    StopLossNotBelowPrice,
    /// A stop-loss on a long position is not over the liquidation price.
    StopLossNotAboveLiquidation,
    /// A stop-loss on a short position is not over the current price.
    StopLossNotAbovePrice,
    /// A stop-loss on a short position is not under the liquidation price.
    StopLossNotBelowLiquidation,
    /// A take-profit on a long position is not over the current price.
    TakeProfitNotAbovePrice,
    /// A take-profit on a short position is not under the current price.
    TakeProfitNotBelowPrice,
    /// A price is zero or negative.
    InvalidPrice,
    /// A change of a position was asked for with nothing to change, or with
    /// more than the position holds.
    InvalidAmount,
    /// The collateral left would be under the maintenance margin.
    MarginTooLow,
    /// The component was initialized before.
    AlreadyInitialized,
    /// The component was not initialized, or a registry entry is not set.
    NotInitialized,
    /// No market has this identifier.
    MarketNotFound,
    /// A market with this identifier exists.
    MarketAlreadyExists,
    /// No position has this identifier.
    PositionNotFound,
    /// No order has this identifier.
    OrderNotFound,
    /// The order's expiration has passed.
    OrderExpired,
    /// The order was asked to be removed as expired and is not.
    OrderNotExpired,
    /// The market is paused.
    MarketPaused,
    /// The funding interval has not passed since the last update.
    FundingTooEarly,
    /// Shares exist while the pool holds nothing.
    InvalidPoolState,
    /// No shares exist at all.
    NoShares,
    /// A stored parameter does not have the type that was asked for.
    ConfigTypeMismatch,
    /// The open interest of one side would exceed the market's cap.
    OpenInterestExceeded,
    /// The open interest of one side would fall under zero.
    OpenInterestUnderflow,
    /// The market does not accept the position: paused or no headroom.
    MarketRejected,
    /// The pool's utilization would exceed the configured ceiling.
    UtilizationExceeded,
    /// The pool's reserve after a withdrawal would be under the minimum.
    ReserveRatioViolated,
    /// The position is healthy.
    NotLiquidatable,
    /// The pool's unreserved funds do not cover the amount.
    InsufficientLiquidity,
    /// More liquidity was released than is reserved.
    InsufficientReserved,
    /// The owner holds fewer shares.
    InsufficientShares,
    /// The account holds fewer tokens.
    InsufficientBalance,
    /// The allowance is smaller than the amount.
    InsufficientAllowance,
    /// The allowance's last ledger has passed.
    AllowanceExpired,
    /// The position's collateral record holds less.
    InsufficientCollateral,
    /// The loss realized would use up the collateral.
    CollateralExhausted,
    /// The price has not reached the order's trigger.
    TriggerNotMet,
    /// The price is beyond the order's acceptable price.
    SlippageExceeded,
    /// A checked addition, subtraction or multiplication overflowed.
    Overflow,
    /// A denominator was zero.
    DivisionByZero,
}

impl Error {
    /// The kind of this error.
    pub open spec fn spec_kind(self) -> ErrorKind {
        match self {
            Error::Unauthorized | Error::NotPositionOwner | Error::NotOrderOwner => {
                ErrorKind::Authorization
            },
            Error::AmountNotPositive
            | Error::SharesNotPositive
            | Error::NegativeAmount
            | Error::ExpirationInPast
            | Error::ZeroCollateral
            | Error::ZeroLeverage
            | Error::LeverageTooLow
            | Error::LeverageTooHigh
            | Error::PositionSizeTooSmall
            | Error::InvalidTriggerPrice
            | Error::InvalidAcceptablePrice
            | Error::ExecutionFeeTooLow
            | Error::InvalidClosePercentage
            | Error::StopLossNotBelowPrice
            | Error::StopLossNotAboveLiquidation
            | Error::StopLossNotAbovePrice
            | Error::StopLossNotBelowLiquidation
            | Error::TakeProfitNotAbovePrice
            | Error::TakeProfitNotBelowPrice
            | Error::InvalidPrice
            | Error::InvalidAmount
            | Error::MarginTooLow => ErrorKind::Validation,
            Error::AlreadyInitialized
            | Error::NotInitialized
            | Error::MarketNotFound
            | Error::MarketAlreadyExists
            | Error::PositionNotFound
            | Error::OrderNotFound
            | Error::OrderExpired
            | Error::OrderNotExpired
            | Error::MarketPaused
            | Error::FundingTooEarly
            | Error::InvalidPoolState
            | Error::NoShares
            | Error::ConfigTypeMismatch => ErrorKind::State,
            Error::OpenInterestExceeded
            | Error::OpenInterestUnderflow
            | Error::MarketRejected
            | Error::UtilizationExceeded
            | Error::ReserveRatioViolated
            | Error::NotLiquidatable
            | Error::InsufficientLiquidity
            | Error::InsufficientReserved
            | Error::InsufficientShares
            | Error::InsufficientBalance
            | Error::InsufficientAllowance
            | Error::AllowanceExpired
            | Error::InsufficientCollateral
            | Error::CollateralExhausted
            | Error::TriggerNotMet
            | Error::SlippageExceeded => ErrorKind::InvariantViolation,
            Error::Overflow | Error::DivisionByZero => ErrorKind::Arithmetic,
        }
    }

    /// The kind of this error.
    pub fn kind(&self) -> (k: ErrorKind)
        ensures
            k == self.spec_kind(),
    {
        match self {
            Error::Unauthorized | Error::NotPositionOwner | Error::NotOrderOwner => {
                ErrorKind::Authorization
            },
            Error::AmountNotPositive
            | Error::SharesNotPositive
            | Error::NegativeAmount
            | Error::ExpirationInPast
            | Error::ZeroCollateral
            | Error::ZeroLeverage
            | Error::LeverageTooLow
            | Error::LeverageTooHigh
            | Error::PositionSizeTooSmall
            | Error::InvalidTriggerPrice
            | Error::InvalidAcceptablePrice
            | Error::ExecutionFeeTooLow
            | Error::InvalidClosePercentage
            | Error::StopLossNotBelowPrice
            | Error::StopLossNotAboveLiquidation
            | Error::StopLossNotAbovePrice
            | Error::StopLossNotBelowLiquidation
            | Error::TakeProfitNotAbovePrice
            | Error::TakeProfitNotBelowPrice
            | Error::InvalidPrice
            | Error::InvalidAmount
            | Error::MarginTooLow => ErrorKind::Validation,
            Error::AlreadyInitialized
            | Error::NotInitialized
            | Error::MarketNotFound
            | Error::MarketAlreadyExists
            | Error::PositionNotFound
            | Error::OrderNotFound
            | Error::OrderExpired
            | Error::OrderNotExpired
            | Error::MarketPaused
            | Error::FundingTooEarly
            | Error::InvalidPoolState
            | Error::NoShares
            | Error::ConfigTypeMismatch => ErrorKind::State,
            Error::OpenInterestExceeded
            | Error::OpenInterestUnderflow
            | Error::MarketRejected
            | Error::UtilizationExceeded
            | Error::ReserveRatioViolated
            | Error::NotLiquidatable
            | Error::InsufficientLiquidity
            | Error::InsufficientReserved
            | Error::InsufficientShares
            | Error::InsufficientBalance
            | Error::InsufficientAllowance
            | Error::AllowanceExpired
            | Error::InsufficientCollateral
            | Error::CollateralExhausted
            | Error::TriggerNotMet
            | Error::SlippageExceeded => ErrorKind::InvariantViolation,
            Error::Overflow | Error::DivisionByZero => ErrorKind::Arithmetic,
        }
    }

    /// The words for this error.
    pub open spec fn spec_message(self) -> &'static str {
        match self {
            Error::Unauthorized => "unauthorized",
            Error::NotPositionOwner => "Unauthorized: caller does not own this position",
            Error::NotOrderOwner => "Unauthorized: caller does not own this order",
            Error::AmountNotPositive => "amount must be positive",
            Error::SharesNotPositive => "shares must be positive",
            Error::NegativeAmount => "amount cannot be negative",
            Error::ExpirationInPast => "expiration must be in the future",
            Error::ZeroCollateral => "Collateral must be positive",
            Error::ZeroLeverage => "Leverage must be positive",
            Error::LeverageTooLow => "Leverage too low",
            Error::LeverageTooHigh => "Leverage too high",
            Error::PositionSizeTooSmall => "Position size too small",
            Error::InvalidTriggerPrice => "Trigger price must be positive",
            Error::InvalidAcceptablePrice => "Acceptable price cannot be negative",
            Error::ExecutionFeeTooLow => "Execution fee below minimum",
            Error::InvalidClosePercentage => "Invalid close percentage",
            Error::StopLossNotBelowPrice => "Stop-loss for long must be below current price",
            Error::StopLossNotAboveLiquidation => "Stop-loss must be above liquidation price",
            Error::StopLossNotAbovePrice => "Stop-loss for short must be above current price",
            Error::StopLossNotBelowLiquidation => "Stop-loss must be below liquidation price",
            Error::TakeProfitNotAbovePrice => "Take-profit for long must be above current price",
            Error::TakeProfitNotBelowPrice => "Take-profit for short must be below current price",
            Error::InvalidPrice => "price must be positive",
            Error::InvalidAmount => "invalid amount",
            Error::MarginTooLow => "remaining collateral below maintenance margin",
            Error::AlreadyInitialized => "already initialized",
            Error::NotInitialized => "not initialized",
            Error::MarketNotFound => "market not found",
            Error::MarketAlreadyExists => "market already exists",
            Error::PositionNotFound => "Position not found",
            Error::OrderNotFound => "Order not found",
            Error::OrderExpired => "Order expired",
            Error::OrderNotExpired => "Order has not expired",
            Error::MarketPaused => "market is paused",
            Error::FundingTooEarly => "funding interval not elapsed",
            Error::InvalidPoolState => "invalid pool state",
            Error::NoShares => "no shares to burn",
            Error::ConfigTypeMismatch => "config value is not a time",
            Error::OpenInterestExceeded => "exceeds max open interest",
            Error::OpenInterestUnderflow => "open interest underflow",
            Error::MarketRejected => "Cannot open position: market paused or OI limit reached",
            Error::UtilizationExceeded => "Pool utilization too high",
            Error::ReserveRatioViolated => "withdrawal would violate minimum reserve ratio",
            Error::NotLiquidatable => "Position not liquidatable",
            Error::InsufficientLiquidity => "insufficient available liquidity",
            Error::InsufficientReserved => "insufficient reserved liquidity",
            Error::InsufficientShares => "insufficient shares",
            Error::InsufficientBalance => "insufficient balance",
            Error::InsufficientAllowance => "insufficient allowance",
            Error::AllowanceExpired => "allowance expired",
            Error::InsufficientCollateral => "insufficient position collateral",
            Error::CollateralExhausted => "realized loss exceeds collateral",
            Error::TriggerNotMet => "Order trigger condition not met",
            Error::SlippageExceeded => "Current price outside acceptable range",
            Error::Overflow => "arithmetic overflow",
            Error::DivisionByZero => "division by zero",
        }
    }

    /// The words for this error.
    pub fn message(&self) -> (m: &'static str)
        ensures
            m == self.spec_message(),
    {
        match self {
            Error::Unauthorized => "unauthorized",
            Error::NotPositionOwner => "Unauthorized: caller does not own this position",
            Error::NotOrderOwner => "Unauthorized: caller does not own this order",
            Error::AmountNotPositive => "amount must be positive",
            Error::SharesNotPositive => "shares must be positive",
            Error::NegativeAmount => "amount cannot be negative",
            Error::ExpirationInPast => "expiration must be in the future",
            Error::ZeroCollateral => "Collateral must be positive",
            Error::ZeroLeverage => "Leverage must be positive",
            Error::LeverageTooLow => "Leverage too low",
            Error::LeverageTooHigh => "Leverage too high",
            Error::PositionSizeTooSmall => "Position size too small",
            Error::InvalidTriggerPrice => "Trigger price must be positive",
            Error::InvalidAcceptablePrice => "Acceptable price cannot be negative",
            Error::ExecutionFeeTooLow => "Execution fee below minimum",
            Error::InvalidClosePercentage => "Invalid close percentage",
            Error::StopLossNotBelowPrice => "Stop-loss for long must be below current price",
            Error::StopLossNotAboveLiquidation => "Stop-loss must be above liquidation price",
            Error::StopLossNotAbovePrice => "Stop-loss for short must be above current price",
            Error::StopLossNotBelowLiquidation => "Stop-loss must be below liquidation price",
            Error::TakeProfitNotAbovePrice => "Take-profit for long must be above current price",
            Error::TakeProfitNotBelowPrice => "Take-profit for short must be below current price",
            Error::InvalidPrice => "price must be positive",
            Error::InvalidAmount => "invalid amount",
            Error::MarginTooLow => "remaining collateral below maintenance margin",
            Error::AlreadyInitialized => "already initialized",
            Error::NotInitialized => "not initialized",
            Error::MarketNotFound => "market not found",
            Error::MarketAlreadyExists => "market already exists",
            Error::PositionNotFound => "Position not found",
            Error::OrderNotFound => "Order not found",
            Error::OrderExpired => "Order expired",
            Error::OrderNotExpired => "Order has not expired",
            Error::MarketPaused => "market is paused",
            Error::FundingTooEarly => "funding interval not elapsed",
            Error::InvalidPoolState => "invalid pool state",
            Error::NoShares => "no shares to burn",
            Error::ConfigTypeMismatch => "config value is not a time",
            Error::OpenInterestExceeded => "exceeds max open interest",
            Error::OpenInterestUnderflow => "open interest underflow",
            Error::MarketRejected => "Cannot open position: market paused or OI limit reached",
            Error::UtilizationExceeded => "Pool utilization too high",
            Error::ReserveRatioViolated => "withdrawal would violate minimum reserve ratio",
            Error::NotLiquidatable => "Position not liquidatable",
            Error::InsufficientLiquidity => "insufficient available liquidity",
            Error::InsufficientReserved => "insufficient reserved liquidity",
            Error::InsufficientShares => "insufficient shares",
            Error::InsufficientBalance => "insufficient balance",
            Error::InsufficientAllowance => "insufficient allowance",
            Error::AllowanceExpired => "allowance expired",
            Error::InsufficientCollateral => "insufficient position collateral",
            Error::CollateralExhausted => "realized loss exceeds collateral",
            Error::TriggerNotMet => "Order trigger condition not met",
            Error::SlippageExceeded => "Current price outside acceptable range",
            Error::Overflow => "arithmetic overflow",
            Error::DivisionByZero => "division by zero",
        }
    }
}

} // verus!
