//! The closed set of failures that the math core and its surrounding
//! account layer can report. Every fallible operation in this crate
//! returns one of these kinds; the math functions themselves only ever
//! produce `MathOverflow`, `DivisionByZero`, `TickOutOfBounds` or
//! `InvalidSqrtPrice`.

use vstd::prelude::*;

verus! {

#[derive(Debug, Clone, Copy, PartialEq, Eq, Structural)]
pub enum ClmmError {
    /// A position's lower tick bound is not below its upper bound.
    InvalidTickRange,
    /// A tick index lies outside `[MIN_TICK, MAX_TICK]`.
    TickOutOfBounds,
    /// A tick spacing that no fee tier allows.
    InvalidTickSpacing,
    /// A tick index is not a multiple of the pool's tick spacing.
    TickNotAligned,
    /// A sqrt price lies outside `[MIN_SQRT_PRICE_X64, MAX_SQRT_PRICE_X64]`.
    InvalidSqrtPrice,
    /// The pool does not hold enough active liquidity.
    InsufficientLiquidity,
    /// A swap moved the price past the caller's stated limit.
    SlippageExceeded,
    /// The pool record has not been initialized yet.
    PoolNotInitialized,
    /// The pool record was already initialized.
    PoolAlreadyInitialized,
    /// No position record matches the request.
    PositionNotFound,
    /// The two token mints are not in canonical order.
    InvalidTokenOrder,
    /// An arithmetic result does not fit its working width.
    MathOverflow,
    /// A denominator of zero was supplied.
    DivisionByZero,
    /// An account is owned by the wrong program.
    InvalidAccountOwner,
    /// An account's data does not decode as the expected record.
    InvalidAccountData,
    /// A token balance is too small for the requested transfer.
    InsufficientFunds,
}

} // verus!
