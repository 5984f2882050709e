//! The errors with which the AMM refuses an instruction.
use vstd::prelude::*;

verus! {

/// Why an instruction was refused.
#[derive(Clone, Copy, Debug, PartialEq, Eq)]
pub enum ErrorCode {
    /// The fee exceeds the allowed basis-point limit.
    InvalidFee,
    /// The paused flag is neither 0 nor 1.
    InvalidPaused,
    /// The pool's mints are not given in strictly increasing byte order.
    InvalidMintPair,
    /// The AMM is paused.
    InvalidAmmState,
    /// The deposit would mint no pool shares.
    InvalidDepositAmount,
    /// The deposit would mint fewer pool shares than the depositor accepts.
    SlippageExceeded,
    /// An amount does not fit in 64 bits, or the pool holds shares but no
    /// reserve of one of its tokens.
    MathOverflow,
}

} // verus!
