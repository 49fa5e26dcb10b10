//! The rule of a guessing game.

use vstd::prelude::*;

verus! {

/// How a guess stands to the secret number.
#[derive(Clone, Copy, Debug, PartialEq, Eq)]
pub enum GuessResult {
    EnteredLess,
    EnteredGreater,
    Won,
}

/// How the guess `num` stands to `secret_number`.
pub open spec fn verdict(num: u32, secret_number: u32) -> GuessResult {
    if num < secret_number {
        GuessResult::EnteredLess
    } else if num > secret_number {
        GuessResult::EnteredGreater
    } else {
        GuessResult::Won
    }
}

/// Holds the guess `num` against `secret_number`.
pub fn game_logic(num: u32, secret_number: u32) -> (r: GuessResult)
    ensures
        r == verdict(num, secret_number),
{
    if num < secret_number {
        GuessResult::EnteredLess
    } else if num > secret_number {
        GuessResult::EnteredGreater
    } else {
        GuessResult::Won
    }
}

/// A guess wins exactly when it is the secret number, and is told to be
/// greater or less exactly when it is.
pub proof fn lemma_verdict(num: u32, secret_number: u32)
    ensures
        verdict(num, secret_number) == GuessResult::Won <==> num == secret_number,
        verdict(num, secret_number) == GuessResult::EnteredGreater <==> num > secret_number,
        verdict(num, secret_number) == GuessResult::EnteredLess <==> num < secret_number,
{
}

} // verus!
