//! A vending machine: a coin ledger that makes change, a stock table, and
//! the machine over both, held in a type that tells its state.

pub mod coins;
pub mod stock;
pub mod states;
pub mod machine;
