//! A small block-execution runtime: a ledger, system bookkeeping and a
//! claims registry, composed behind a call dispatcher.

pub mod balances;
pub mod proof_of_existence;
pub mod runtime;
pub mod store;
pub mod support;
pub mod system;
pub mod types;
