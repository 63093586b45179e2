//! Post-quantum staking: the accounting of a delegated staking pool, and the
//! host functions that check post-quantum signatures on chain.

pub mod books;
pub mod delegator;
pub mod effects;
pub mod host;
pub mod laws;
pub mod muldiv;
pub mod pool;
pub mod pool_error;
pub mod pool_rules;
pub mod shares;
pub mod signatures;
pub mod staking_key;
pub mod text;
