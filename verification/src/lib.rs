//! A constant-product automated market maker: the rules that decide whether
//! an AMM or a pool may be created, and how many tokens a liquidity deposit
//! takes and how many pool shares it mints.
pub mod error;
pub mod instructions;
pub mod key;
pub mod laws;
pub mod math;
pub mod state;

pub use error::ErrorCode;
pub use instructions::{deposit_to_pool, initialize_amm, initialize_pool};
pub use key::Key;
pub use state::{AmmConfig, DepositQuote, PoolConfig, PoolReserves, LP_DECIMALS, MAX_FEE_BPS};
