//! The accounts that the AMM keeps, and the pool's balances.
use vstd::prelude::*;

use crate::key::{key_lt, Key};

verus! {

/// Largest fee an AMM may charge, in basis points (100%).
pub const MAX_FEE_BPS: u16 = 10000;

/// Decimals of a pool's share (LP) mint.
pub const LP_DECIMALS: u8 = 6;

/// A fee, in basis points, that an AMM may charge.
pub open spec fn valid_fee(fee: u16) -> bool {
    fee <= MAX_FEE_BPS
}

/// A value of the paused flag: 0 (running) or 1 (paused).
pub open spec fn valid_paused(paused: u8) -> bool {
    paused == 0 || paused == 1
}

/// The configuration of one AMM.
#[derive(Clone, Copy, Debug, PartialEq, Eq)]
pub struct AmmConfig {
    pub maker: Key,
    pub admin: Key,
    pub id: u64,
    /// In basis points.
    pub fee: u16,
    pub paused: u8,
    pub bump: u8,
}

impl AmmConfig {
    /// What every stored AMM configuration satisfies.
    pub open spec fn wf(&self) -> bool {
        valid_fee(self.fee) && valid_paused(self.paused)
    }
}

/// The configuration of one pool of an AMM, trading `mint_a` against `mint_b`.
#[derive(Clone, Copy, Debug, PartialEq, Eq)]
pub struct PoolConfig {
    pub amm_config: Key,
    pub mint_a: Key,
    pub mint_b: Key,
    pub bump: u8,
    pub lp_bump: u8,
}

impl PoolConfig {
    /// What every stored pool configuration satisfies: its mints are distinct
    /// and in increasing byte order, so that a pair of mints has one pool.
    pub open spec fn wf(&self) -> bool {
        key_lt(self.mint_a@, self.mint_b@)
    }
}

/// A pool's balances: what its two vaults hold and how many shares exist.
#[derive(Clone, Copy, Debug, PartialEq, Eq)]
pub struct PoolReserves {
    pub reserve_a: u64,
    pub reserve_b: u64,
    pub lp_supply: u64,
}

impl PoolReserves {
    /// Shares exist only while both vaults hold tokens.
    pub open spec fn wf(&self) -> bool {
        self.lp_supply > 0 ==> self.reserve_a > 0 && self.reserve_b > 0
    }
}

/// What a deposit moves: tokens from the depositor into the vaults, and newly
/// minted shares to the depositor.
#[derive(Clone, Copy, Debug, PartialEq, Eq)]
pub struct DepositQuote {
    pub amount_a: u64,
    pub amount_b: u64,
    pub lp_out: u64,
}

/// The pool's balances once a deposit has been carried out.
pub open spec fn after_deposit(pool: PoolReserves, q: DepositQuote) -> PoolReserves {
    PoolReserves {
        reserve_a: (pool.reserve_a + q.amount_a) as u64,
        reserve_b: (pool.reserve_b + q.amount_b) as u64,
        lp_supply: (pool.lp_supply + q.lp_out) as u64,
    }
}

} // verus!
