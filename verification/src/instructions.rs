//! The three instructions of the AMM, as decisions on plain values: whether
//! an instruction is accepted, and what it writes or moves.
use vstd::prelude::*;

use crate::error::ErrorCode;
use crate::key::{key_lt, Key};
use crate::math::{
    ceil_div, isqrt, lemma_ceil_share_within_budget, mul_div_ceil,
    mul_div_floor, sqrt_floor, wide_mul,
};
use crate::state::{
    valid_fee, valid_paused, AmmConfig, DepositQuote, PoolConfig, PoolReserves, MAX_FEE_BPS,
};

verus! {

/// What `initialize_amm` decides for its arguments.
pub open spec fn initialize_amm_spec(
    maker: Key,
    admin: Key,
    id: u64,
    fee: u16,
    paused: u8,
    bump: u8,
) -> Result<AmmConfig, ErrorCode> {
    if !valid_fee(fee) {
        Err(ErrorCode::InvalidFee)
    } else if !valid_paused(paused) {
        Err(ErrorCode::InvalidPaused)
    } else {
        Ok(AmmConfig { maker, admin, id, fee, paused, bump })
    }
}

/// Creates the configuration of an AMM: refused with `InvalidFee` when the
/// fee exceeds 10,000 basis points, else with `InvalidPaused` when the paused
/// flag is neither 0 nor 1; otherwise the configuration records its arguments.
pub fn initialize_amm(maker: Key, admin: Key, id: u64, fee: u16, paused: u8, bump: u8) -> (r:
    Result<AmmConfig, ErrorCode>)
    ensures
        r == initialize_amm_spec(maker, admin, id, fee, paused, bump),
        r matches Ok(config) ==> config.wf() && config == (AmmConfig {
            maker,
            admin,
            id,
            fee,
            paused,
            bump,
        }),
{
    if fee > MAX_FEE_BPS {
        return Err(ErrorCode::InvalidFee);
    }
    if paused > 1 {
        return Err(ErrorCode::InvalidPaused);
    }
    Ok(AmmConfig { maker, admin, id, fee, paused, bump })
}

/// What `initialize_pool` decides for its arguments.
pub open spec fn initialize_pool_spec(
    amm: AmmConfig,
    amm_config: Key,
    mint_a: Key,
    mint_b: Key,
    bump: u8,
    lp_bump: u8,
) -> Result<PoolConfig, ErrorCode> {
    if amm.paused != 0 {
        Err(ErrorCode::InvalidAmmState)
    } else if !key_lt(mint_a@, mint_b@) {
        Err(ErrorCode::InvalidMintPair)
    } else {
        Ok(PoolConfig { amm_config, mint_a, mint_b, bump, lp_bump })
    }
}

/// Creates the configuration of a pool of the AMM `amm` (stored at
/// `amm_config`): refused with `InvalidAmmState` while the AMM is paused,
/// else with `InvalidMintPair` unless `mint_a` comes strictly before `mint_b`
/// in byte order; otherwise the configuration records its arguments.
pub fn initialize_pool(
    amm: &AmmConfig,
    amm_config: Key,
    mint_a: Key,
    mint_b: Key,
    bump: u8,
    lp_bump: u8,
) -> (r: Result<PoolConfig, ErrorCode>)
    ensures
        r == initialize_pool_spec(*amm, amm_config, mint_a, mint_b, bump, lp_bump),
        r matches Ok(pool) ==> pool.wf() && pool == (PoolConfig {
            amm_config,
            mint_a,
            mint_b,
            bump,
            lp_bump,
        }),
{
    if amm.paused != 0 {
        return Err(ErrorCode::InvalidAmmState);
    }
    if !mint_a.lt(&mint_b) {
        return Err(ErrorCode::InvalidMintPair);
    }
    Ok(PoolConfig { amm_config, mint_a, mint_b, bump, lp_bump })
}

/// The smaller of two integers.
pub open spec fn min_int(x: int, y: int) -> int {
    if x <= y {
        x
    } else {
        y
    }
}

/// Shares that a deposit of at most `max_a` and `max_b` mints into a pool
/// that already has shares: as many as the scarcer side pays for at the
/// pool's ratio, rounded down.
pub open spec fn proportional_lp(pool: PoolReserves, max_a: u64, max_b: u64) -> int {
    min_int(
        (max_a as int) * (pool.lp_supply as int) / (pool.reserve_a as int),
        (max_b as int) * (pool.lp_supply as int) / (pool.reserve_b as int),
    )
}

/// What a deposit that mints `lp` shares into a pool with shares takes of
/// one token whose reserve is `reserve`: its share of the reserve, rounded up.
pub open spec fn proportional_amount(lp: int, reserve: u64, supply: u64) -> int {
    ceil_div(lp * (reserve as int), supply as int)
}

/// What `deposit_to_pool` decides for its arguments.
pub open spec fn deposit_to_pool_spec(
    pool: PoolReserves,
    max_a: u64,
    max_b: u64,
    min_lp_out: u64,
) -> Result<DepositQuote, ErrorCode> {
    let ra = pool.reserve_a as int;
    let rb = pool.reserve_b as int;
    let s = pool.lp_supply as int;
    if s == 0 {
        if max_a == 0 || max_b == 0 {
            Err(ErrorCode::InvalidDepositAmount)
        } else if sqrt_floor((max_a as nat) * (max_b as nat)) < min_lp_out {
            Err(ErrorCode::SlippageExceeded)
        } else if ra + max_a > u64::MAX || rb + max_b > u64::MAX {
            Err(ErrorCode::MathOverflow)
        } else {
            Ok(
                DepositQuote {
                    amount_a: max_a,
                    amount_b: max_b,
                    lp_out: sqrt_floor((max_a as nat) * (max_b as nat)) as u64,
                },
            )
        }
    } else if ra == 0 || rb == 0 {
        Err(ErrorCode::MathOverflow)
    } else {
        let lp = proportional_lp(pool, max_a, max_b);
        let a = proportional_amount(lp, pool.reserve_a, pool.lp_supply);
        let b = proportional_amount(lp, pool.reserve_b, pool.lp_supply);
        if lp == 0 {
            Err(ErrorCode::InvalidDepositAmount)
        } else if lp < min_lp_out {
            Err(ErrorCode::SlippageExceeded)
        } else if s + lp > u64::MAX || ra + a > u64::MAX || rb + b > u64::MAX {
            Err(ErrorCode::MathOverflow)
        } else {
            Ok(DepositQuote { amount_a: a as u64, amount_b: b as u64, lp_out: lp as u64 })
        }
    }
}

/// Decides a deposit of at most `max_a` of token A and `max_b` of token B
/// into `pool`, by a depositor who wants at least `min_lp_out` shares.
///
/// Into a pool without shares the deposit takes both maximums whole and
/// mints the square root of their product, rounded down. Into a pool with
/// shares it mints as many shares as the scarcer side pays for at the pool's
/// ratio, rounded down, and takes of each token that many shares' part of the
/// reserve, rounded up. It is refused with `InvalidDepositAmount` when it would
/// mint nothing, with `SlippageExceeded` when it would mint fewer than
/// `min_lp_out` shares, and with `MathOverflow` when a balance would leave 64
/// bits or the pool has shares but an empty vault.
pub fn deposit_to_pool(pool: &PoolReserves, max_a: u64, max_b: u64, min_lp_out: u64) -> (r:
    Result<DepositQuote, ErrorCode>)
    ensures
        r == deposit_to_pool_spec(*pool, max_a, max_b, min_lp_out),
{
    let ra = pool.reserve_a;
    let rb = pool.reserve_b;
    let s = pool.lp_supply;
    if s == 0 {
        if max_a == 0 || max_b == 0 {
            return Err(ErrorCode::InvalidDepositAmount);
        }
        let lp = isqrt(wide_mul(max_a, max_b));
        if lp < min_lp_out {
            return Err(ErrorCode::SlippageExceeded);
        }
        if ra > u64::MAX - max_a || rb > u64::MAX - max_b {
            return Err(ErrorCode::MathOverflow);
        }
        return Ok(DepositQuote { amount_a: max_a, amount_b: max_b, lp_out: lp });
    }
    if ra == 0 || rb == 0 {
        return Err(ErrorCode::MathOverflow);
    }
    let lp_by_a = mul_div_floor(max_a, s, ra);
    let lp_by_b = mul_div_floor(max_b, s, rb);
    let lp_wide = if lp_by_a <= lp_by_b {
        lp_by_a
    } else {
        lp_by_b
    };
    assert(lp_wide == proportional_lp(*pool, max_a, max_b));
    if lp_wide == 0 {
        return Err(ErrorCode::InvalidDepositAmount);
    }
    if lp_wide < min_lp_out as u128 {
        return Err(ErrorCode::SlippageExceeded);
    }
    if lp_wide > (u64::MAX - s) as u128 {
        return Err(ErrorCode::MathOverflow);
    }
    let lp = lp_wide as u64;
    proof {
        lemma_ceil_share_within_budget(lp as int, ra as int, s as int, max_a as int);
        lemma_ceil_share_within_budget(lp as int, rb as int, s as int, max_b as int);
    }
    let a = mul_div_ceil(lp, ra, s) as u64;
    let b = mul_div_ceil(lp, rb, s) as u64;
    if ra > u64::MAX - a || rb > u64::MAX - b {
        return Err(ErrorCode::MathOverflow);
    }
    Ok(DepositQuote { amount_a: a, amount_b: b, lp_out: lp })
}

} // verus!
