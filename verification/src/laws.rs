//! What holds of the AMM's instructions for every input and across calls.
use vstd::prelude::*;

use crate::error::ErrorCode;
use crate::instructions::{
    deposit_to_pool_spec, initialize_amm_spec, initialize_pool_spec, proportional_amount,
    proportional_lp,
};
use crate::key::{key_lt, lemma_key_order_total, Key};
use crate::math::{
    is_sqrt_floor, sqrt_floor, lemma_ceil_div_bounds, lemma_ceil_share_within_budget,
    lemma_floor_div_bounds, lemma_sqrt_floor_exists, lemma_sqrt_floor_of_u64_product,
};
use crate::state::{after_deposit, AmmConfig, DepositQuote, PoolConfig, PoolReserves};
use vstd::arithmetic::div_mod::{lemma_div_multiples_vanish, lemma_div_multiples_vanish_fancy};

verus! {

/// Facts about the amounts of an accepted deposit into a pool with shares.
proof fn lemma_proportional_facts(pool: PoolReserves, max_a: u64, max_b: u64)
    requires
        pool.lp_supply > 0,
        pool.reserve_a > 0,
        pool.reserve_b > 0,
        proportional_lp(pool, max_a, max_b) > 0,
    ensures
        ({
            let s = pool.lp_supply as int;
            let ra = pool.reserve_a as int;
            let rb = pool.reserve_b as int;
            let lp = proportional_lp(pool, max_a, max_b);
            let a = proportional_amount(lp, pool.reserve_a, pool.lp_supply);
            let b = proportional_amount(lp, pool.reserve_b, pool.lp_supply);
            &&& 0 < a <= max_a
            &&& 0 < b <= max_b
            &&& lp * ra <= a * s < lp * ra + s
            &&& lp * rb <= b * s < lp * rb + s
            &&& (max_a as int) * s < (lp + 1) * ra || (max_b as int) * s < (lp + 1) * rb
        }),
{
    let s = pool.lp_supply as int;
    let ra = pool.reserve_a as int;
    let rb = pool.reserve_b as int;
    let lp = proportional_lp(pool, max_a, max_b);
    let fa = (max_a as int) * s / ra;
    let fb = (max_b as int) * s / rb;
    assert((max_a as int) * s >= 0 && (max_b as int) * s >= 0) by (nonlinear_arith)
        requires
            s > 0,
    ;
    lemma_floor_div_bounds((max_a as int) * s, ra);
    lemma_floor_div_bounds((max_b as int) * s, rb);
    lemma_ceil_share_within_budget(lp, ra, s, max_a as int);
    lemma_ceil_share_within_budget(lp, rb, s, max_b as int);
    assert(lp * ra > 0 && lp * rb > 0) by (nonlinear_arith)
        requires
            lp > 0,
            ra > 0,
            rb > 0,
    ;
    lemma_ceil_div_bounds(lp * ra, s);
    lemma_ceil_div_bounds(lp * rb, s);
    let a = proportional_amount(lp, pool.reserve_a, pool.lp_supply);
    let b = proportional_amount(lp, pool.reserve_b, pool.lp_supply);
    assert(a > 0) by (nonlinear_arith)
        requires
            lp * ra <= a * s,
            lp * ra > 0,
            s > 0,
    ;
    assert(b > 0) by (nonlinear_arith)
        requires
            lp * rb <= b * s,
            lp * rb > 0,
            s > 0,
    ;
    if lp == fa {
        assert((max_a as int) * s < (lp + 1) * ra);
    } else {
        assert(lp == fb);
        assert((max_b as int) * s < (lp + 1) * rb);
    }
}

/// An accepted deposit stays within what the depositor allowed: it takes at
/// most `max_a` of token A and `max_b` of token B, takes some of each, and
/// mints at least `min_lp_out` shares, and at least one.
pub proof fn lemma_deposit_respects_limits(
    pool: PoolReserves,
    max_a: u64,
    max_b: u64,
    min_lp_out: u64,
)
    requires
        deposit_to_pool_spec(pool, max_a, max_b, min_lp_out) is Ok,
    ensures
        ({
            let q = deposit_to_pool_spec(pool, max_a, max_b, min_lp_out)->Ok_0;
            &&& 0 < q.amount_a <= max_a
            &&& 0 < q.amount_b <= max_b
            &&& q.lp_out >= min_lp_out
            &&& q.lp_out > 0
        }),
{
    if pool.lp_supply == 0 {
        lemma_sqrt_floor_of_u64_product(max_a, max_b);
    } else {
        lemma_proportional_facts(pool, max_a, max_b);
    }
}

/// A first deposit, into a pool without shares, takes both maximums whole and
/// mints the square root of their product, rounded down.
pub proof fn lemma_first_deposit_mints_geometric_mean(
    pool: PoolReserves,
    max_a: u64,
    max_b: u64,
    min_lp_out: u64,
)
    requires
        pool.lp_supply == 0,
        deposit_to_pool_spec(pool, max_a, max_b, min_lp_out) is Ok,
    ensures
        ({
            let q = deposit_to_pool_spec(pool, max_a, max_b, min_lp_out)->Ok_0;
            &&& q.amount_a == max_a
            &&& q.amount_b == max_b
            &&& is_sqrt_floor(q.lp_out as int, (max_a as int) * (max_b as int))
        }),
{
    lemma_sqrt_floor_exists((max_a as nat) * (max_b as nat));
    lemma_sqrt_floor_of_u64_product(max_a, max_b);
}

/// A deposit into a pool with shares never dilutes the holders: it pays at
/// least the fair price of its shares in each token, so that the tokens that
/// back one share do not decrease; and rounding costs it less than one token
/// unit per side.
pub proof fn lemma_deposit_does_not_dilute(
    pool: PoolReserves,
    max_a: u64,
    max_b: u64,
    min_lp_out: u64,
)
    requires
        pool.lp_supply > 0,
        deposit_to_pool_spec(pool, max_a, max_b, min_lp_out) is Ok,
    ensures
        ({
            let q = deposit_to_pool_spec(pool, max_a, max_b, min_lp_out)->Ok_0;
            let s = pool.lp_supply as int;
            let after = after_deposit(pool, q);
            &&& (q.lp_out as int) * (pool.reserve_a as int) <= (q.amount_a as int) * s
            &&& (q.lp_out as int) * (pool.reserve_b as int) <= (q.amount_b as int) * s
            &&& (q.amount_a as int) * s < (q.lp_out as int) * (pool.reserve_a as int) + s
            &&& (q.amount_b as int) * s < (q.lp_out as int) * (pool.reserve_b as int) + s
            &&& (pool.reserve_a as int) * (after.lp_supply as int) <= (after.reserve_a as int) * s
            &&& (pool.reserve_b as int) * (after.lp_supply as int) <= (after.reserve_b as int) * s
        }),
{
    lemma_proportional_facts(pool, max_a, max_b);
    let q = deposit_to_pool_spec(pool, max_a, max_b, min_lp_out)->Ok_0;
    let s = pool.lp_supply as int;
    let ra = pool.reserve_a as int;
    let rb = pool.reserve_b as int;
    let lp = q.lp_out as int;
    let a = q.amount_a as int;
    let b = q.amount_b as int;
    assert(ra * (s + lp) <= (ra + a) * s) by (nonlinear_arith)
        requires
            lp * ra <= a * s,
    ;
    assert(rb * (s + lp) <= (rb + b) * s) by (nonlinear_arith)
        requires
            lp * rb <= b * s,
    ;
}

/// A deposit into a pool with shares mints as many shares as its maximums
/// allow: one share more would cost, at the pool's ratio, more than `max_a`
/// of token A or more than `max_b` of token B.
pub proof fn lemma_deposit_mints_all_it_can(
    pool: PoolReserves,
    max_a: u64,
    max_b: u64,
    min_lp_out: u64,
)
    requires
        pool.lp_supply > 0,
        deposit_to_pool_spec(pool, max_a, max_b, min_lp_out) is Ok,
    ensures
        ({
            let q = deposit_to_pool_spec(pool, max_a, max_b, min_lp_out)->Ok_0;
            let s = pool.lp_supply as int;
            ||| (max_a as int) * s < (q.lp_out + 1) * (pool.reserve_a as int)
            ||| (max_b as int) * s < (q.lp_out + 1) * (pool.reserve_b as int)
        }),
{
    lemma_proportional_facts(pool, max_a, max_b);
}

/// An accepted deposit leaves a well-formed pool with shares, whose balances
/// are the old ones plus what the deposit moved, none of them past 64 bits.
pub proof fn lemma_deposit_preserves_pool_invariant(
    pool: PoolReserves,
    max_a: u64,
    max_b: u64,
    min_lp_out: u64,
)
    requires
        pool.wf(),
        deposit_to_pool_spec(pool, max_a, max_b, min_lp_out) is Ok,
    ensures
        ({
            let q = deposit_to_pool_spec(pool, max_a, max_b, min_lp_out)->Ok_0;
            let after = after_deposit(pool, q);
            &&& after.wf()
            &&& after.lp_supply > 0
            &&& after.reserve_a == pool.reserve_a + q.amount_a
            &&& after.reserve_b == pool.reserve_b + q.amount_b
            &&& after.lp_supply == pool.lp_supply + q.lp_out
        }),
{
    lemma_deposit_respects_limits(pool, max_a, max_b, min_lp_out);
}

/// A deposit offered at exactly the pool's ratio, `k` times its reserves, is
/// taken whole and mints exactly `k` times the share supply: rounding costs
/// the depositor nothing.
pub proof fn lemma_deposit_at_pool_ratio_is_exact(
    pool: PoolReserves,
    k: nat,
    max_a: u64,
    max_b: u64,
    min_lp_out: u64,
)
    requires
        pool.lp_supply > 0,
        pool.reserve_a > 0,
        pool.reserve_b > 0,
        k > 0,
        max_a == k * pool.reserve_a,
        max_b == k * pool.reserve_b,
    ensures
        ({
            let r = deposit_to_pool_spec(pool, max_a, max_b, min_lp_out);
            let lp = k * pool.lp_supply;
            &&& r is Ok <==> lp >= min_lp_out && pool.lp_supply + lp <= u64::MAX
                && pool.reserve_a + max_a <= u64::MAX && pool.reserve_b + max_b <= u64::MAX
            &&& r is Ok ==> r->Ok_0 == (DepositQuote {
                amount_a: max_a,
                amount_b: max_b,
                lp_out: lp as u64,
            })
        }),
{
    let s = pool.lp_supply as int;
    let ra = pool.reserve_a as int;
    let rb = pool.reserve_b as int;
    let ki = k as int;
    assert((max_a as int) * s == ra * (ki * s)) by (nonlinear_arith)
        requires
            max_a == ki * ra,
    ;
    assert((max_b as int) * s == rb * (ki * s)) by (nonlinear_arith)
        requires
            max_b == ki * rb,
    ;
    lemma_div_multiples_vanish(ki * s, ra);
    lemma_div_multiples_vanish(ki * s, rb);
    let lp = proportional_lp(pool, max_a, max_b);
    assert(lp == ki * s);
    assert(lp > 0) by (nonlinear_arith)
        requires
            lp == ki * s,
            ki > 0,
            s > 0,
    ;
    assert(lp * ra == s * (max_a as int)) by (nonlinear_arith)
        requires
            lp == ki * s,
            max_a == ki * ra,
    ;
    assert(lp * rb == s * (max_b as int)) by (nonlinear_arith)
        requires
            lp == ki * s,
            max_b == ki * rb,
    ;
    lemma_div_multiples_vanish_fancy(max_a as int, s - 1, s);
    lemma_div_multiples_vanish_fancy(max_b as int, s - 1, s);
}

/// Which first deposit, into a pool without shares, is accepted and with what
/// answer: it is refused with `InvalidDepositAmount` exactly when a maximum is
/// zero, else with `SlippageExceeded` exactly when the square root of the
/// product of the maximums, rounded down, is below `min_lp_out`, else with
/// `MathOverflow` exactly when a vault would pass 64 bits; otherwise it is
/// accepted, takes both maximums, and mints that square root.
pub proof fn lemma_first_deposit_outcome(
    pool: PoolReserves,
    max_a: u64,
    max_b: u64,
    min_lp_out: u64,
)
    requires
        pool.lp_supply == 0,
    ensures
        ({
            let r = deposit_to_pool_spec(pool, max_a, max_b, min_lp_out);
            let root = sqrt_floor((max_a as nat) * (max_b as nat));
            let fits = pool.reserve_a + max_a <= u64::MAX && pool.reserve_b + max_b <= u64::MAX;
            &&& r == Err::<DepositQuote, ErrorCode>(ErrorCode::InvalidDepositAmount) <==> (max_a
                == 0 || max_b == 0)
            &&& r == Err::<DepositQuote, ErrorCode>(ErrorCode::SlippageExceeded) <==> (max_a > 0
                && max_b > 0 && root < min_lp_out)
            &&& r == Err::<DepositQuote, ErrorCode>(ErrorCode::MathOverflow) <==> (max_a > 0
                && max_b > 0 && root >= min_lp_out && !fits)
            &&& r is Ok <==> (max_a > 0 && max_b > 0 && root >= min_lp_out && fits)
            &&& r matches Ok(q) ==> q.amount_a == max_a && q.amount_b == max_b && q.lp_out
                == root && is_sqrt_floor(q.lp_out as int, (max_a as int) * (max_b as int))
        }),
{
    lemma_sqrt_floor_exists((max_a as nat) * (max_b as nat));
    lemma_sqrt_floor_of_u64_product(max_a, max_b);
}

/// Which deposit into a pool with shares and two non-empty vaults is accepted
/// and with what answer. Let `lp` be the largest share count that both
/// maximums pay for at the pool's ratio, `min(max_a * s / ra, max_b * s / rb)`
/// rounded down. The deposit is refused with `InvalidDepositAmount` exactly
/// when `lp` is zero, else with `SlippageExceeded` exactly when `lp` is below
/// `min_lp_out`, else with `MathOverflow` exactly when the supply or a vault
/// would pass 64 bits once `lp` shares are minted for their rounded-up price;
/// otherwise it is accepted, mints `lp` shares and takes of each token the
/// least amount that pays for them: `lp * r <= amount * s < lp * r + s`.
pub proof fn lemma_proportional_deposit_outcome(
    pool: PoolReserves,
    max_a: u64,
    max_b: u64,
    min_lp_out: u64,
)
    requires
        pool.lp_supply > 0,
        pool.reserve_a > 0,
        pool.reserve_b > 0,
    ensures
        ({
            let r = deposit_to_pool_spec(pool, max_a, max_b, min_lp_out);
            let s = pool.lp_supply as int;
            let ra = pool.reserve_a as int;
            let rb = pool.reserve_b as int;
            let by_a = (max_a as int) * s / ra;
            let by_b = (max_b as int) * s / rb;
            let lp = if by_a <= by_b {
                by_a
            } else {
                by_b
            };
            let cost_a = (lp * ra + s - 1) / s;
            let cost_b = (lp * rb + s - 1) / s;
            let fits = s + lp <= u64::MAX && ra + cost_a <= u64::MAX && rb + cost_b <= u64::MAX;
            &&& r == Err::<DepositQuote, ErrorCode>(ErrorCode::InvalidDepositAmount) <==> lp == 0
            &&& r == Err::<DepositQuote, ErrorCode>(ErrorCode::SlippageExceeded) <==> (0 < lp
                < min_lp_out)
            &&& r == Err::<DepositQuote, ErrorCode>(ErrorCode::MathOverflow) <==> (lp > 0 && lp
                >= min_lp_out && !fits)
            &&& r is Ok <==> (lp > 0 && lp >= min_lp_out && fits)
            &&& r matches Ok(q) ==> {
                &&& q.lp_out == lp
                &&& q.amount_a == cost_a
                &&& q.amount_b == cost_b
                &&& lp * ra <= (q.amount_a as int) * s < lp * ra + s
                &&& lp * rb <= (q.amount_b as int) * s < lp * rb + s
            }
        }),
{
    let s = pool.lp_supply as int;
    assert((max_a as int) * s >= 0 && (max_b as int) * s >= 0) by (nonlinear_arith)
        requires
            s > 0,
    ;
    lemma_floor_div_bounds((max_a as int) * s, pool.reserve_a as int);
    lemma_floor_div_bounds((max_b as int) * s, pool.reserve_b as int);
    let lp = proportional_lp(pool, max_a, max_b);
    if lp > 0 {
        lemma_proportional_facts(pool, max_a, max_b);
    }
}

/// An accepted AMM configuration records exactly the arguments it was created
/// with, and one is accepted exactly when the fee is at most 10,000 basis
/// points and the paused flag is 0 or 1.
pub proof fn lemma_initialize_amm_records_arguments(
    maker: Key,
    admin: Key,
    id: u64,
    fee: u16,
    paused: u8,
    bump: u8,
)
    ensures
        ({
            let r = initialize_amm_spec(maker, admin, id, fee, paused, bump);
            &&& r is Ok <==> fee <= 10000 && paused <= 1
            &&& r == Err::<AmmConfig, ErrorCode>(ErrorCode::InvalidFee) <==> fee > 10000
            &&& r == Err::<AmmConfig, ErrorCode>(ErrorCode::InvalidPaused) <==> fee <= 10000
                && paused > 1
            &&& r matches Ok(c) ==> {
                &&& c.maker == maker
                &&& c.admin == admin
                &&& c.id == id
                &&& c.fee == fee
                &&& c.paused == paused
                &&& c.bump == bump
            }
        }),
{
}

/// An accepted pool configuration records exactly the arguments it was
/// created with, and one is accepted exactly when the AMM runs and `mint_a`
/// comes strictly before `mint_b`; a paused AMM refuses with
/// `InvalidAmmState` whatever the mints.
pub proof fn lemma_initialize_pool_records_arguments(
    amm: AmmConfig,
    amm_config: Key,
    mint_a: Key,
    mint_b: Key,
    bump: u8,
    lp_bump: u8,
)
    ensures
        ({
            let r = initialize_pool_spec(amm, amm_config, mint_a, mint_b, bump, lp_bump);
            &&& r is Ok <==> amm.paused == 0 && key_lt(mint_a@, mint_b@)
            &&& r == Err::<PoolConfig, ErrorCode>(ErrorCode::InvalidAmmState) <==> amm.paused != 0
            &&& r == Err::<PoolConfig, ErrorCode>(ErrorCode::InvalidMintPair) <==> amm.paused == 0
                && !key_lt(mint_a@, mint_b@)
            &&& r matches Ok(p) ==> {
                &&& p.amm_config == amm_config
                &&& p.mint_a == mint_a
                &&& p.mint_b == mint_b
                &&& p.bump == bump
                &&& p.lp_bump == lp_bump
            }
        }),
{
}

/// A pool that has shares but an empty vault cannot price a deposit: every
/// deposit into it is refused with `MathOverflow`.
pub proof fn lemma_deposit_into_pool_with_empty_vault(
    pool: PoolReserves,
    max_a: u64,
    max_b: u64,
    min_lp_out: u64,
)
    requires
        pool.lp_supply > 0,
        pool.reserve_a == 0 || pool.reserve_b == 0,
    ensures
        deposit_to_pool_spec(pool, max_a, max_b, min_lp_out) == Err::<DepositQuote, ErrorCode>(
            ErrorCode::MathOverflow,
        ),
{
}

/// The first byte at which two keys differ decides their order: the key with
/// the smaller byte there comes first, and the other does not.
pub proof fn lemma_first_differing_byte_decides(a: Key, b: Key, i: int)
    requires
        0 <= i < 32,
        forall|j: int| 0 <= j < i ==> a@[j] == b@[j],
        a@[i] < b@[i],
    ensures
        key_lt(a@, b@),
        !key_lt(b@, a@),
{
    assert(a@.len() == 32 && b@.len() == 32);
    assert(crate::key::same_prefix(a@, b@, i));
    assert(key_lt(a@, b@));
    assert(a@ != b@);
    lemma_key_order_total(a, b);
}

/// Each pair of distinct mints has exactly one pool per AMM: while the AMM
/// runs, a pool is created for exactly one of the two orders of two distinct
/// mints, and for neither order of one mint given twice.
pub proof fn lemma_one_pool_per_mint_pair(
    amm: AmmConfig,
    amm_config: Key,
    mint_x: Key,
    mint_y: Key,
    bump: u8,
    lp_bump: u8,
)
    requires
        amm.paused == 0,
    ensures
        mint_x@ != mint_y@ ==> (initialize_pool_spec(amm, amm_config, mint_x, mint_y, bump, lp_bump)
            is Ok <==> !(initialize_pool_spec(
            amm,
            amm_config,
            mint_y,
            mint_x,
            bump,
            lp_bump,
        ) is Ok)),
        mint_x@ == mint_y@ ==> initialize_pool_spec(amm, amm_config, mint_x, mint_y, bump, lp_bump)
            == Err::<crate::state::PoolConfig, ErrorCode>(ErrorCode::InvalidMintPair),
{
    lemma_key_order_total(mint_x, mint_y);
    lemma_key_order_total(mint_x, mint_x);
}

} // verus!
