use anchor_amm::math::{isqrt, mul_div_ceil, mul_div_floor, wide_mul};
use anchor_amm::{deposit_to_pool, DepositQuote, ErrorCode, PoolReserves};

/// A pool and one depositor's balances, moved as a deposit moves them.
struct Fixture {
    pool: PoolReserves,
    user_a: u64,
    user_b: u64,
    user_lp: u64,
}

fn setup_deposit() -> Fixture {
    Fixture {
        pool: PoolReserves { reserve_a: 0, reserve_b: 0, lp_supply: 0 },
        user_a: 10_000,
        user_b: 10_000,
        user_lp: 0,
    }
}

impl Fixture {
    fn deposit(&mut self, a: u64, b: u64, min_lp: u64) -> Result<DepositQuote, ErrorCode> {
        let q = deposit_to_pool(&self.pool, a, b, min_lp)?;
        self.user_a -= q.amount_a;
        self.user_b -= q.amount_b;
        self.user_lp += q.lp_out;
        self.pool = PoolReserves {
            reserve_a: self.pool.reserve_a + q.amount_a,
            reserve_b: self.pool.reserve_b + q.amount_b,
            lp_supply: self.pool.lp_supply + q.lp_out,
        };
        Ok(q)
    }
}

#[test]
fn initial_deposit_accepts_exact_minimum() {
    let mut f = setup_deposit();
    f.deposit(1_000, 4_000, 2_000).unwrap();
    assert_eq!(f.pool.reserve_a, 1_000);
    assert_eq!(f.pool.reserve_b, 4_000);
    assert_eq!(f.user_a, 9_000);
    assert_eq!(f.user_b, 6_000);
    assert_eq!(f.user_lp, 2_000);
    assert_eq!(f.pool.lp_supply, 2_000);
}

#[test]
fn subsequent_deposits_respect_both_maximums() {
    let mut f = setup_deposit();
    f.deposit(1_000, 4_000, 2_000).unwrap();
    // A limits this deposit: accept 100 A and 400 B, not 500 B.
    let q = f.deposit(100, 500, 200).unwrap();
    assert_eq!(q, DepositQuote { amount_a: 100, amount_b: 400, lp_out: 200 });
    // B limits this deposit: accept 50 A and 200 B, not 100 A.
    let q = f.deposit(100, 200, 100).unwrap();
    assert_eq!(q, DepositQuote { amount_a: 50, amount_b: 200, lp_out: 100 });
    assert_eq!(f.pool.reserve_a, 1_150);
    assert_eq!(f.pool.reserve_b, 4_600);
    assert_eq!(f.user_a, 8_850);
    assert_eq!(f.user_b, 5_400);
    assert_eq!(f.user_lp, 2_300);
    assert_eq!(f.pool.lp_supply, 2_300);
}

#[test]
fn rejects_initial_deposit_below_minimum() {
    let mut f = setup_deposit();
    let before = f.pool;
    assert_eq!(f.deposit(1_000, 4_000, 2_001).unwrap_err(), ErrorCode::SlippageExceeded);
    assert_eq!(before, f.pool);
    assert_eq!((f.user_a, f.user_b, f.user_lp), (10_000, 10_000, 0));
}

#[test]
fn rejects_subsequent_deposit_below_minimum() {
    let mut f = setup_deposit();
    f.deposit(1_000, 4_000, 2_000).unwrap();
    let before = f.pool;
    assert_eq!(f.deposit(100, 400, 201).unwrap_err(), ErrorCode::SlippageExceeded);
    assert_eq!(before, f.pool);
    assert_eq!((f.user_a, f.user_b, f.user_lp), (9_000, 6_000, 2_000));
}

#[test]
fn rejects_zero_initial_deposit() {
    let mut f = setup_deposit();
    let before = f.pool;
    assert_eq!(f.deposit(0, 1_000, 0).unwrap_err(), ErrorCode::InvalidDepositAmount);
    assert_eq!(f.deposit(1_000, 0, 0).unwrap_err(), ErrorCode::InvalidDepositAmount);
    assert_eq!(before, f.pool);
}

#[test]
fn rejects_subsequent_deposit_that_mints_nothing() {
    let pool = PoolReserves { reserve_a: 4_000, reserve_b: 1_000, lp_supply: 2_000 };
    // 1 A buys half a share at this ratio: nothing is minted.
    assert_eq!(deposit_to_pool(&pool, 1, 4_000, 0).unwrap_err(), ErrorCode::InvalidDepositAmount);
    assert_eq!(deposit_to_pool(&pool, 0, 0, 0).unwrap_err(), ErrorCode::InvalidDepositAmount);
}

#[test]
fn first_deposit_mints_rounded_down_square_root() {
    let pool = PoolReserves { reserve_a: 0, reserve_b: 0, lp_supply: 0 };
    let q = deposit_to_pool(&pool, 2, 3, 0).unwrap();
    assert_eq!(q, DepositQuote { amount_a: 2, amount_b: 3, lp_out: 2 });
    let q = deposit_to_pool(&pool, u64::MAX, u64::MAX, 0).unwrap();
    assert_eq!(q, DepositQuote { amount_a: u64::MAX, amount_b: u64::MAX, lp_out: u64::MAX });
    let q = deposit_to_pool(&pool, 1, u64::MAX, 0).unwrap();
    assert_eq!(q.lp_out, 4_294_967_295);
}

#[test]
fn first_deposit_into_vault_with_tokens_but_no_shares() {
    // Tokens sent to an empty pool's vault do not change the first deposit.
    let pool = PoolReserves { reserve_a: 5, reserve_b: 0, lp_supply: 0 };
    let q = deposit_to_pool(&pool, 9, 16, 12).unwrap();
    assert_eq!(q, DepositQuote { amount_a: 9, amount_b: 16, lp_out: 12 });
}

#[test]
fn subsequent_deposit_rounds_amounts_up_and_shares_down() {
    let pool = PoolReserves { reserve_a: 3, reserve_b: 7, lp_supply: 5 };
    // By A: 10 * 5 / 3 = 16 shares; by B: 10 * 5 / 7 = 7 shares.
    let q = deposit_to_pool(&pool, 10, 10, 7).unwrap();
    // 7 shares cost 7 * 3 / 5 = 4.2 A, rounded up to 5, and 7 * 7 / 5 = 9.8 B,
    // rounded up to 10.
    assert_eq!(q, DepositQuote { amount_a: 5, amount_b: 10, lp_out: 7 });
    // The tokens behind one share do not decrease.
    assert!(3 * (5 + 7) <= (3 + 5) * 5);
    assert!(7 * (5 + 7) <= (7 + 10) * 5);
}

#[test]
fn deposit_overflow_is_refused() {
    // The share supply would leave 64 bits.
    let pool = PoolReserves { reserve_a: 1, reserve_b: 1, lp_supply: u64::MAX / 2 };
    assert_eq!(
        deposit_to_pool(&pool, 1, 1, 0).unwrap(),
        DepositQuote { amount_a: 1, amount_b: 1, lp_out: u64::MAX / 2 }
    );
    let pool = PoolReserves { reserve_a: 1, reserve_b: 1, lp_supply: u64::MAX };
    assert_eq!(deposit_to_pool(&pool, 1, 1, 0).unwrap_err(), ErrorCode::MathOverflow);
    // A vault would leave 64 bits.
    let pool = PoolReserves { reserve_a: u64::MAX, reserve_b: 1, lp_supply: 0 };
    assert_eq!(deposit_to_pool(&pool, 1, 1, 0).unwrap_err(), ErrorCode::MathOverflow);
    let pool = PoolReserves { reserve_a: u64::MAX, reserve_b: 1, lp_supply: 1 };
    assert_eq!(deposit_to_pool(&pool, u64::MAX, 1, 0).unwrap_err(), ErrorCode::MathOverflow);
}

#[test]
fn deposit_into_pool_with_shares_and_empty_vault_is_refused() {
    let pool = PoolReserves { reserve_a: 0, reserve_b: 10, lp_supply: 10 };
    assert_eq!(deposit_to_pool(&pool, 10, 10, 0).unwrap_err(), ErrorCode::MathOverflow);
    let pool = PoolReserves { reserve_a: 10, reserve_b: 0, lp_supply: 10 };
    assert_eq!(deposit_to_pool(&pool, 10, 10, 0).unwrap_err(), ErrorCode::MathOverflow);
}

#[test]
fn slippage_is_checked_after_zero_deposit() {
    let pool = PoolReserves { reserve_a: 0, reserve_b: 0, lp_supply: 0 };
    assert_eq!(deposit_to_pool(&pool, 0, 5, 100).unwrap_err(), ErrorCode::InvalidDepositAmount);
}

#[test]
fn deposit_mints_all_the_maximums_allow() {
    let pool = PoolReserves { reserve_a: 1_000, reserve_b: 4_000, lp_supply: 2_000 };
    let q = deposit_to_pool(&pool, 137, 10_000, 0).unwrap();
    assert_eq!(q.lp_out, 274);
    // One share more would cost more than 137 A at the pool's ratio.
    assert!(137 * 2_000 < (q.lp_out + 1) * 1_000);
    assert!(q.amount_a <= 137 && q.amount_b <= 10_000);
}

#[test]
fn integer_square_root() {
    assert_eq!(isqrt(0), 0);
    assert_eq!(isqrt(1), 1);
    assert_eq!(isqrt(3), 1);
    assert_eq!(isqrt(4), 2);
    assert_eq!(isqrt(4_000_000), 2_000);
    assert_eq!(isqrt(4_000_001), 2_000);
    assert_eq!(isqrt(u128::MAX), u64::MAX);
    assert_eq!(isqrt((u64::MAX as u128) * (u64::MAX as u128)), u64::MAX);
    assert_eq!(isqrt((u64::MAX as u128) * (u64::MAX as u128) - 1), u64::MAX - 1);
}

#[test]
fn widened_products_and_divisions() {
    assert_eq!(wide_mul(u64::MAX, u64::MAX), (u64::MAX as u128) * (u64::MAX as u128));
    assert_eq!(mul_div_floor(7, 5, 3), 11);
    assert_eq!(mul_div_ceil(7, 5, 3), 12);
    assert_eq!(mul_div_ceil(6, 5, 3), 10);
    assert_eq!(mul_div_floor(u64::MAX, u64::MAX, 1), (u64::MAX as u128) * (u64::MAX as u128));
    assert_eq!(mul_div_ceil(u64::MAX, u64::MAX, u64::MAX), u64::MAX as u128);
}

#[test]
fn deposit_at_pool_ratio_is_taken_whole() {
    let pool = PoolReserves { reserve_a: 1_000, reserve_b: 4_000, lp_supply: 2_000 };
    let q = deposit_to_pool(&pool, 3_000, 12_000, 6_000).unwrap();
    assert_eq!(q, DepositQuote { amount_a: 3_000, amount_b: 12_000, lp_out: 6_000 });
    assert_eq!(deposit_to_pool(&pool, 3_000, 12_000, 6_001).unwrap_err(), ErrorCode::SlippageExceeded);
}

#[test]
fn deposits_keep_shares_backed() {
    let mut f = setup_deposit();
    f.deposit(7, 3, 0).unwrap();
    for (a, b) in [(5, 5), (1, 9), (9, 1), (13, 2), (2, 13)] {
        let before = f.pool;
        if f.deposit(a, b, 0).is_ok() {
            let after = f.pool;
            assert!(after.lp_supply > 0 && after.reserve_a > 0 && after.reserve_b > 0);
            // Tokens behind one share never decrease.
            assert!(
                (before.reserve_a as u128) * (after.lp_supply as u128)
                    <= (after.reserve_a as u128) * (before.lp_supply as u128)
            );
            assert!(
                (before.reserve_b as u128) * (after.lp_supply as u128)
                    <= (after.reserve_b as u128) * (before.lp_supply as u128)
            );
        }
    }
}
