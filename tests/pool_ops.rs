use minidex::add_liquidity::{liquidity_add, AddLiquidity};
use minidex::constants::{MAX_FEE_RATE, MINIMUM_LIQUIDITY};
use minidex::errors::MinidexError;
use minidex::initialize_pool::{initialize, InitializePool};
use minidex::math::{integer_sqrt, mul_div_floor, narrow_u64};
use minidex::minidex::{add_liquidity, initialize_pool, remove_liquidity, swap_tokens};
use minidex::remove_liquidity::{liquidity_remove, RemoveLiquidity};
use minidex::setup::{initialize_a, initialize_lp_mint, initialize_vault_b, SetupLpMint, SetupVaultA, SetupVaultB};
use minidex::state::{Address, Pool, SwapDirection};
use minidex::swap::{token_swap, Swap};
use minidex::utils::calculate_swap_output;

fn addr(b: u8) -> Address {
    Address::new([b; 32])
}

fn init_ctx() -> InitializePool {
    InitializePool { authority: addr(9), token_a_mint: addr(1), token_b_mint: addr(2), bump: 254 }
}

fn fresh(fee_rate: u16) -> Pool {
    initialize(&init_ctx(), fee_rate, addr(3), addr(4), addr(5)).unwrap()
}

fn funded(reserve_a: u64, reserve_b: u64, supply: u64, fee_rate: u16) -> Pool {
    let mut pool = fresh(0);
    pool.fee_rate = fee_rate;
    pool.reserve_a = reserve_a;
    pool.reserve_b = reserve_b;
    pool.total_lp_supply = supply;
    pool
}

fn swap_ctx(pool: Pool) -> Swap {
    Swap { pool, user_token_a_balance: 1_000_000, user_token_b_balance: 1_000_000 }
}

#[test]
fn initialize_records_fields_and_starts_empty() {
    let pool = initialize(&init_ctx(), 30, addr(3), addr(4), addr(5)).unwrap();
    assert_eq!(pool.authority, addr(9));
    assert_eq!(pool.token_a_mint, addr(1));
    assert_eq!(pool.token_b_mint, addr(2));
    assert_eq!(pool.token_a_vault, addr(3));
    assert_eq!(pool.token_b_vault, addr(4));
    assert_eq!(pool.lp_mint, addr(5));
    assert_eq!(pool.fee_rate, 30);
    assert_eq!(pool.bump, 254);
    assert_eq!((pool.reserve_a, pool.reserve_b, pool.total_lp_supply), (0, 0, 0));
}

#[test]
fn initialize_rejects_fee_above_ceiling() {
    assert_eq!(initialize(&init_ctx(), MAX_FEE_RATE + 1, addr(3), addr(4), addr(5)), Err(MinidexError::InvalidFeeRate));
    assert!(initialize(&init_ctx(), MAX_FEE_RATE, addr(3), addr(4), addr(5)).is_ok());
}

#[test]
fn initialize_rejects_identical_mints() {
    let ctx = InitializePool { authority: addr(9), token_a_mint: addr(7), token_b_mint: addr(7), bump: 1 };
    assert_eq!(initialize_pool(&ctx, 30, addr(3), addr(4), addr(5)), Err(MinidexError::IdenticalMints));
    let mut bytes = [7u8; 32];
    bytes[31] = 8;
    let ctx = InitializePool { authority: addr(9), token_a_mint: addr(7), token_b_mint: Address::new(bytes), bump: 1 };
    assert!(initialize_pool(&ctx, 30, addr(3), addr(4), addr(5)).is_ok());
}

#[test]
fn address_comparison_is_bytewise() {
    assert!(addr(1).same_as(&addr(1)));
    assert!(!addr(1).same_as(&addr(2)));
    let mut bytes = [1u8; 32];
    bytes[0] = 0;
    assert!(!addr(1).same_as(&Address::new(bytes)));
}

#[test]
fn setup_records_vaults_and_lp_mint() {
    let pool = fresh(30);
    let mut a = SetupVaultA { pool, token_a_vault: addr(11) };
    initialize_a(&mut a);
    assert_eq!(a.pool.token_a_vault, addr(11));
    assert_eq!(a.pool.token_b_vault, addr(4));
    let mut b = SetupVaultB { pool: a.pool, token_b_vault: addr(12) };
    initialize_vault_b(&mut b);
    assert_eq!(b.pool.token_b_vault, addr(12));
    let mut m = SetupLpMint { pool: b.pool, lp_mint: addr(13) };
    initialize_lp_mint(&mut m);
    assert_eq!(m.pool.lp_mint, addr(13));
    assert_eq!(m.pool.token_a_vault, addr(11));
}

#[test]
fn first_deposit_locks_minimum_liquidity() {
    let mut ctx = AddLiquidity { pool: fresh(30) };
    assert_eq!(add_liquidity(&mut ctx, 1000, 1000, 0), Ok(1000 - MINIMUM_LIQUIDITY));
    assert_eq!(ctx.pool.reserve_a, 1000);
    assert_eq!(ctx.pool.reserve_b, 1000);
    assert_eq!(ctx.pool.total_lp_supply, 1000);
}

#[test]
fn first_deposit_uses_floor_sqrt_of_product() {
    let mut ctx = AddLiquidity { pool: fresh(30) };
    // floor(sqrt(2000 * 500)) = 1000
    assert_eq!(liquidity_add(&mut ctx, 2000, 500, 0), Ok(900));
    let mut ctx = AddLiquidity { pool: fresh(30) };
    // floor(sqrt(300 * 700)) = floor(458.25...) = 458
    assert_eq!(liquidity_add(&mut ctx, 300, 700, 0), Ok(358));
    assert_eq!(ctx.pool.total_lp_supply, 458);
}

#[test]
fn later_deposit_mints_proportional_shares() {
    let mut ctx = AddLiquidity { pool: funded(1000, 1000, 1000, 30) };
    assert_eq!(add_liquidity(&mut ctx, 500, 500, 0), Ok(500));
    assert_eq!((ctx.pool.reserve_a, ctx.pool.reserve_b, ctx.pool.total_lp_supply), (1500, 1500, 1500));
}

#[test]
fn later_deposit_takes_smaller_claim() {
    let mut ctx = AddLiquidity { pool: funded(1000, 2000, 1000, 30) };
    // from a: 500 * 1000 / 1000 = 500; from b: 300 * 1000 / 2000 = 150
    assert_eq!(liquidity_add(&mut ctx, 500, 300, 0), Ok(150));
    assert_eq!((ctx.pool.reserve_a, ctx.pool.reserve_b, ctx.pool.total_lp_supply), (1500, 2300, 1150));
}

#[test]
fn deposit_with_zero_amount_fails() {
    let mut ctx = AddLiquidity { pool: fresh(30) };
    assert_eq!(liquidity_add(&mut ctx, 0, 500, 0), Err(MinidexError::ZeroAmount));
    assert_eq!(liquidity_add(&mut ctx, 500, 0, 0), Err(MinidexError::ZeroAmount));
    assert_eq!(ctx.pool, fresh(30));
}

#[test]
fn small_first_deposit_fails() {
    let mut ctx = AddLiquidity { pool: fresh(30) };
    // floor(sqrt(100 * 100)) = 100, not above the locked minimum
    assert_eq!(liquidity_add(&mut ctx, 100, 100, 0), Err(MinidexError::InsufficientLiquidity));
    assert_eq!(liquidity_add(&mut ctx, 1, 10000, 0), Err(MinidexError::InsufficientLiquidity));
    assert_eq!(ctx.pool, fresh(30));
    assert_eq!(liquidity_add(&mut ctx, 101, 101, 0), Ok(1));
}

#[test]
fn deposit_below_slippage_floor_fails() {
    let mut ctx = AddLiquidity { pool: fresh(30) };
    assert_eq!(liquidity_add(&mut ctx, 1000, 1000, 901), Err(MinidexError::SlippageExceeded));
    assert_eq!(liquidity_add(&mut ctx, 1000, 1000, 900), Ok(900));
}

#[test]
fn deposit_minting_nothing_fails() {
    let mut ctx = AddLiquidity { pool: funded(10000, 10000, 1000, 30) };
    // 5 * 1000 / 10000 = 0
    assert_eq!(liquidity_add(&mut ctx, 5, 5, 0), Err(MinidexError::ZeroLPTokens));
    assert_eq!(ctx.pool, funded(10000, 10000, 1000, 30));
}

#[test]
fn deposit_overflowing_reserve_fails() {
    let mut ctx = AddLiquidity { pool: funded(u64::MAX - 10, 1000, 1000, 30) };
    assert_eq!(liquidity_add(&mut ctx, u64::MAX / 2, 1000, 0), Err(MinidexError::MathOverflow));
    assert_eq!(ctx.pool.reserve_a, u64::MAX - 10);
}

#[test]
fn deposit_into_pool_with_zero_reserve_fails() {
    let mut ctx = AddLiquidity { pool: funded(0, 1000, 1000, 30) };
    assert_eq!(liquidity_add(&mut ctx, 10, 10, 0), Err(MinidexError::MathOverflow));
}

#[test]
fn deposit_whose_shares_exceed_64_bits_fails() {
    let mut ctx = AddLiquidity { pool: funded(1, 1, u64::MAX - 1, 30) };
    assert_eq!(liquidity_add(&mut ctx, 3, 3, 0), Err(MinidexError::MathOverflow));
}

#[test]
fn withdrawal_pays_proportional_amounts() {
    let mut ctx = RemoveLiquidity { pool: funded(1000, 1000, 1000, 30), user_lp_balance: 900 };
    assert_eq!(remove_liquidity(&mut ctx, 100, 0, 0), Ok((100, 100)));
    assert_eq!((ctx.pool.reserve_a, ctx.pool.reserve_b, ctx.pool.total_lp_supply), (900, 900, 900));
    assert_eq!(ctx.user_lp_balance, 900);
}

#[test]
fn withdrawal_rounds_down() {
    let mut ctx = RemoveLiquidity { pool: funded(1001, 999, 1000, 30), user_lp_balance: 500 };
    // 333 * 1001 / 1000 = 333.33; 333 * 999 / 1000 = 332.67
    assert_eq!(liquidity_remove(&mut ctx, 333, 0, 0), Ok((333, 332)));
    assert_eq!((ctx.pool.reserve_a, ctx.pool.reserve_b, ctx.pool.total_lp_supply), (668, 667, 667));
}

#[test]
fn withdrawal_of_whole_supply_empties_pool() {
    let mut ctx = RemoveLiquidity { pool: funded(1000, 3000, 1000, 30), user_lp_balance: 1000 };
    assert_eq!(liquidity_remove(&mut ctx, 1000, 1000, 3000), Ok((1000, 3000)));
    assert_eq!((ctx.pool.reserve_a, ctx.pool.reserve_b, ctx.pool.total_lp_supply), (0, 0, 0));
}

#[test]
fn withdrawal_error_kinds() {
    let base = funded(1000, 1000, 1000, 30);
    let mut ctx = RemoveLiquidity { pool: base, user_lp_balance: 900 };
    assert_eq!(liquidity_remove(&mut ctx, 0, 0, 0), Err(MinidexError::ZeroLPTokens));
    assert_eq!(liquidity_remove(&mut ctx, 901, 0, 0), Err(MinidexError::InsufficientLPTokens));
    assert_eq!(liquidity_remove(&mut ctx, 100, 101, 0), Err(MinidexError::SlippageExceeded));
    assert_eq!(liquidity_remove(&mut ctx, 100, 0, 101), Err(MinidexError::SlippageExceeded));
    assert_eq!(ctx.pool, base);

    let mut empty = RemoveLiquidity { pool: fresh(30), user_lp_balance: 10 };
    assert_eq!(liquidity_remove(&mut empty, 5, 0, 0), Err(MinidexError::EmptyPool));

    let mut lopsided = RemoveLiquidity { pool: funded(1000, 0, 1000, 30), user_lp_balance: 10 };
    assert_eq!(liquidity_remove(&mut lopsided, 5, 0, 0), Err(MinidexError::InsufficientLiquidity));

    // 6 * 10 / 5 = 12 exceeds the reserve of 10
    let mut over = RemoveLiquidity { pool: funded(10, 10, 5, 30), user_lp_balance: 6 };
    assert_eq!(liquidity_remove(&mut over, 6, 0, 0), Err(MinidexError::InsufficientLiquidity));

    // 11 * 1 / 10 = 1 fits the reserve, but 11 shares exceed the supply of 10
    let mut under = RemoveLiquidity { pool: funded(1, 1, 10, 30), user_lp_balance: 20 };
    assert_eq!(liquidity_remove(&mut under, 11, 0, 0), Err(MinidexError::MathOverflow));
    assert_eq!(under.pool, funded(1, 1, 10, 30));
}

#[test]
fn withdrawal_whose_amount_exceeds_64_bits_fails() {
    let mut ctx = RemoveLiquidity { pool: funded(u64::MAX, u64::MAX, 1, 30), user_lp_balance: 3 };
    assert_eq!(liquidity_remove(&mut ctx, 3, 0, 0), Err(MinidexError::MathOverflow));
}

#[test]
fn swap_a_to_b_matches_constant_product_quote() {
    let mut ctx = swap_ctx(funded(1000, 1000, 1000, 30));
    // fee-adjusted input floor(100 * 9970 / 10000) = 99; output floor(99 * 1000 / 1099) = 90
    assert_eq!(swap_tokens(&mut ctx, 100, 0, SwapDirection::AToB), Ok(90));
    assert_eq!((ctx.pool.reserve_a, ctx.pool.reserve_b), (1100, 910));
    assert_eq!(ctx.pool.total_lp_supply, 1000);
}

#[test]
fn swap_b_to_a_moves_reserves_the_other_way() {
    let mut ctx = swap_ctx(funded(1000, 1000, 1000, 30));
    assert_eq!(token_swap(&mut ctx, 100, 90, SwapDirection::BToA), Ok(90));
    assert_eq!((ctx.pool.reserve_a, ctx.pool.reserve_b), (910, 1100));
}

#[test]
fn swap_quote_depends_on_fee() {
    let pool = funded(1000, 1000, 1000, 1000);
    // floor(100 * 9000 / 10000) = 90; floor(90 * 1000 / 1090) = 82
    assert_eq!(calculate_swap_output(&pool, 100, SwapDirection::AToB), Ok(82));
    let pool = funded(1000, 1000, 1000, 0);
    // floor(100 * 1000 / 1100) = 90
    assert_eq!(calculate_swap_output(&pool, 100, SwapDirection::AToB), Ok(90));
    let pool = funded(2000, 500, 1000, 0);
    // floor(400 * 2000 / 900) = 888
    assert_eq!(calculate_swap_output(&pool, 400, SwapDirection::BToA), Ok(888));
}

#[test]
fn swap_quote_rejects_fee_above_whole() {
    let pool = funded(1000, 1000, 1000, 10001);
    assert_eq!(calculate_swap_output(&pool, 100, SwapDirection::AToB), Err(MinidexError::MathOverflow));
    let pool = funded(0, 1000, 1000, 30);
    assert_eq!(calculate_swap_output(&pool, 0, SwapDirection::AToB), Err(MinidexError::MathOverflow));
}

#[test]
fn swap_error_kinds() {
    let base = funded(1000, 1000, 1000, 30);
    let mut ctx = swap_ctx(base);
    assert_eq!(token_swap(&mut ctx, 0, 0, SwapDirection::AToB), Err(MinidexError::ZeroSwapAmount));
    assert_eq!(token_swap(&mut ctx, 100, 91, SwapDirection::AToB), Err(MinidexError::SlippageExceeded));
    ctx.user_token_a_balance = 99;
    assert_eq!(token_swap(&mut ctx, 100, 0, SwapDirection::AToB), Err(MinidexError::InsufficientUserBalance));
    assert_eq!(token_swap(&mut ctx, 100, 0, SwapDirection::BToA), Ok(90));

    let mut empty = swap_ctx(fresh(30));
    assert_eq!(token_swap(&mut empty, 100, 0, SwapDirection::AToB), Err(MinidexError::InsufficientLiquidity));
    assert_eq!(empty.pool, fresh(30));

    let mut bad_fee = swap_ctx(funded(1000, 1000, 1000, 20000));
    assert_eq!(token_swap(&mut bad_fee, 100, 0, SwapDirection::AToB), Err(MinidexError::MathOverflow));
}

#[test]
fn swap_overflowing_input_reserve_fails() {
    let mut ctx = swap_ctx(funded(u64::MAX - 5, 1000, 1000, 30));
    assert_eq!(token_swap(&mut ctx, 100, 0, SwapDirection::AToB), Err(MinidexError::MathOverflow));
    assert_eq!(ctx.pool.reserve_a, u64::MAX - 5);
}

#[test]
fn huge_swap_never_drains_output_reserve() {
    let mut ctx = Swap { pool: funded(1, 1000, 1000, 0), user_token_a_balance: u64::MAX, user_token_b_balance: 0 };
    let out = token_swap(&mut ctx, u64::MAX - 1, 0, SwapDirection::AToB).unwrap();
    assert!(out < 1000);
    assert!(ctx.pool.reserve_b > 0);
}

#[test]
fn swap_keeps_reserve_product_from_falling() {
    let mut ctx = swap_ctx(funded(1000, 1000, 1000, 30));
    for amount in [1u64, 7, 100, 999, 5000] {
        let before = ctx.pool.reserve_a as u128 * ctx.pool.reserve_b as u128;
        let direction = if amount % 2 == 0 { SwapDirection::AToB } else { SwapDirection::BToA };
        token_swap(&mut ctx, amount, 0, direction).unwrap();
        let after = ctx.pool.reserve_a as u128 * ctx.pool.reserve_b as u128;
        assert!(after >= before);
    }
}

#[test]
fn proportional_operations_keep_price() {
    let mut add = AddLiquidity { pool: funded(2000, 1000, 1000, 30) };
    assert_eq!(liquidity_add(&mut add, 400, 200, 0), Ok(200));
    assert_eq!(add.pool.reserve_a as u128 * 1000, add.pool.reserve_b as u128 * 2000);

    let mut remove = RemoveLiquidity { pool: funded(1001, 999, 1000, 30), user_lp_balance: 500 };
    liquidity_remove(&mut remove, 333, 0, 0).unwrap();
    let drift = remove.pool.reserve_a as i128 * 999 - remove.pool.reserve_b as i128 * 1001;
    assert!(-1001 < drift && drift < 999);
}

#[test]
fn equal_inputs_give_equal_outcomes() {
    let mut first = swap_ctx(funded(1234, 5678, 2000, 25));
    let mut second = swap_ctx(funded(1234, 5678, 2000, 25));
    assert_eq!(token_swap(&mut first, 321, 0, SwapDirection::BToA), token_swap(&mut second, 321, 0, SwapDirection::BToA));
    assert_eq!(first.pool, second.pool);
    let mut first = AddLiquidity { pool: funded(1234, 5678, 2000, 25) };
    let mut second = AddLiquidity { pool: funded(1234, 5678, 2000, 25) };
    assert_eq!(liquidity_add(&mut first, 77, 99, 0), liquidity_add(&mut second, 77, 99, 0));
    assert_eq!(first.pool, second.pool);
}

#[test]
fn supply_is_zero_exactly_when_reserves_are() {
    let mut add = AddLiquidity { pool: fresh(30) };
    liquidity_add(&mut add, 5000, 2000, 0).unwrap();
    let pool = add.pool;
    assert!(pool.total_lp_supply > 0 && pool.reserve_a > 0 && pool.reserve_b > 0);
    let mut swap = swap_ctx(pool);
    token_swap(&mut swap, 700, 0, SwapDirection::AToB).unwrap();
    let supply = swap.pool.total_lp_supply;
    let mut remove = RemoveLiquidity { pool: swap.pool, user_lp_balance: supply };
    liquidity_remove(&mut remove, supply - 1, 0, 0).unwrap();
    assert!(remove.pool.total_lp_supply == 1 && remove.pool.reserve_a > 0 && remove.pool.reserve_b > 0);
    liquidity_remove(&mut remove, 1, 0, 0).unwrap();
    assert_eq!((remove.pool.total_lp_supply, remove.pool.reserve_a, remove.pool.reserve_b), (0, 0, 0));
}

#[test]
fn integer_sqrt_values() {
    assert_eq!(integer_sqrt(0), 0);
    assert_eq!(integer_sqrt(1), 1);
    assert_eq!(integer_sqrt(2), 1);
    assert_eq!(integer_sqrt(3), 1);
    assert_eq!(integer_sqrt(4), 2);
    assert_eq!(integer_sqrt(15), 3);
    assert_eq!(integer_sqrt(16), 4);
    assert_eq!(integer_sqrt(1_000_000), 1000);
    assert_eq!(integer_sqrt(999_999), 999);
    let m = u64::MAX as u128;
    assert_eq!(integer_sqrt(m * m), m);
    assert_eq!(integer_sqrt(u128::MAX), m);
}

#[test]
fn wide_arithmetic_helpers() {
    assert_eq!(mul_div_floor(7, 10, 3), Some(23));
    assert_eq!(mul_div_floor(u64::MAX, u64::MAX, 1), Some(u64::MAX as u128 * u64::MAX as u128));
    assert_eq!(mul_div_floor(5, 5, 0), None);
    assert_eq!(narrow_u64(u64::MAX as u128), Some(u64::MAX));
    assert_eq!(narrow_u64(u64::MAX as u128 + 1), None);
}

#[test]
fn swap_against_empty_output_reserve_fails() {
    let mut ctx = swap_ctx(funded(1000, 0, 1000, 30));
    assert_eq!(calculate_swap_output(&ctx.pool, 100, SwapDirection::AToB), Ok(0));
    assert_eq!(token_swap(&mut ctx, 100, 0, SwapDirection::AToB), Err(MinidexError::InsufficientLiquidity));
    assert_eq!(ctx.pool, funded(1000, 0, 1000, 30));
}
