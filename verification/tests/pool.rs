use token_programs::keys::Pubkey;
use token_programs::stableswap::errors::StableSwapError;
use token_programs::stableswap::oracle::{
    is_off_peg, normalize_price, read_price, PriceReading, PEG_PRICE,
};
use token_programs::stableswap::pool::{
    add_liquidity, check_depeg, initialize_pool, remove_liquidity, swap, Balances, InitializePool,
    Pool, Readings,
};
use token_programs::stableswap::quote::calculate_swap_output;

const AMPLIFICATION: u64 = 100;
const BASE_FEE_BPS: u16 = 4;
const MAX_DYNAMIC_FEE_BPS: u16 = 100;
const DEPEG_THRESHOLD_BPS: u16 = 500;
const MAX_PRICE_AGE_SEC: u64 = 60;
const DECIMALS: u8 = 6;
const ONE_TOKEN: u64 = 1_000_000;
const INITIAL_DEPOSIT: u64 = 1_000_000 * ONE_TOKEN;
const SWAP_AMOUNT: u64 = 10_000 * ONE_TOKEN;

const ONE_DOLLAR_PRICE: i64 = 100_000_000;
const DEPEGGED_PRICE: i64 = 90_000_000;
const PYTH_EXPONENT: i32 = -8;
const NORMALIZED_ONE_DOLLAR: u128 = 1_000_000_000;

fn key(tag: u8) -> Pubkey {
    Pubkey { bytes: [tag; 32] }
}

fn accounts() -> InitializePool {
    InitializePool {
        admin: key(1),
        token_mint_a: key(2),
        token_mint_b: key(3),
        decimals_a: DECIMALS,
        decimals_b: DECIMALS,
        lp_mint: key(4),
        oracle_price_feed_a: key(5),
        oracle_price_feed_b: key(6),
    }
}

fn new_pool() -> Pool {
    initialize_pool(
        &accounts(),
        AMPLIFICATION,
        BASE_FEE_BPS,
        MAX_DYNAMIC_FEE_BPS,
        DEPEG_THRESHOLD_BPS,
        MAX_PRICE_AGE_SEC,
    )
    .unwrap()
}

fn reading(feed: Pubkey, price: i64) -> PriceReading {
    PriceReading { feed, price, exponent: PYTH_EXPONENT, age_sec: 0 }
}

fn readings(price_a: i64, price_b: i64) -> Readings {
    Readings { a: reading(key(5), price_a), b: reading(key(6), price_b) }
}

fn on_peg() -> Readings {
    readings(ONE_DOLLAR_PRICE, ONE_DOLLAR_PRICE)
}

fn empty() -> Balances {
    Balances { vault_a: 0, vault_b: 0, lp_supply: 0 }
}

fn funded(pool: &Pool) -> Balances {
    let lp = add_liquidity(pool, &empty(), &on_peg(), INITIAL_DEPOSIT, INITIAL_DEPOSIT, 0).unwrap();
    Balances { vault_a: INITIAL_DEPOSIT, vault_b: INITIAL_DEPOSIT, lp_supply: lp }
}

#[test]
fn initialize_pool_errors() {
    let a = accounts();
    assert_eq!(
        initialize_pool(&a, 0, 4, 100, 500, 60),
        Err(StableSwapError::InvalidAmplification)
    );
    assert_eq!(
        initialize_pool(&a, 1_000_001, 4, 100, 500, 60),
        Err(StableSwapError::InvalidAmplification)
    );
    assert!(initialize_pool(&a, 1, 4, 100, 500, 60).is_ok());
    assert!(initialize_pool(&a, 1_000_000, 4, 100, 500, 60).is_ok());
    assert_eq!(initialize_pool(&a, 100, 4, 10_001, 500, 60), Err(StableSwapError::InvalidFee));
    assert_eq!(initialize_pool(&a, 100, 10_001, 4, 500, 60), Err(StableSwapError::InvalidFee));
    assert!(initialize_pool(&a, 100, 10_000, 10_000, 500, 60).is_ok());
    assert_eq!(
        initialize_pool(&a, 100, 101, 100, 500, 60),
        Err(StableSwapError::InvalidFeeConfig)
    );
    assert_eq!(
        initialize_pool(&a, 100, 4, 100, 0, 60),
        Err(StableSwapError::InvalidDepegThreshold)
    );
    assert_eq!(
        initialize_pool(&a, 100, 4, 100, 500, 0),
        Err(StableSwapError::InvalidOracleAge)
    );
    let uneven = InitializePool { decimals_b: 9, ..a };
    assert_eq!(
        initialize_pool(&uneven, 100, 4, 100, 500, 60),
        Err(StableSwapError::InvalidMintDecimals)
    );
}

#[test]
fn normalized_prices() {
    assert_eq!(normalize_price(ONE_DOLLAR_PRICE, PYTH_EXPONENT), Ok(NORMALIZED_ONE_DOLLAR));
    assert_eq!(normalize_price(DEPEGGED_PRICE, PYTH_EXPONENT), Ok(900_000_000));
    assert_eq!(normalize_price(7, -9), Ok(7));
    assert_eq!(normalize_price(1_999, -12), Ok(1));
    assert_eq!(normalize_price(1, 0), Ok(PEG_PRICE));
    assert_eq!(normalize_price(0, 0), Err(StableSwapError::InvalidOraclePrice));
    assert_eq!(normalize_price(-5, 0), Err(StableSwapError::InvalidOraclePrice));
    assert_eq!(normalize_price(999, -12), Err(StableSwapError::InvalidOraclePrice));
    assert_eq!(normalize_price(i64::MAX, i32::MIN), Err(StableSwapError::InvalidOraclePrice));
    assert_eq!(normalize_price(1, 30), Err(StableSwapError::MathOverflow));
    assert_eq!(normalize_price(1, i32::MAX), Err(StableSwapError::MathOverflow));
}

#[test]
fn readings_must_be_of_the_feed_and_fresh() {
    let good = reading(key(5), ONE_DOLLAR_PRICE);
    assert_eq!(read_price(&good, &key(5), 60), Ok(PEG_PRICE));
    assert_eq!(read_price(&good, &key(6), 60), Err(StableSwapError::InvalidOracleAccount));
    let old = PriceReading { age_sec: 61, ..good };
    assert_eq!(read_price(&old, &key(5), 60), Err(StableSwapError::StaleOraclePrice));
    assert_eq!(read_price(&old, &key(5), 61), Ok(PEG_PRICE));
}

#[test]
fn peg_band_includes_its_ends() {
    assert!(!is_off_peg(PEG_PRICE, 0));
    assert!(!is_off_peg(950_000_000, 500));
    assert!(is_off_peg(949_999_999, 500));
    assert!(!is_off_peg(1_050_000_000, 500));
    assert!(is_off_peg(1_050_000_001, 500));
    assert!(is_off_peg(u128::MAX, u16::MAX));
    assert!(!is_off_peg(0, 10_000));
}

#[test]
fn peg_check_opens_a_recovered_pool() {
    let mut pool = new_pool();
    check_depeg(&mut pool, &readings(DEPEGGED_PRICE, ONE_DOLLAR_PRICE)).unwrap();
    assert!(pool.is_paused);
    check_depeg(&mut pool, &on_peg()).unwrap();
    assert_eq!(pool, new_pool());
}

#[test]
fn peg_check_needs_usable_prices() {
    let mut pool = new_pool();
    assert_eq!(
        check_depeg(&mut pool, &readings(0, DEPEGGED_PRICE)),
        Err(StableSwapError::InvalidOraclePrice)
    );
    let mut swapped_feeds = on_peg();
    swapped_feeds.b.feed = key(5);
    assert_eq!(
        check_depeg(&mut pool, &swapped_feeds),
        Err(StableSwapError::InvalidOracleAccount)
    );
    assert_eq!(pool, new_pool());
}

#[test]
fn halted_pool_refuses_deposits_and_pays_out() {
    let mut pool = new_pool();
    let balances = funded(&pool);
    let depegged = readings(DEPEGGED_PRICE, ONE_DOLLAR_PRICE);
    // Off the peg, though nobody has checked yet.
    assert_eq!(
        add_liquidity(&pool, &balances, &depegged, 5, 5, 0),
        Err(StableSwapError::PoolPaused)
    );
    check_depeg(&mut pool, &depegged).unwrap();
    assert_eq!(
        add_liquidity(&pool, &balances, &on_peg(), 5, 5, 0),
        Err(StableSwapError::PoolPaused)
    );
    assert!(remove_liquidity(&balances, 1_000_000, 0, 0).is_ok());
}

#[test]
fn add_liquidity_errors() {
    let pool = new_pool();
    let balances = funded(&pool);
    assert_eq!(
        add_liquidity(&pool, &balances, &on_peg(), 0, 0, 0),
        Err(StableSwapError::ZeroAmount)
    );
    let lp = add_liquidity(&pool, &balances, &on_peg(), 1_000, 0, 0).unwrap();
    assert!(lp > 0 && lp <= 1_000);
    assert_eq!(
        add_liquidity(&pool, &balances, &on_peg(), 1_000, 0, lp + 1),
        Err(StableSwapError::SlippageExceeded)
    );
    assert_eq!(
        add_liquidity(&pool, &empty(), &on_peg(), 500, 500, 0),
        Err(StableSwapError::InsufficientInitialLiquidity)
    );
    assert_eq!(
        add_liquidity(&pool, &empty(), &on_peg(), 5_000, 0, 0),
        Err(StableSwapError::EmptyPool)
    );
}

#[test]
fn remove_liquidity_errors() {
    let balances = funded(&new_pool());
    assert_eq!(remove_liquidity(&balances, 0, 0, 0), Err(StableSwapError::ZeroAmount));
    assert_eq!(
        remove_liquidity(&balances, 1, 0, 0),
        Err(StableSwapError::SingleSidedWithdrawalNotAllowed)
    );
    assert_eq!(remove_liquidity(&empty(), 1, 0, 0), Err(StableSwapError::EmptyPool));
    assert_eq!(remove_liquidity(&balances, 2_000, 1_000, 1_000), Ok((1_000, 1_000)));
    assert_eq!(
        remove_liquidity(&balances, 2_000, 1_001, 0),
        Err(StableSwapError::SlippageExceeded)
    );
    assert_eq!(
        remove_liquidity(&balances, 2_000, 0, 1_001),
        Err(StableSwapError::SlippageExceeded)
    );
}

#[test]
fn locked_shares_stay_behind() {
    let balances = funded(&new_pool());
    let (a, b) = remove_liquidity(&balances, balances.lp_supply, 0, 0).unwrap();
    assert_eq!((a, b), (INITIAL_DEPOSIT - 500, INITIAL_DEPOSIT - 500));
}

#[test]
fn swap_errors() {
    let pool = new_pool();
    let balances = funded(&pool);
    let at = on_peg();
    assert_eq!(swap(&pool, &balances, &at, 5, 0, 2, 1), Err(StableSwapError::InvalidTokenIndex));
    assert_eq!(swap(&pool, &balances, &at, 5, 0, 0, 2), Err(StableSwapError::InvalidTokenIndex));
    assert_eq!(swap(&pool, &balances, &at, 5, 0, 1, 1), Err(StableSwapError::SameTokenSwap));
    assert_eq!(swap(&pool, &balances, &at, 0, 0, 0, 1), Err(StableSwapError::ZeroAmount));
    assert_eq!(swap(&pool, &empty(), &at, 5, 0, 0, 1), Err(StableSwapError::EmptyPool));
    assert_eq!(
        swap(&pool, &balances, &at, SWAP_AMOUNT, SWAP_AMOUNT, 0, 1),
        Err(StableSwapError::SlippageExceeded)
    );
    let mut stale = at;
    stale.b.age_sec = 61;
    assert_eq!(
        swap(&pool, &balances, &stale, SWAP_AMOUNT, 0, 0, 1),
        Err(StableSwapError::StaleOraclePrice)
    );
}

#[test]
fn swap_takes_the_sides_by_index() {
    let pool = new_pool();
    let balances = Balances { vault_a: 3_000_000, vault_b: 5_000_000, lp_supply: 8_000_000 };
    let at = readings(101_000_000, 99_000_000);
    let quote = calculate_swap_output(
        5_000_000,
        3_000_000,
        40_000,
        100,
        4,
        100,
        990_000_000,
        1_010_000_000,
        500,
    )
    .unwrap();
    assert_eq!(swap(&pool, &balances, &at, 40_000, 0, 1, 0), Ok(quote));
}
