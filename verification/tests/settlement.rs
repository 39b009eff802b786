use std::collections::HashMap;
use std::str::FromStr;

use token_programs::accounts::{
    Account, AccountError, Burn, CreateMint, CreateTokenAccount, MintTo, Rejection, Transfer,
    ASSOCIATED_TOKEN_PROGRAM, SYSTEM_PROGRAM, TOKEN_PROGRAM,
};
use token_programs::keys::Pubkey;
use token_programs::stableswap::curve::compute_d;
use token_programs::stableswap::errors::StableSwapError;
use token_programs::stableswap::liquidity::{
    calculate_lp_mint_amount, calculate_withdraw_amounts,
};
use token_programs::stableswap::oracle::PriceReading;
use token_programs::stableswap::pool::{
    pool_addresses, Balances, InitializePool, Pool, PoolAddresses, Readings, MINIMUM_LIQUIDITY,
};
use token_programs::stableswap::price_account::read_price_account;
use token_programs::stableswap::quote::{calculate_swap_output, SwapQuote};
use token_programs::stableswap::settlement::{
    check_liquidity_accounts, check_mints, check_swap_accounts, check_vaults, set_up_pool, set_up_pool_at, settle_deposit, settle_deposit_at,
    settle_swap, settle_swap_at, settle_withdrawal, settle_withdrawal_at, watch_peg, watch_peg_at,
    CheckDepeg, DepositAmounts, LiquidityAccounts, PoolParameters, PoolSetup, PoolSetupAccounts,
    SwapAccounts, SwapOrder, Swapped, WithdrawalAmounts,
};

const AMPLIFICATION: u64 = 100;
const BASE_FEE_BPS: u16 = 4;
const MAX_DYNAMIC_FEE_BPS: u16 = 100;
const DEPEG_THRESHOLD_BPS: u16 = 500;
const MAX_PRICE_AGE_SEC: u64 = 60;
const DECIMALS: u8 = 6;
const ONE_TOKEN: u64 = 1_000_000;
const INITIAL_MINT: u64 = 2_000_000 * ONE_TOKEN;
const INITIAL_DEPOSIT: u64 = 1_000_000 * ONE_TOKEN;
const SWAP_AMOUNT: u64 = 10_000 * ONE_TOKEN;

const PYTH_MAGIC: u32 = 0xa1b2c3d4;
const PYTH_VERSION_2: u32 = 2;
const PYTH_ACCOUNT_TYPE_PRICE: u32 = 3;
const PYTH_STATUS_TRADING: u8 = 1;
const ONE_DOLLAR_PRICE: i64 = 100_000_000;
const DEPEGGED_PRICE: i64 = 90_000_000;
const PYTH_EXPONENT: i32 = -8;
const NORMALIZED_ONE_DOLLAR: u128 = 1_000_000_000;

const NOW: i64 = 1_700_000_000;

fn key(tag: u8) -> Pubkey {
    Pubkey { bytes: [tag; 32] }
}

fn outside(key: &Pubkey) -> anchor_lang::prelude::Pubkey {
    anchor_lang::prelude::Pubkey::new_from_array(key.bytes)
}

fn inside(key: anchor_lang::prelude::Pubkey) -> Pubkey {
    Pubkey { bytes: key.to_bytes() }
}

fn program() -> Pubkey {
    let id = "9KnYoNL6vyQcs5QiZyaTnoD38AVLFPHzHJRdsJtShyW5";
    inside(anchor_lang::prelude::Pubkey::from_str(id).unwrap())
}

fn associated(wallet: &Pubkey, mint: &Pubkey) -> Pubkey {
    inside(anchor_spl::associated_token::get_associated_token_address(
        &outside(wallet),
        &outside(mint),
    ))
}

/// The bytes of a price account.
fn price_account(price: i64, timestamp: i64) -> Vec<u8> {
    let mut data = vec![0u8; 3312];
    data[0..4].copy_from_slice(&PYTH_MAGIC.to_le_bytes());
    data[4..8].copy_from_slice(&PYTH_VERSION_2.to_le_bytes());
    data[8..12].copy_from_slice(&PYTH_ACCOUNT_TYPE_PRICE.to_le_bytes());
    data[12..16].copy_from_slice(&3312u32.to_le_bytes());
    data[20..24].copy_from_slice(&PYTH_EXPONENT.to_le_bytes());
    data[96..104].copy_from_slice(&timestamp.to_le_bytes());
    data[208..216].copy_from_slice(&price.to_le_bytes());
    data[224] = PYTH_STATUS_TRADING;
    data
}

/// Token accounts and mints, as the token program keeps them.
#[derive(Debug, Clone, Default)]
struct Ledger {
    held: HashMap<[u8; 32], u64>,
    supply: HashMap<[u8; 32], u64>,
}

impl Ledger {
    fn create_mint(&mut self, request: &CreateMint) {
        assert!(self.supply.insert(request.mint.bytes, 0).is_none());
    }

    fn create_account(&mut self, request: &CreateTokenAccount) {
        assert_eq!(request.address, associated(&request.wallet, &request.mint));
        assert!(self.held.insert(request.address.bytes, 0).is_none());
    }

    fn transfer(&mut self, request: &Transfer) {
        *self.held.get_mut(&request.from.bytes).unwrap() -= request.amount;
        *self.held.get_mut(&request.to.bytes).unwrap() += request.amount;
    }

    fn mint_to(&mut self, request: &MintTo) {
        *self.held.get_mut(&request.to.bytes).unwrap() += request.amount;
        *self.supply.get_mut(&request.mint.bytes).unwrap() += request.amount;
    }

    fn burn(&mut self, request: &Burn) {
        *self.held.get_mut(&request.from.bytes).unwrap() -= request.amount;
        *self.supply.get_mut(&request.mint.bytes).unwrap() -= request.amount;
    }

    fn assert_account_exists(&self, account: &Pubkey) {
        assert!(self.held.contains_key(&account.bytes));
    }

    fn assert_token_balance(&self, account: &Pubkey, amount: u64) {
        assert_eq!(self.held[&account.bytes], amount);
    }

    fn assert_mint_supply(&self, mint: &Pubkey, amount: u64) {
        assert_eq!(self.supply[&mint.bytes], amount);
    }
}

struct TestFixture {
    ledger: Ledger,
    user: Pubkey,
    token_mint_a: Pubkey,
    token_mint_b: Pubkey,
    lp_mint: Pubkey,
    pool: Pubkey,
    vault_a: Pubkey,
    vault_b: Pubkey,
    user_token_a: Pubkey,
    user_token_b: Pubkey,
    user_lp_token: Pubkey,
    oracle_a: Pubkey,
    oracle_b: Pubkey,
    data_a: Vec<u8>,
    data_b: Vec<u8>,
    state: Option<Account<Pool>>,
}

impl TestFixture {
    fn new() -> Self {
        let user = key(1);
        let token_mint_a = key(2);
        let token_mint_b = key(3);
        let lp_mint = key(4);
        let (pool, _) = anchor_lang::prelude::Pubkey::find_program_address(
            &[b"pool", &lp_mint.bytes],
            &outside(&program()),
        );
        let pool = inside(pool);
        let user_token_a = associated(&user, &token_mint_a);
        let user_token_b = associated(&user, &token_mint_b);
        let mut ledger = Ledger::default();
        ledger.held.insert(user_token_a.bytes, INITIAL_MINT);
        ledger.held.insert(user_token_b.bytes, INITIAL_MINT);
        TestFixture {
            ledger,
            user,
            token_mint_a,
            token_mint_b,
            lp_mint,
            pool,
            vault_a: associated(&pool, &token_mint_a),
            vault_b: associated(&pool, &token_mint_b),
            user_token_a,
            user_token_b,
            user_lp_token: associated(&user, &lp_mint),
            oracle_a: key(5),
            oracle_b: key(6),
            data_a: price_account(ONE_DOLLAR_PRICE, NOW),
            data_b: price_account(ONE_DOLLAR_PRICE, NOW),
            state: None,
        }
    }

    fn setup_accounts(&self) -> PoolSetupAccounts {
        PoolSetupAccounts {
            parts: InitializePool {
                admin: self.user,
                token_mint_a: self.token_mint_a,
                token_mint_b: self.token_mint_b,
                decimals_a: DECIMALS,
                decimals_b: DECIMALS,
                lp_mint: self.lp_mint,
                oracle_price_feed_a: self.oracle_a,
                oracle_price_feed_b: self.oracle_b,
            },
            pool: self.pool,
            vault_a: self.vault_a,
            vault_b: self.vault_b,
            system_program: Pubkey { bytes: SYSTEM_PROGRAM },
            token_program: Pubkey { bytes: TOKEN_PROGRAM },
            associated_token_program: Pubkey { bytes: ASSOCIATED_TOKEN_PROGRAM },
        }
    }

    fn initialize_pool(&mut self) -> PoolSetup {
        let done = set_up_pool(&program(), &self.setup_accounts(), &parameters()).unwrap();
        self.ledger.create_mint(&done.create_lp_mint);
        self.ledger.create_account(&done.create_vault_a);
        self.ledger.create_account(&done.create_vault_b);
        self.state = Some(done.pool);
        done
    }

    fn create_user_lp_token(&mut self) -> Pubkey {
        self.ledger.held.insert(self.user_lp_token.bytes, 0);
        self.user_lp_token
    }

    fn pool_state(&self) -> Account<Pool> {
        self.state.unwrap()
    }

    fn balances(&self) -> Balances {
        Balances {
            vault_a: self.ledger.held[&self.vault_a.bytes],
            vault_b: self.ledger.held[&self.vault_b.bytes],
            lp_supply: self.ledger.supply[&self.lp_mint.bytes],
        }
    }

    fn readings(&self) -> Readings {
        Readings {
            a: read_price_account(self.oracle_a, &self.data_a, NOW).unwrap(),
            b: read_price_account(self.oracle_b, &self.data_b, NOW).unwrap(),
        }
    }

    fn liquidity_accounts(&self) -> LiquidityAccounts {
        LiquidityAccounts {
            pool: self.pool_state(),
            token_mint_a: self.token_mint_a,
            token_mint_b: self.token_mint_b,
            lp_mint: self.lp_mint,
            vault_a: self.vault_a,
            vault_b: self.vault_b,
            user_token_a: self.user_token_a,
            user_token_b: self.user_token_b,
            user_lp_token: self.user_lp_token,
            user: self.user,
            token_program: Pubkey { bytes: TOKEN_PROGRAM },
        }
    }

    fn add_liquidity(&mut self, amount_a: u64, amount_b: u64, min_lp_out: u64) {
        let done = settle_deposit(
            &program(),
            &self.liquidity_accounts(),
            &self.balances(),
            &self.readings(),
            &DepositAmounts { amount_a, amount_b, min_lp_out },
        )
        .unwrap();
        self.ledger.transfer(&done.transfer_a);
        self.ledger.transfer(&done.transfer_b);
        self.ledger.mint_to(&done.mint_lp);
    }

    fn remove_liquidity(&mut self, lp_amount: u64, min_a: u64, min_b: u64) {
        let done = settle_withdrawal(
            &program(),
            &self.liquidity_accounts(),
            &self.balances(),
            &WithdrawalAmounts { lp_amount, min_a, min_b },
        )
        .unwrap();
        self.ledger.burn(&done.burn_lp);
        self.ledger.transfer(&done.transfer_a);
        self.ledger.transfer(&done.transfer_b);
    }

    fn check_depeg(&mut self) -> Result<(), Rejection<StableSwapError>> {
        let mut accounts = CheckDepeg {
            pool: self.pool_state(),
            token_mint_a: self.token_mint_a,
            token_mint_b: self.token_mint_b,
            lp_mint: self.lp_mint,
        };
        let r = watch_peg(&program(), &mut accounts, &self.readings());
        self.state = Some(accounts.pool);
        r
    }

    fn swap_accounts(&self) -> SwapAccounts {
        SwapAccounts {
            pool: self.pool_state(),
            user: self.user,
            token_program: Pubkey { bytes: TOKEN_PROGRAM },
            remaining: vec![self.vault_a, self.vault_b, self.user_token_a, self.user_token_b],
        }
    }

    fn swap(
        &mut self,
        amount_in: u64,
        min_amount_out: u64,
        input_index: u8,
        output_index: u8,
    ) -> Result<Swapped, Rejection<StableSwapError>> {
        let done = settle_swap(
            &program(),
            &self.swap_accounts(),
            &self.balances(),
            &self.readings(),
            &SwapOrder { amount_in, min_amount_out, input_index, output_index },
        )?;
        self.ledger.transfer(&done.transfer_in);
        self.ledger.transfer(&done.transfer_out);
        Ok(done)
    }
}

fn parameters() -> PoolParameters {
    PoolParameters {
        amplification: AMPLIFICATION,
        base_fee_bps: BASE_FEE_BPS,
        max_dynamic_fee_bps: MAX_DYNAMIC_FEE_BPS,
        depeg_threshold_bps: DEPEG_THRESHOLD_BPS,
        max_price_age_sec: MAX_PRICE_AGE_SEC,
    }
}

fn rule<T>(e: StableSwapError) -> Result<T, Rejection<StableSwapError>> {
    Err(Rejection::Program(e))
}

fn misplaced<T>() -> Result<T, Rejection<StableSwapError>> {
    Err(Rejection::Account(AccountError::ConstraintSeeds))
}

#[test]
fn initialize_pool_creates_pool_state_and_vaults() {
    let mut fixture = TestFixture::new();
    let done = fixture.initialize_pool();

    let pool = fixture.pool_state().data;
    assert_eq!(pool.admin, fixture.user);
    assert_eq!(pool.lp_mint, fixture.lp_mint);
    assert_eq!(pool.amplification, AMPLIFICATION);
    assert_eq!(pool.fee_bps, BASE_FEE_BPS);
    assert_eq!(pool.token_mints[0], fixture.token_mint_a);
    assert_eq!(pool.token_mints[1], fixture.token_mint_b);
    assert_eq!(pool.oracle_config.oracle_a, fixture.oracle_a);
    assert_eq!(pool.oracle_config.oracle_b, fixture.oracle_b);
    assert!(!pool.is_paused);

    assert_eq!(done.pool.address, fixture.pool);
    fixture.ledger.assert_account_exists(&fixture.vault_a);
    fixture.ledger.assert_account_exists(&fixture.vault_b);
    fixture.ledger.assert_mint_supply(&fixture.lp_mint, 0);
    assert_eq!(done.balances, fixture.balances());
    assert_eq!(done.create_lp_mint.mint_authority, fixture.pool);
    assert_eq!(done.create_lp_mint.payer, fixture.user);
    assert_eq!(done.create_lp_mint.decimals, DECIMALS);
    assert_eq!(done.create_lp_mint.freeze_authority, None);
}

#[test]
fn add_and_remove_liquidity_use_proportional_lp_accounting() {
    let mut fixture = TestFixture::new();
    fixture.initialize_pool();
    let user_lp_token = fixture.create_user_lp_token();

    let expected_lp = calculate_lp_mint_amount(
        0,
        0,
        INITIAL_DEPOSIT as u128,
        INITIAL_DEPOSIT as u128,
        0,
        AMPLIFICATION as u128,
        MINIMUM_LIQUIDITY,
    )
    .unwrap();

    fixture.add_liquidity(INITIAL_DEPOSIT, INITIAL_DEPOSIT, expected_lp);

    fixture.ledger.assert_token_balance(&fixture.vault_a, INITIAL_DEPOSIT);
    fixture.ledger.assert_token_balance(&fixture.vault_b, INITIAL_DEPOSIT);
    fixture.ledger.assert_token_balance(&user_lp_token, expected_lp);
    fixture.ledger.assert_mint_supply(&fixture.lp_mint, expected_lp);
    assert_eq!(expected_lp, 1_999_999_999_000);

    let burn_amount = expected_lp / 2;
    let withdraw_amounts = calculate_withdraw_amounts(
        &[INITIAL_DEPOSIT as u128, INITIAL_DEPOSIT as u128],
        burn_amount as u128,
        expected_lp as u128 + MINIMUM_LIQUIDITY as u128,
    )
    .unwrap();
    fixture.remove_liquidity(burn_amount, withdraw_amounts[0], withdraw_amounts[1]);

    fixture.ledger.assert_token_balance(
        &fixture.user_token_a,
        INITIAL_MINT - INITIAL_DEPOSIT + withdraw_amounts[0],
    );
    fixture.ledger.assert_token_balance(
        &fixture.user_token_b,
        INITIAL_MINT - INITIAL_DEPOSIT + withdraw_amounts[1],
    );
    fixture.ledger.assert_token_balance(&user_lp_token, expected_lp - burn_amount);
    fixture.ledger.assert_mint_supply(&fixture.lp_mint, expected_lp - burn_amount);
    assert_eq!(withdraw_amounts, vec![499_999_999_750, 499_999_999_750]);
}

#[test]
fn swap_uses_remaining_accounts_and_matches_quote() {
    let mut fixture = TestFixture::new();
    fixture.initialize_pool();
    fixture.create_user_lp_token();
    fixture.add_liquidity(INITIAL_DEPOSIT, INITIAL_DEPOSIT, 0);

    let quote = calculate_swap_output(
        INITIAL_DEPOSIT as u128,
        INITIAL_DEPOSIT as u128,
        SWAP_AMOUNT as u128,
        AMPLIFICATION as u128,
        BASE_FEE_BPS,
        MAX_DYNAMIC_FEE_BPS,
        NORMALIZED_ONE_DOLLAR,
        NORMALIZED_ONE_DOLLAR,
        DEPEG_THRESHOLD_BPS,
    )
    .unwrap();

    assert!(fixture.swap(SWAP_AMOUNT, quote.amount_out as u64, 0, 1).is_ok());

    fixture.ledger.assert_token_balance(
        &fixture.user_token_a,
        INITIAL_MINT - INITIAL_DEPOSIT - SWAP_AMOUNT,
    );
    fixture.ledger.assert_token_balance(
        &fixture.user_token_b,
        INITIAL_MINT - INITIAL_DEPOSIT + quote.amount_out as u64,
    );
    // The fee stays in the output vault.
    fixture.ledger.assert_token_balance(&fixture.vault_a, INITIAL_DEPOSIT + SWAP_AMOUNT);
    fixture
        .ledger
        .assert_token_balance(&fixture.vault_b, INITIAL_DEPOSIT - quote.amount_out as u64);
}

#[test]
fn check_depeg_pauses_pool_and_blocks_swaps() {
    let mut fixture = TestFixture::new();
    fixture.initialize_pool();
    fixture.create_user_lp_token();
    fixture.add_liquidity(INITIAL_DEPOSIT, INITIAL_DEPOSIT, 0);

    fixture.data_b = price_account(DEPEGGED_PRICE, NOW);
    assert!(fixture.check_depeg().is_ok());

    let pool = fixture.pool_state().data;
    assert!(pool.is_paused);

    match fixture.swap(SWAP_AMOUNT, 0, 0, 1) {
        Err(Rejection::Program(e)) => assert_eq!(format!("{:?}", e), "PoolPaused"),
        other => panic!("unexpected {:?}", other),
    }
}

fn funded() -> TestFixture {
    let mut fixture = TestFixture::new();
    fixture.initialize_pool();
    fixture.create_user_lp_token();
    fixture.add_liquidity(INITIAL_DEPOSIT, INITIAL_DEPOSIT, 0);
    fixture
}

#[test]
fn swap_leaves_the_pool_worth_no_less() {
    let mut fixture = funded();
    let before = compute_d(INITIAL_DEPOSIT as u128, INITIAL_DEPOSIT as u128, 100).unwrap();
    let done = fixture.swap(SWAP_AMOUNT, 0, 1, 0).unwrap();
    assert_eq!(
        done.quote,
        SwapQuote { amount_out: 9_976_503_609, fee_amount: 22_998_855, dynamic_fee_bps: 23 }
    );
    let b = fixture.balances();
    assert_eq!(b.vault_b, INITIAL_DEPOSIT + SWAP_AMOUNT);
    assert_eq!(b.vault_a, INITIAL_DEPOSIT - 9_976_503_609);
    assert!(compute_d(b.vault_a as u128, b.vault_b as u128, 100).unwrap() >= before);
}

#[test]
fn swap_requests_name_the_accounts_by_index() {
    let fixture = funded();
    let order = SwapOrder { amount_in: 1_000, min_amount_out: 0, input_index: 1, output_index: 0 };
    let done = settle_swap(
        &program(),
        &fixture.swap_accounts(),
        &fixture.balances(),
        &fixture.readings(),
        &order,
    )
    .unwrap();
    let (_, bump) = anchor_lang::prelude::Pubkey::find_program_address(
        &[b"pool", &fixture.lp_mint.bytes],
        &outside(&program()),
    );
    assert_eq!(
        done.transfer_in,
        Transfer {
            token_program: Pubkey { bytes: TOKEN_PROGRAM },
            from: fixture.user_token_b,
            to: fixture.vault_b,
            authority: fixture.user,
            amount: 1_000,
            signer_seeds: vec![],
        }
    );
    assert_eq!(
        done.transfer_out,
        Transfer {
            token_program: Pubkey { bytes: TOKEN_PROGRAM },
            from: fixture.vault_a,
            to: fixture.user_token_a,
            authority: fixture.pool,
            amount: done.quote.amount_out as u64,
            signer_seeds: vec![b"pool".to_vec(), fixture.lp_mint.bytes.to_vec(), vec![bump]],
        }
    );
}

#[test]
fn even_deposits_earn_the_most() {
    let fixture = funded();
    let lp = |amount_a: u64, amount_b: u64| {
        settle_deposit(
            &program(),
            &fixture.liquidity_accounts(),
            &fixture.balances(),
            &fixture.readings(),
            &DepositAmounts { amount_a, amount_b, min_lp_out: 0 },
        )
        .unwrap()
        .mint_lp
        .amount
    };
    let even = lp(50 * ONE_TOKEN, 50 * ONE_TOKEN);
    assert!(lp(70 * ONE_TOKEN, 30 * ONE_TOKEN) <= even);
    assert!(lp(30 * ONE_TOKEN, 70 * ONE_TOKEN) <= even);
    assert!(lp(100 * ONE_TOKEN, 0) <= even);
    // Doubling the reserves doubles the LP tokens.
    assert_eq!(lp(INITIAL_DEPOSIT, INITIAL_DEPOSIT), fixture.balances().lp_supply);
}

#[test]
fn inflating_the_vaults_never_pays() {
    let mut fixture = TestFixture::new();
    fixture.initialize_pool();
    fixture.create_user_lp_token();
    // The smallest first deposit, then a donation to both vaults.
    fixture.add_liquidity(500, 501, 0);
    assert_eq!(fixture.balances().lp_supply, 1);
    let donation = 1_000 * ONE_TOKEN;
    for vault in [fixture.vault_a, fixture.vault_b] {
        *fixture.ledger.held.get_mut(&vault.bytes).unwrap() = donation;
    }
    // Somebody else deposits as much again.
    let held = fixture.balances().lp_supply;
    fixture.add_liquidity(donation, donation, 0);
    assert_eq!(fixture.balances().lp_supply, 2);
    // The first LP token redeems far less than was put in, and so does the second.
    let paid = settle_withdrawal(
        &program(),
        &fixture.liquidity_accounts(),
        &fixture.balances(),
        &WithdrawalAmounts { lp_amount: held, min_a: 0, min_b: 0 },
    )
    .unwrap();
    assert_eq!(paid.transfer_a.amount, 1_996_007);
    assert_eq!(paid.transfer_b.amount, 1_996_007);
    assert!(paid.transfer_a.amount < donation);
}

#[test]
fn uneven_pools_reward_deposits_towards_balance() {
    let before = compute_d(3_000_000, 1_000_000, 100).unwrap();
    let in_ratio = compute_d(3_030_000, 1_010_000, 100).unwrap() - before;
    let towards_balance = compute_d(3_000_000, 1_040_000, 100).unwrap() - before;
    assert_eq!((in_ratio, towards_balance), (39_967, 40_222));
}

#[test]
fn setup_errors() {
    let fixture = TestFixture::new();
    let good = fixture.setup_accounts();
    let set_up = |accounts: PoolSetupAccounts| set_up_pool(&program(), &accounts, &parameters());
    assert!(set_up(good).is_ok());
    assert_eq!(set_up(PoolSetupAccounts { pool: key(9), ..good }), misplaced());
    assert_eq!(
        set_up(PoolSetupAccounts { system_program: key(9), ..good }),
        rule(StableSwapError::InvalidSystemProgram)
    );
    assert_eq!(
        set_up(PoolSetupAccounts { token_program: key(9), ..good }),
        rule(StableSwapError::InvalidTokenProgram)
    );
    assert_eq!(
        set_up(PoolSetupAccounts { associated_token_program: key(9), ..good }),
        rule(StableSwapError::InvalidAssociatedTokenProgram)
    );
    assert_eq!(
        set_up(PoolSetupAccounts { vault_a: good.vault_b, vault_b: good.vault_a, ..good }),
        rule(StableSwapError::InvalidVault)
    );
    assert_eq!(
        set_up_pool(
            &program(),
            &good,
            &PoolParameters { depeg_threshold_bps: 0, ..parameters() }
        ),
        rule(StableSwapError::InvalidDepegThreshold)
    );
    assert_eq!(set_up_pool_at(&good, &parameters(), &None), misplaced());
}

#[test]
fn liquidity_account_errors() {
    let fixture = funded();
    let good = fixture.liquidity_accounts();
    let amounts = DepositAmounts { amount_a: 5_000, amount_b: 5_000, min_lp_out: 0 };
    let out = WithdrawalAmounts { lp_amount: 5_000, min_a: 0, min_b: 0 };
    let both = |accounts: LiquidityAccounts, e: Rejection<StableSwapError>| {
        let b = fixture.balances();
        let deposited =
            settle_deposit(&program(), &accounts, &b, &fixture.readings(), &amounts);
        assert_eq!(deposited.unwrap_err(), e);
        assert_eq!(settle_withdrawal(&program(), &accounts, &b, &out).unwrap_err(), e);
        assert_eq!(check_liquidity_accounts(&program(), &accounts), Some(e));
    };
    let mut moved = good;
    moved.pool.address = key(9);
    both(moved, Rejection::Account(AccountError::ConstraintSeeds));
    both(
        LiquidityAccounts { token_program: key(9), ..good },
        Rejection::Program(StableSwapError::InvalidTokenProgram),
    );
    let invalid_mint = Rejection::Program(StableSwapError::InvalidMint);
    both(LiquidityAccounts { token_mint_a: key(9), ..good }, invalid_mint);
    both(LiquidityAccounts { token_mint_b: key(9), ..good }, invalid_mint);
    both(LiquidityAccounts { lp_mint: key(9), ..good }, invalid_mint);
    let invalid_vault = Rejection::Program(StableSwapError::InvalidVault);
    both(LiquidityAccounts { vault_a: key(9), ..good }, invalid_vault);
    both(LiquidityAccounts { vault_b: key(9), ..good }, invalid_vault);
}

#[test]
fn settled_rules_refuse_like_the_pool() {
    let mut fixture = funded();
    let accounts = fixture.liquidity_accounts();
    let b = fixture.balances();
    assert_eq!(
        settle_deposit(
            &program(),
            &accounts,
            &b,
            &fixture.readings(),
            &DepositAmounts { amount_a: 0, amount_b: 0, min_lp_out: 0 }
        ),
        rule(StableSwapError::ZeroAmount)
    );
    assert_eq!(
        settle_withdrawal(
            &program(),
            &accounts,
            &b,
            &WithdrawalAmounts { lp_amount: 2_000, min_a: 1_001, min_b: 0 }
        ),
        rule(StableSwapError::SlippageExceeded)
    );
    assert_eq!(fixture.swap(5, 0, 0, 0), rule(StableSwapError::SameTokenSwap));
}

#[test]
fn swap_account_errors() {
    let fixture = funded();
    let good = fixture.swap_accounts();
    let order = SwapOrder { amount_in: 1_000, min_amount_out: 0, input_index: 0, output_index: 1 };
    let settle = |accounts: &SwapAccounts| {
        settle_swap(&program(), accounts, &fixture.balances(), &fixture.readings(), &order)
    };
    assert!(settle(&good).is_ok());
    let mut a = good.clone();
    a.pool.address = key(9);
    assert_eq!(settle(&a), misplaced());
    a = good.clone();
    a.token_program = key(9);
    assert_eq!(settle(&a), rule(StableSwapError::InvalidTokenProgram));
    a = good.clone();
    a.remaining.pop();
    assert_eq!(settle(&a), rule(StableSwapError::InvalidRemainingAccounts));
    a = good.clone();
    a.remaining.swap(0, 1);
    assert_eq!(settle(&a), rule(StableSwapError::InvalidVault));
    assert_eq!(check_swap_accounts(&program(), &good), None);
    assert_eq!(
        check_swap_accounts(&program(), &a),
        Some(Rejection::Program(StableSwapError::InvalidVault))
    );
}

#[test]
fn peg_watch_account_errors() {
    let fixture = funded();
    let good = CheckDepeg {
        pool: fixture.pool_state(),
        token_mint_a: fixture.token_mint_a,
        token_mint_b: fixture.token_mint_b,
        lp_mint: fixture.lp_mint,
    };
    let mut a = good;
    a.pool.address = key(9);
    assert_eq!(watch_peg(&program(), &mut a, &fixture.readings()), misplaced());
    a = good;
    a.lp_mint = key(9);
    // The address comes from the pool's own state, the mint from the accounts.
    assert_eq!(
        watch_peg(&program(), &mut a, &fixture.readings()),
        rule(StableSwapError::InvalidMint)
    );
    a = good;
    let mut stale = fixture.readings();
    stale.a.age_sec = 61;
    assert_eq!(
        watch_peg(&program(), &mut a, &stale),
        rule(StableSwapError::StaleOraclePrice)
    );
    assert_eq!(a, good);
}

#[test]
fn settlement_takes_derived_addresses() {
    let fixture = funded();
    let addresses = PoolAddresses { pool: (key(20), 7), vault_a: key(21), vault_b: key(22) };
    let mut accounts = fixture.liquidity_accounts();
    accounts.pool.address = key(20);
    accounts.vault_a = key(21);
    accounts.vault_b = key(22);
    let b = fixture.balances();
    let amounts = DepositAmounts { amount_a: 5_000, amount_b: 6_000, min_lp_out: 0 };
    let done =
        settle_deposit_at(&accounts, &b, &fixture.readings(), &amounts, &Some(addresses)).unwrap();
    assert_eq!((done.transfer_a.to, done.transfer_a.amount), (key(21), 5_000));
    assert_eq!((done.transfer_b.to, done.transfer_b.amount), (key(22), 6_000));
    assert_eq!(done.mint_lp.signer_seeds[2], vec![7]);
    let out = WithdrawalAmounts { lp_amount: 2_000, min_a: 0, min_b: 0 };
    let paid = settle_withdrawal_at(&accounts, &b, &out, &Some(addresses)).unwrap();
    assert_eq!((paid.transfer_a.from, paid.transfer_a.amount), (key(21), 1_000));
    assert_eq!((paid.burn_lp.from, paid.burn_lp.amount), (fixture.user_lp_token, 2_000));
    assert_eq!(settle_withdrawal_at(&accounts, &b, &out, &None), misplaced());

    let mut trade = fixture.swap_accounts();
    trade.pool.address = key(20);
    let order = SwapOrder { amount_in: 1_000, min_amount_out: 0, input_index: 0, output_index: 1 };
    assert_eq!(
        settle_swap_at(&trade, &b, &fixture.readings(), &order, &Some(addresses)),
        rule(StableSwapError::InvalidVault)
    );
    let mut watched = CheckDepeg {
        pool: accounts.pool,
        token_mint_a: fixture.token_mint_a,
        token_mint_b: fixture.token_mint_b,
        lp_mint: fixture.lp_mint,
    };
    assert!(watch_peg_at(&mut watched, &fixture.readings(), &Some(addresses)).is_ok());
}

#[test]
fn vaults_and_mints_are_those_of_the_pool() {
    let fixture = funded();
    let pool = fixture.pool_state().data;
    let addresses =
        pool_addresses(&program(), &fixture.lp_mint, &fixture.token_mint_a, &fixture.token_mint_b);
    assert_eq!(check_vaults(&fixture.vault_a, &fixture.vault_b, &addresses), None);
    assert_eq!(
        check_vaults(&fixture.vault_b, &fixture.vault_b, &addresses),
        Some(StableSwapError::InvalidVault)
    );
    assert_eq!(
        check_vaults(&fixture.vault_a, &fixture.vault_b, &None),
        Some(StableSwapError::InvalidVault)
    );
    assert_eq!(check_mints(&pool, &key(2), &key(3), &key(4)), None);
    assert_eq!(
        check_mints(&pool, &key(3), &key(2), &key(4)),
        Some(StableSwapError::InvalidMint)
    );
}

#[test]
fn price_accounts_are_read_by_their_layout() {
    let data = price_account(-5, NOW - 61);
    assert_eq!(
        read_price_account(key(5), &data, NOW),
        Ok(PriceReading { feed: key(5), price: -5, exponent: -8, age_sec: 61 })
    );
    assert_eq!(
        read_price_account(key(5), &price_account(7, NOW + 9), NOW).unwrap().age_sec,
        0
    );
    assert_eq!(
        read_price_account(key(5), &price_account(i64::MIN, i64::MIN), i64::MAX),
        Ok(PriceReading { feed: key(5), price: i64::MIN, exponent: -8, age_sec: u64::MAX })
    );
    assert!(read_price_account(key(5), &data[..240], NOW).is_ok());
    assert_eq!(
        read_price_account(key(5), &data[..239], NOW),
        Err(StableSwapError::InvalidOracleAccount)
    );
    for at in [0, 4, 8] {
        let mut other = data.clone();
        other[at] ^= 1;
        assert_eq!(
            read_price_account(key(5), &other, NOW),
            Err(StableSwapError::InvalidOracleAccount)
        );
    }
    let mut halted = data;
    halted[224] = 0;
    assert_eq!(
        read_price_account(key(5), &halted, NOW),
        Err(StableSwapError::InvalidOraclePrice)
    );
}
