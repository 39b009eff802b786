//! What the pool's requests do to the token accounts once the token program has carried
//! them out.

use vstd::prelude::*;

use crate::accounts::{Burn, CreateMint, CreateTokenAccount, MintTo, Transfer};
use crate::keys::{canonical_address_is_derived, derived_address, Pubkey};
use crate::stableswap::curve::invariant_d;
use crate::stableswap::pool::{
    addresses_of, after_deposit, after_swap, after_withdrawal, open_at, pool_seeds, trade_of,
    Balances, Holdings, Readings,
};
use crate::stableswap::settlement::{
    deposit_of, deposit_outcome, own_addresses, payout_of, price_of, setup_outcome, swap_outcome,
    withdrawal_outcome, DepositAmounts, Deposited, LiquidityAccounts, PoolParameters, PoolSetup,
    PoolSetupAccounts, SwapAccounts, SwapOrder, Swapped, Withdrawn, WithdrawalAmounts,
};
use crate::stableswap::value_laws::swap_never_shrinks_the_invariant;

verus! {

/// What every token account holds, and how many tokens there are of every mint.
pub struct Ledger {
    pub held: Map<Seq<u8>, int>,
    pub supply: Map<Seq<u8>, int>,
}

impl Ledger {
    /// The ledger after a transfer.
    pub open spec fn transferred(self, request: Transfer) -> Ledger {
        let drawn = self.held.insert(
            request.from@,
            self.held[request.from@] - request.amount,
        );
        Ledger {
            held: drawn.insert(request.to@, drawn[request.to@] + request.amount),
            supply: self.supply,
        }
    }

    /// The ledger after tokens were minted.
    pub open spec fn minted(self, request: MintTo) -> Ledger {
        Ledger {
            held: self.held.insert(request.to@, self.held[request.to@] + request.amount),
            supply: self.supply.insert(request.mint@, self.supply[request.mint@] + request.amount),
        }
    }

    /// The ledger after tokens were burned.
    pub open spec fn burned(self, request: Burn) -> Ledger {
        Ledger {
            held: self.held.insert(request.from@, self.held[request.from@] - request.amount),
            supply: self.supply.insert(request.mint@, self.supply[request.mint@] - request.amount),
        }
    }

    /// The ledger after a mint was created.
    pub open spec fn with_mint(self, request: CreateMint) -> Ledger {
        Ledger { held: self.held, supply: self.supply.insert(request.mint@, 0) }
    }

    /// The ledger after a token account was created.
    pub open spec fn with_account(self, request: CreateTokenAccount) -> Ledger {
        Ledger { held: self.held.insert(request.address@, 0), supply: self.supply }
    }

    /// What the ledger says of a pool's vaults and LP tokens.
    pub open spec fn holdings(self, vault_a: Pubkey, vault_b: Pubkey, lp_mint: Pubkey) -> Holdings {
        Holdings {
            vault_a: self.held[vault_a@],
            vault_b: self.held[vault_b@],
            lp_supply: self.supply[lp_mint@],
        }
    }
}

/// A new pool lives at its derived address with its vaults at theirs, owns them, and begins
/// with empty vaults and no LP tokens.
pub proof fn new_pool_begins_empty(
    program_id: Pubkey,
    accounts: PoolSetupAccounts,
    parameters: PoolParameters,
    done: PoolSetup,
    ledger: Ledger,
)
    requires
        setup_outcome(
            Ok(done),
            accounts,
            parameters,
            addresses_of(
                program_id,
                accounts.parts.lp_mint,
                accounts.parts.token_mint_a,
                accounts.parts.token_mint_b,
            ),
        ),
    ensures
        ({
            let after = ledger.with_mint(done.create_lp_mint).with_account(
                done.create_vault_a,
            ).with_account(done.create_vault_b);
            &&& after.held.contains_key(accounts.vault_a@)
            &&& after.held.contains_key(accounts.vault_b@)
            &&& after.holdings(accounts.vault_a, accounts.vault_b, accounts.parts.lp_mint)
                == done.balances@
            &&& done.balances@ == (Holdings { vault_a: 0, vault_b: 0, lp_supply: 0 })
        }),
        own_addresses(program_id, done.pool.data) matches Some(own) && own.pool
            == done.pool.address@ && own.vault_a == done.create_vault_a.address@ && own.vault_b
            == done.create_vault_b.address@,
        done.create_vault_a.wallet@ == done.pool.address@,
        done.create_vault_b.wallet@ == done.pool.address@,
{
    assert(done.pool.data.token_mints@[0] == accounts.parts.token_mint_a);
    assert(done.pool.data.token_mints@[1] == accounts.parts.token_mint_b);
}

/// Whether the token accounts of a deposit or withdrawal are five different ones.
pub open spec fn liquidity_accounts_differ(accounts: LiquidityAccounts) -> bool {
    &&& accounts.vault_a@ != accounts.vault_b@
    &&& accounts.vault_a@ != accounts.user_token_a@
    &&& accounts.vault_a@ != accounts.user_token_b@
    &&& accounts.vault_a@ != accounts.user_lp_token@
    &&& accounts.vault_b@ != accounts.user_token_a@
    &&& accounts.vault_b@ != accounts.user_token_b@
    &&& accounts.vault_b@ != accounts.user_lp_token@
    &&& accounts.user_token_a@ != accounts.user_token_b@
    &&& accounts.user_token_a@ != accounts.user_lp_token@
    &&& accounts.user_token_b@ != accounts.user_lp_token@
}

/// Whether no other token account than those of a deposit or withdrawal changes.
pub open spec fn others_unchanged(
    before: Ledger,
    after: Ledger,
    accounts: LiquidityAccounts,
) -> bool {
    &&& forall|key: Seq<u8>|
        {
            &&& key != accounts.vault_a@
            &&& key != accounts.vault_b@
            &&& key != accounts.user_token_a@
            &&& key != accounts.user_token_b@
            &&& key != accounts.user_lp_token@
        } ==> #[trigger] after.held[key] == before.held[key]
    &&& forall|key: Seq<u8>|
        key != accounts.lp_mint@ ==> #[trigger] after.supply[key] == before.supply[key]
}

/// A deposit moves what was deposited from the user to the vaults, and gives the user the
/// LP tokens it earned; nothing else moves.
pub proof fn deposit_moves_the_tokens(
    program_id: Pubkey,
    accounts: LiquidityAccounts,
    balances: Balances,
    readings: Readings,
    amounts: DepositAmounts,
    done: Deposited,
    ledger: Ledger,
)
    requires
        deposit_outcome(
            Ok(done),
            accounts,
            balances,
            readings,
            amounts,
            own_addresses(program_id, accounts.pool.data),
        ),
        liquidity_accounts_differ(accounts),
        ledger.holdings(accounts.vault_a, accounts.vault_b, accounts.lp_mint) == balances@,
    ensures
        ({
            let after = ledger.transferred(done.transfer_a).transferred(done.transfer_b).minted(
                done.mint_lp,
            );
            let user_a = accounts.user_token_a@;
            let user_b = accounts.user_token_b@;
            let user_lp = accounts.user_lp_token@;
            &&& deposit_of(accounts, balances, readings, amounts) matches Ok(lp)
            &&& after.holdings(accounts.vault_a, accounts.vault_b, accounts.lp_mint)
                == after_deposit(
                balances@,
                amounts.amount_a as int,
                amounts.amount_b as int,
                lp,
            )
            &&& after.held[user_a] == ledger.held[user_a] - amounts.amount_a
            &&& after.held[user_b] == ledger.held[user_b] - amounts.amount_b
            &&& after.held[user_lp] == ledger.held[user_lp] + lp
            &&& lp >= amounts.min_lp_out
            &&& others_unchanged(ledger, after, accounts)
        }),
{
}

/// A withdrawal burns the user's LP tokens and moves what it pays out from the vaults to
/// the user; nothing else moves.
pub proof fn withdrawal_moves_the_tokens(
    program_id: Pubkey,
    accounts: LiquidityAccounts,
    balances: Balances,
    amounts: WithdrawalAmounts,
    done: Withdrawn,
    ledger: Ledger,
)
    requires
        withdrawal_outcome(
            Ok(done),
            accounts,
            balances,
            amounts,
            own_addresses(program_id, accounts.pool.data),
        ),
        liquidity_accounts_differ(accounts),
        ledger.holdings(accounts.vault_a, accounts.vault_b, accounts.lp_mint) == balances@,
    ensures
        ({
            let after = ledger.burned(done.burn_lp).transferred(done.transfer_a).transferred(
                done.transfer_b,
            );
            let user_a = accounts.user_token_a@;
            let user_b = accounts.user_token_b@;
            let user_lp = accounts.user_lp_token@;
            &&& payout_of(balances, amounts) matches Ok((a, b))
            &&& after.holdings(accounts.vault_a, accounts.vault_b, accounts.lp_mint)
                == after_withdrawal(balances@, amounts.lp_amount as int, a, b)
            &&& after.held[user_a] == ledger.held[user_a] + a
            &&& after.held[user_b] == ledger.held[user_b] + b
            &&& after.held[user_lp] == ledger.held[user_lp] - amounts.lp_amount
            &&& a >= amounts.min_a
            &&& b >= amounts.min_b
            &&& others_unchanged(ledger, after, accounts)
        }),
{
}

/// Whether the vaults and the user's token accounts of a swap are four different accounts.
pub open spec fn swap_accounts_differ(accounts: SwapAccounts) -> bool {
    forall|i: int, j: int|
        0 <= i < j < 4 ==> (#[trigger] accounts.remaining@[i])@ != (
        #[trigger] accounts.remaining@[j])@
}

/// A swap moves exactly the input from the user to its vault and exactly the net output
/// from its vault to the user, so that the fee stays in the vault; nothing else moves.
pub proof fn swap_moves_the_tokens(
    program_id: Pubkey,
    accounts: SwapAccounts,
    balances: Balances,
    readings: Readings,
    order: SwapOrder,
    done: Swapped,
    ledger: Ledger,
)
    requires
        swap_outcome(
            Ok(done),
            accounts,
            balances,
            readings,
            order,
            own_addresses(program_id, accounts.pool.data),
        ),
        swap_accounts_differ(accounts),
        ledger.holdings(
            accounts.remaining@[0],
            accounts.remaining@[1],
            accounts.pool.data.lp_mint,
        ) == balances@,
    ensures
        ({
            let after = ledger.transferred(done.transfer_in).transferred(done.transfer_out);
            let user_in = accounts.remaining@[2 + order.input_index]@;
            let user_out = accounts.remaining@[2 + order.output_index]@;
            &&& price_of(accounts, balances, readings, order) matches Ok(price)
            &&& after.holdings(
                accounts.remaining@[0],
                accounts.remaining@[1],
                accounts.pool.data.lp_mint,
            ) == after_swap(balances@, order.input_index, order.amount_in as int, price.net())
            &&& after.held[user_in] == ledger.held[user_in] - order.amount_in
            &&& after.held[user_out] == ledger.held[user_out] + price.net()
            &&& price.net() >= order.min_amount_out
            &&& forall|key: Seq<u8>|
                (forall|i: int| 0 <= i < 4 ==> key != (#[trigger] accounts.remaining@[i])@)
                    ==> #[trigger] after.held[key] == ledger.held[key]
            &&& after.supply == ledger.supply
        }),
{
    let keys = accounts.remaining@;
    assert(keys[0]@ != keys[1]@ && keys[0]@ != keys[2]@ && keys[0]@ != keys[3]@);
    assert(keys[1]@ != keys[2]@ && keys[1]@ != keys[3]@ && keys[2]@ != keys[3]@);
}

/// A swap that pays a fee leaves the pool worth no less: the invariant of what the vaults
/// hold afterwards is at least the one before.
pub proof fn swap_never_shrinks_the_pool(
    program_id: Pubkey,
    accounts: SwapAccounts,
    balances: Balances,
    readings: Readings,
    order: SwapOrder,
    done: Swapped,
)
    requires
        swap_outcome(
            Ok(done),
            accounts,
            balances,
            readings,
            order,
            own_addresses(program_id, accounts.pool.data),
        ),
        done.quote.fee_amount >= 1,
    ensures
        ({
            let amp = accounts.pool.data.amplification as int;
            let input = order.input_index;
            let after = after_swap(
                balances@,
                input,
                order.amount_in as int,
                done.transfer_out.amount as int,
            );
            let (before_in, before_out) = if input == 0 {
                (balances@.vault_a, balances@.vault_b)
            } else {
                (balances@.vault_b, balances@.vault_a)
            };
            let (after_in, after_out) = if input == 0 {
                (after.vault_a, after.vault_b)
            } else {
                (after.vault_b, after.vault_a)
            };
            &&& invariant_d(before_in, before_out, amp) matches Ok(d)
            &&& invariant_d(after_in, after_out, amp) matches Ok(grown) ==> grown >= d
        }),
{
    let prices = open_at(accounts.pool.data, readings)->Ok_0;
    swap_never_shrinks_the_invariant(
        trade_of(accounts.pool.data, balances, prices, order.amount_in, order.input_index),
    );
}

/// The seeds by which a pool signs for the LP tokens of a deposit derive the pool's address.
pub proof fn pool_signs_for_its_deposits(
    program_id: Pubkey,
    accounts: LiquidityAccounts,
    balances: Balances,
    readings: Readings,
    amounts: DepositAmounts,
    done: Deposited,
)
    requires
        deposit_outcome(
            Ok(done),
            accounts,
            balances,
            readings,
            amounts,
            own_addresses(program_id, accounts.pool.data),
        ),
    ensures
        derived_address(done.mint_lp.signer_seeds.deep_view(), program_id@) == Some(
            done.mint_lp.authority@,
        ),
{
    canonical_address_is_derived(pool_seeds(accounts.pool.data.lp_mint), program_id@);
}

/// The seeds by which a pool signs for a withdrawal derive the pool's address.
pub proof fn pool_signs_for_its_withdrawals(
    program_id: Pubkey,
    accounts: LiquidityAccounts,
    balances: Balances,
    amounts: WithdrawalAmounts,
    done: Withdrawn,
)
    requires
        withdrawal_outcome(
            Ok(done),
            accounts,
            balances,
            amounts,
            own_addresses(program_id, accounts.pool.data),
        ),
    ensures
        derived_address(done.transfer_a.signer_seeds.deep_view(), program_id@) == Some(
            done.transfer_a.authority@,
        ),
        derived_address(done.transfer_b.signer_seeds.deep_view(), program_id@) == Some(
            done.transfer_b.authority@,
        ),
{
    canonical_address_is_derived(pool_seeds(accounts.pool.data.lp_mint), program_id@);
}

/// The seeds by which a pool signs for the output of a swap derive the pool's address.
pub proof fn pool_signs_for_its_swaps(
    program_id: Pubkey,
    accounts: SwapAccounts,
    balances: Balances,
    readings: Readings,
    order: SwapOrder,
    done: Swapped,
)
    requires
        swap_outcome(
            Ok(done),
            accounts,
            balances,
            readings,
            order,
            own_addresses(program_id, accounts.pool.data),
        ),
    ensures
        derived_address(done.transfer_out.signer_seeds.deep_view(), program_id@) == Some(
            done.transfer_out.authority@,
        ),
{
    canonical_address_is_derived(pool_seeds(accounts.pool.data.lp_mint), program_id@);
}

} // verus!
