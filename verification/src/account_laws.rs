//! What the rules on accounts say, in terms of the accounts and the derived addresses.

use vstd::prelude::*;

use crate::accounts::{
    associated_fault, associated_token_address, ensured_fault, AccountError, TokenAccount,
    ASSOCIATED_TOKEN_PROGRAM,
};
use crate::keys::{
    address_at, canonical_address, canonical_bump, derived_address, found_view, key_view, Pubkey,
};

verus! {

/// The address at a bump is the one derived from the seeds followed by that bump.
pub proof fn bump_is_the_last_seed(seeds: Seq<Seq<u8>>, bump: u8, program_id: Seq<u8>)
    ensures
        address_at(seeds, bump, program_id) == derived_address(seeds.push(seq![bump]), program_id),
{
}

/// The canonical address of seeds is the one at the largest bump that derives one; there is
/// none exactly if no bump above zero derives one.
pub proof fn canonical_address_has_the_largest_bump(seeds: Seq<Seq<u8>>, program_id: Seq<u8>)
    ensures
        match canonical_address(seeds, program_id) {
            Some((key, bump)) => {
                &&& bump >= 1
                &&& derived_address(seeds.push(seq![bump]), program_id) == Some(key)
                &&& forall|larger: u8|
                    larger > bump ==> derived_address(
                        #[trigger] seeds.push(seq![larger]),
                        program_id,
                    ) is None
            },
            None => forall|bump: u8|
                bump >= 1 ==> derived_address(
                    #[trigger] seeds.push(seq![bump]),
                    program_id,
                ) is None,
        },
{
    if canonical_address(seeds, program_id) is None {
        lemma_none_derives(seeds, program_id, 255);
    }
}

/// If no bump is canonical, none derives an address.
proof fn lemma_none_derives(seeds: Seq<Seq<u8>>, program_id: Seq<u8>, top: u8)
    requires
        canonical_address(seeds, program_id) is None,
        forall|bump: u8|
            bump > top ==> derived_address(#[trigger] seeds.push(seq![bump]), program_id) is None,
    ensures
        forall|bump: u8|
            bump >= 1 ==> derived_address(#[trigger] seeds.push(seq![bump]), program_id) is None,
    decreases top,
{
    if top >= 1 {
        assert(!canonical_bump(seeds, program_id, top));
        assert(derived_address(seeds.push(seq![top]), program_id) is None);
        let below = (top - 1) as u8;
        assert forall|bump: u8| bump > below implies derived_address(
            #[trigger] seeds.push(seq![bump]),
            program_id,
        ) is None by {
            assert(bump == top || bump > top);
        }
        lemma_none_derives(seeds, program_id, below);
    }
}

/// A wallet's associated token account lives at the canonical address of the wallet, the
/// token program and the mint, in this order, under the associated token program.
pub proof fn associated_account_has_its_own_seeds(
    wallet: Seq<u8>,
    mint: Seq<u8>,
    token_program: Seq<u8>,
)
    ensures
        match associated_token_address(wallet, mint, token_program) {
            Some(key) => exists|bump: u8|
                canonical_address(
                    seq![wallet, token_program, mint],
                    ASSOCIATED_TOKEN_PROGRAM@,
                ) == Some((key, bump)),
            None => canonical_address(
                seq![wallet, token_program, mint],
                ASSOCIATED_TOKEN_PROGRAM@,
            ) is None,
        },
{
    if let Some((key, bump)) = canonical_address(
        seq![wallet, token_program, mint],
        ASSOCIATED_TOKEN_PROGRAM@,
    ) {
        assert(canonical_address(seq![wallet, token_program, mint], ASSOCIATED_TOKEN_PROGRAM@)
            == Some((key, bump)));
    }
}

/// An existing token account passes exactly if it belongs to the token program and to the
/// wallet and lives at the expected address; the first of these that fails is reported.
pub proof fn existing_token_account_rules(
    account: TokenAccount,
    wallet: Seq<u8>,
    token_program: Seq<u8>,
    expected: Option<Seq<u8>>,
)
    ensures
        match associated_fault(account, wallet, token_program, expected) {
            None => {
                &&& account.token_program@ == token_program
                &&& account.owner@ == wallet
                &&& expected == Some(account.address@)
            },
            Some(AccountError::ConstraintAssociatedTokenTokenProgram) => account.token_program@
                != token_program,
            Some(AccountError::ConstraintTokenOwner) => {
                &&& account.token_program@ == token_program
                &&& account.owner@ != wallet
            },
            Some(AccountError::ConstraintAssociated) => {
                &&& account.token_program@ == token_program
                &&& account.owner@ == wallet
                &&& expected != Some(account.address@)
            },
            Some(_) => false,
        },
{
}

/// A token account that is created if needed passes exactly if it is for the mint, belongs to
/// the wallet and the token program, and lives at the expected address; the first of these
/// that fails is reported.
pub proof fn ensured_token_account_rules(
    account: TokenAccount,
    wallet: Seq<u8>,
    mint: Seq<u8>,
    token_program: Seq<u8>,
    expected: Option<Seq<u8>>,
)
    ensures
        match ensured_fault(account, wallet, mint, token_program, expected) {
            None => {
                &&& account.mint@ == mint
                &&& account.owner@ == wallet
                &&& account.token_program@ == token_program
                &&& expected == Some(account.address@)
            },
            Some(AccountError::ConstraintTokenMint) => account.mint@ != mint,
            Some(AccountError::ConstraintTokenOwner) => {
                &&& account.mint@ == mint
                &&& account.owner@ != wallet
            },
            Some(AccountError::ConstraintAssociatedTokenTokenProgram) => {
                &&& account.mint@ == mint
                &&& account.owner@ == wallet
                &&& account.token_program@ != token_program
            },
            Some(AccountError::AccountNotAssociatedTokenAccount) => {
                &&& account.mint@ == mint
                &&& account.owner@ == wallet
                &&& account.token_program@ == token_program
                &&& expected != Some(account.address@)
            },
            Some(_) => false,
        },
{
}

/// The view of a derived address is its bytes, and that of none is none.
pub proof fn derived_addresses_are_seen_by_their_bytes(key: Pubkey, bump: u8)
    ensures
        key_view(Some(key)) == Some(key.bytes@),
        key_view(None) is None,
        found_view(Some((key, bump))) == Some((key.bytes@, bump)),
        found_view(None) is None,
{
}

} // verus!
