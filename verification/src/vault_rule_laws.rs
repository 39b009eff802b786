//! What each instruction of the collection does, in terms of its accounts and results alone.

use vstd::prelude::*;

use crate::accounts::{AccountError, MintTo, Rejection, TOKEN_2022_PROGRAM};
use crate::vault::{
    collection_seeds, create_outcome, initialize_outcome, labubu_mint_seeds, mint_outcome,
    total_has_room, CreateLabubuMint, CreatedMint, InitializeCollection, LabubuCollection,
    LabubuError, MintRandom, COLLECTION_SEED, LABUBU_MINT_SEED,
};

verus! {

/// A refusal by a rule of the program.
pub open spec fn rule<T>(e: LabubuError) -> Result<T, Rejection<LabubuError>> {
    Err(Rejection::Program(e))
}

/// A refusal of an account.
pub open spec fn refused<T>(e: AccountError) -> Result<T, Rejection<LabubuError>> {
    Err(Rejection::Account(e))
}

/// The collection is derived from the word `collection`, and the mint of a kind from the word
/// `labubu_mint` and the kind's number.
pub proof fn figures_have_their_own_seeds(labubu_id: u8)
    ensures
        collection_seeds() == seq![seq![99u8, 111, 108, 108, 101, 99, 116, 105, 111, 110]],
        labubu_mint_seeds(labubu_id) == seq![
            seq![108u8, 97, 98, 117, 98, 117, 95, 109, 105, 110, 116],
            seq![labubu_id],
        ],
{
    assert(COLLECTION_SEED@ =~= seq![99u8, 111, 108, 108, 101, 99, 116, 105, 111, 110]);
    assert(LABUBU_MINT_SEED@ =~= seq![108u8, 97, 98, 117, 98, 117, 95, 109, 105, 110, 116]);
}

/// The collection is initialized exactly if it is where it was found. The signer becomes its
/// authority, 120 figures are left of each of the first ten kinds and 6 of the last, and
/// none was minted.
pub proof fn collection_starts_with_every_figure(
    accounts: InitializeCollection,
    collection: Option<(Seq<u8>, u8)>,
    r: Result<LabubuCollection, Rejection<LabubuError>>,
)
    requires
        initialize_outcome(r, accounts, collection),
    ensures
        if collection matches Some((key, _)) && key == accounts.collection@ {
            &&& r matches Ok(state)
            &&& state.authority == accounts.authority
            &&& forall|i: int| 0 <= i < 10 ==> #[trigger] state.remaining_supply@[i] == 120
            &&& state.remaining_supply@[10] == 6
            &&& state.total_minted == 0
        } else {
            r == refused::<LabubuCollection>(AccountError::ConstraintSeeds)
        },
{
}

/// A mint is created exactly if the collection is in its place and the signer is its
/// authority, the mint is in its place, and the number is between 1 and 11; the first of
/// these that fails is reported. It is a Token-2022 mint of whole tokens that the collection
/// mints and nobody freezes.
pub proof fn creation_follows_its_accounts(
    accounts: CreateLabubuMint,
    labubu_id: u8,
    collection: Option<(Seq<u8>, u8)>,
    mint: Option<(Seq<u8>, u8)>,
    mint_rent: u64,
    r: Result<CreatedMint, Rejection<LabubuError>>,
)
    requires
        create_outcome(r, accounts, labubu_id, collection, mint, mint_rent),
    ensures
        if !(collection matches Some((key, _)) && key == accounts.collection.address@) {
            r == refused::<CreatedMint>(AccountError::ConstraintSeeds)
        } else if accounts.authority@ != accounts.collection.data.authority@ {
            r == refused::<CreatedMint>(AccountError::ConstraintHasOne)
        } else if !(mint matches Some((key, _)) && key == accounts.mint@) {
            r == refused::<CreatedMint>(AccountError::ConstraintSeeds)
        } else if labubu_id < 1 || labubu_id > 11 {
            r == rule::<CreatedMint>(LabubuError::InvalidLabubuId)
        } else {
            &&& r matches Ok(done)
            &&& mint matches Some((_, bump))
            &&& done.create_mint.from == accounts.authority
            &&& done.create_mint.to == accounts.mint
            &&& done.create_mint.lamports == mint_rent
            &&& done.create_mint.space == 82
            &&& done.create_mint.owner@ == TOKEN_2022_PROGRAM@
            &&& done.create_mint.signer_seeds.deep_view() == seq![
                seq![108u8, 97, 98, 117, 98, 117, 95, 109, 105, 110, 116],
                seq![labubu_id],
                seq![bump],
            ]
            &&& done.initialize_mint.token_program@ == TOKEN_2022_PROGRAM@
            &&& done.initialize_mint.mint == accounts.mint
            &&& done.initialize_mint.decimals == 0
            &&& done.initialize_mint.mint_authority == accounts.collection.address
            &&& done.initialize_mint.freeze_authority is None
        },
{
    figures_have_their_own_seeds(labubu_id);
    if let Some((_, bump)) = mint {
        assert(labubu_mint_seeds(labubu_id).push(seq![bump]) =~= seq![
            seq![108u8, 97, 98, 117, 98, 117, 95, 109, 105, 110, 116],
            seq![labubu_id],
            seq![bump],
        ]);
    }
}

/// Only a counter at its very limit leaves no room for another figure.
pub proof fn room_is_short_only_at_the_limit(collection: LabubuCollection, labubu_id: u8)
    ensures
        collection.total_minted < u32::MAX ==> total_has_room(collection, labubu_id),
{
}

/// A figure is minted exactly if the token account is the user's associated one for the mint,
/// collection and mint are in their places, the number is between 1 and 11, and a figure of
/// that kind is left; the first of these that fails is reported. One figure is taken from its
/// kind and counted, nothing else changes, and one token is requested for the user.
pub proof fn figure_follows_its_accounts(
    before: MintRandom,
    after: MintRandom,
    labubu_id: u8,
    token_account: Option<Seq<u8>>,
    collection: Option<(Seq<u8>, u8)>,
    mint: Option<(Seq<u8>, u8)>,
    r: Result<MintTo, Rejection<LabubuError>>,
)
    requires
        mint_outcome(r, before, after, labubu_id, token_account, collection, mint),
    ensures
        ({
            let account = before.user_token_account;
            let old = before.collection.data;
            let new = after.collection.data;
            if account.mint@ != before.mint@ {
                r == refused::<MintTo>(AccountError::ConstraintTokenMint)
            } else if account.owner@ != before.user@ {
                r == refused::<MintTo>(AccountError::ConstraintTokenOwner)
            } else if account.token_program@ != TOKEN_2022_PROGRAM@ {
                r == refused::<MintTo>(AccountError::ConstraintAssociatedTokenTokenProgram)
            } else if token_account != Some(account.address@) {
                r == refused::<MintTo>(AccountError::AccountNotAssociatedTokenAccount)
            } else if !(collection matches Some((key, _)) && key == before.collection.address@) {
                r == refused::<MintTo>(AccountError::ConstraintSeeds)
            } else if !(mint matches Some((key, _)) && key == before.mint@) {
                r == refused::<MintTo>(AccountError::ConstraintSeeds)
            } else if labubu_id < 1 || labubu_id > 11 {
                r == rule::<MintTo>(LabubuError::InvalidLabubuId)
            } else if old.remaining_supply@[labubu_id - 1] == 0 {
                r == rule::<MintTo>(LabubuError::SoldOut)
            } else {
                &&& r matches Ok(request)
                &&& collection matches Some((_, bump))
                &&& request.token_program@ == TOKEN_2022_PROGRAM@
                &&& request.mint == before.mint
                &&& request.to == account.address
                &&& request.authority == before.collection.address
                &&& request.amount == 1
                &&& request.signer_seeds.deep_view() == seq![
                    seq![99u8, 111, 108, 108, 101, 99, 116, 105, 111, 110],
                    seq![bump],
                ]
                &&& new.total_minted == old.total_minted + 1
                &&& new.remaining_supply@[labubu_id - 1] == old.remaining_supply@[labubu_id - 1] - 1
                &&& forall|i: int|
                    0 <= i < 11 && i != labubu_id - 1 ==> #[trigger] new.remaining_supply@[i]
                        == old.remaining_supply@[i]
            }
        }),
        r is Err ==> after == before,
        after.user == before.user,
        after.mint == before.mint,
        after.user_token_account == before.user_token_account,
        after.collection.address == before.collection.address,
        after.collection.data.authority == before.collection.data.authority,
{
    figures_have_their_own_seeds(labubu_id);
    if let Some((_, bump)) = collection {
        assert(collection_seeds().push(seq![bump]) =~= seq![
            seq![99u8, 111, 108, 108, 101, 99, 116, 105, 111, 110],
            seq![bump],
        ]);
    }
}

} // verus!
