//! A collection of eleven kinds of figures, each minted as a token of limited supply.

use vstd::prelude::*;

use crate::accounts::{
    associated_token_address, check_ensured, ensured_fault, get_associated_token_address,
    token_2022_program, Account, AccountError, CreateAccount, InitializeMint, MintTo, Rejection,
    TokenAccount, TOKEN_2022_PROGRAM,
};
use crate::keys::{
    at_found, bump_at, canonical_address, find_address, found_view, key_view, one_seed, two_seeds,
    with_bump, Pubkey,
};

verus! {

/// How many kinds of figures there are.
pub const TOTAL_LABUBU_TYPES: usize = 11;

/// How many figures of each normal kind there are, those with the ids 1 to 10.
pub const NORMAL_SUPPLY: u16 = 120;

/// How many figures of the rare kind there are, the one with the id 11.
pub const RARE_SUPPLY: u16 = 6;

/// The seed `collection` of the collection account.
pub const COLLECTION_SEED: [u8; 10] = [99, 111, 108, 108, 101, 99, 116, 105, 111, 110];

/// The seed `labubu_mint` of the mints.
pub const LABUBU_MINT_SEED: [u8; 11] = [108, 97, 98, 117, 98, 117, 95, 109, 105, 110, 116];

/// Bytes of a mint account without extensions.
pub const MINT_SPACE: u64 = 82;

/// The state of the collection.
#[derive(Debug, Clone, Copy, PartialEq, Eq)]
pub struct LabubuCollection {
    /// Who may create the mints.
    pub authority: Pubkey,
    /// How many figures of each kind are left.
    pub remaining_supply: [u16; 11],
    /// How many figures were minted, of all kinds.
    pub total_minted: u32,
}

/// Accounts of [`initialize_collection`].
#[derive(Debug, Clone, Copy, PartialEq, Eq)]
pub struct InitializeCollection {
    /// The future authority, who signs and pays.
    pub authority: Pubkey,
    /// The fresh collection account.
    pub collection: Pubkey,
}

/// Accounts of [`create_labubu_mint`].
#[derive(Debug, Clone, Copy, PartialEq, Eq)]
pub struct CreateLabubuMint {
    /// The signer who acts as authority, and pays.
    pub authority: Pubkey,
    pub collection: Account<LabubuCollection>,
    /// The fresh mint account.
    pub mint: Pubkey,
}

/// Accounts of [`mint_random`].
#[derive(Debug, Clone, Copy, PartialEq, Eq)]
pub struct MintRandom {
    /// The signer who gets the figure.
    pub user: Pubkey,
    pub collection: Account<LabubuCollection>,
    /// The mint of the figure's kind.
    pub mint: Pubkey,
    /// The user's token account for that mint.
    pub user_token_account: TokenAccount,
}

/// Failures of the collection's own rules.
#[derive(Debug, Clone, Copy, PartialEq, Eq, Structural)]
pub enum LabubuError {
    /// No figure of that kind is left.
    SoldOut,
    /// There is no such kind.
    InvalidLabubuId,
}

impl LabubuError {
    /// The text shown to a user for each failure.
    pub open spec fn text(self) -> Seq<char> {
        match self {
            LabubuError::SoldOut => "All Labubu sold out"@,
            LabubuError::InvalidLabubuId => "Invalid Labubu ID (must be 1-11)"@,
        }
    }

    /// The text of the failure.
    pub fn message(&self) -> (text: &'static str)
        ensures
            text@ == self.text(),
    {
        match self {
            LabubuError::SoldOut => "All Labubu sold out",
            LabubuError::InvalidLabubuId => "Invalid Labubu ID (must be 1-11)",
        }
    }
}

/// The seeds of the collection account.
pub open spec fn collection_seeds() -> Seq<Seq<u8>> {
    seq![COLLECTION_SEED@]
}

/// The seeds of the mint of a kind.
pub open spec fn labubu_mint_seeds(labubu_id: u8) -> Seq<Seq<u8>> {
    seq![LABUBU_MINT_SEED@, seq![labubu_id]]
}

/// Whether there is such a kind.
pub open spec fn valid_id(labubu_id: u8) -> bool {
    1 <= labubu_id <= 11
}

/// How many figures of a kind there are in all; `index` counts the kinds from zero.
pub open spec fn full_supply(index: int) -> u16 {
    if index < 10 {
        NORMAL_SUPPLY
    } else {
        RARE_SUPPLY
    }
}

/// A rule of the program refuses.
pub open spec fn by_rule(e: LabubuError) -> Option<Rejection<LabubuError>> {
    Some(Rejection::Program(e))
}

/// A rule on the accounts refuses.
pub open spec fn by_account(e: AccountError) -> Option<Rejection<LabubuError>> {
    Some(Rejection::Account(e))
}

/// A collection of which nothing was minted yet.
pub open spec fn fresh_collection(collection: LabubuCollection, authority: Pubkey) -> bool {
    &&& collection.authority == authority
    &&& collection.remaining_supply@ == Seq::new(11, |i: int| full_supply(i))
    &&& collection.total_minted == 0
}

/// The outcome of [`initialize_collection`], given the canonical address of the collection.
pub open spec fn initialize_outcome(
    r: Result<LabubuCollection, Rejection<LabubuError>>,
    accounts: InitializeCollection,
    collection: Option<(Seq<u8>, u8)>,
) -> bool {
    match r {
        Err(e) => {
            &&& !at_found(accounts.collection, collection)
            &&& e == Rejection::<LabubuError>::Account(AccountError::ConstraintSeeds)
        },
        Ok(state) => {
            &&& at_found(accounts.collection, collection)
            &&& fresh_collection(state, accounts.authority)
        },
    }
}

/// Initialize the collection, given the canonical address found for it.
pub fn initialize_collection_at(
    accounts: &InitializeCollection,
    collection: Option<(Pubkey, u8)>,
) -> (r: Result<LabubuCollection, Rejection<LabubuError>>)
    ensures
        initialize_outcome(r, *accounts, found_view(collection)),
{
    if bump_at(&accounts.collection, &collection).is_none() {
        return Err(Rejection::Account(AccountError::ConstraintSeeds));
    }
    let mut remaining_supply: [u16; 11] = [0; 11];
    let mut i: usize = 0;
    while i < TOTAL_LABUBU_TYPES
        invariant
            i <= 11,
            forall|j: int| 0 <= j < i ==> remaining_supply@[j] == full_supply(j),
        decreases 11 - i,
    {
        remaining_supply[i] = if i < 10 {
            NORMAL_SUPPLY
        } else {
            RARE_SUPPLY
        };
        i = i + 1;
    }
    assert(remaining_supply@ =~= Seq::new(11, |i: int| full_supply(i)));
    Ok(LabubuCollection { authority: accounts.authority, remaining_supply, total_minted: 0 })
}

/// Initialize the collection with every figure still to be minted.
pub fn initialize_collection(program_id: &Pubkey, accounts: &InitializeCollection) -> (r: Result<
    LabubuCollection,
    Rejection<LabubuError>,
>)
    ensures
        initialize_outcome(r, *accounts, canonical_address(collection_seeds(), program_id@)),
{
    let collection = find_address(&one_seed(&COLLECTION_SEED), program_id);
    initialize_collection_at(accounts, collection)
}

/// What [`create_labubu_mint`] asks of other programs.
#[derive(Debug, Clone, PartialEq, Eq)]
pub struct CreatedMint {
    /// The request that creates the mint account.
    pub create_mint: CreateAccount,
    /// The request that makes it the mint of its kind.
    pub initialize_mint: InitializeMint,
}

/// Why [`create_labubu_mint`] is refused, if it is, given the canonical addresses of the
/// collection and of the mint.
pub open spec fn create_refusal(
    accounts: CreateLabubuMint,
    labubu_id: u8,
    collection: Option<(Seq<u8>, u8)>,
    mint: Option<(Seq<u8>, u8)>,
) -> Option<Rejection<LabubuError>> {
    if !at_found(accounts.collection.address, collection) {
        by_account(AccountError::ConstraintSeeds)
    } else if accounts.collection.data.authority@ != accounts.authority@ {
        by_account(AccountError::ConstraintHasOne)
    } else if !at_found(accounts.mint, mint) {
        by_account(AccountError::ConstraintSeeds)
    } else if !valid_id(labubu_id) {
        by_rule(LabubuError::InvalidLabubuId)
    } else {
        None
    }
}

/// What the requests of [`create_labubu_mint`] say: a mint of whole tokens that only the
/// collection mints and nobody freezes.
pub open spec fn creates(
    done: CreatedMint,
    accounts: CreateLabubuMint,
    labubu_id: u8,
    bump: u8,
    mint_rent: u64,
) -> bool {
    &&& done.create_mint.from == accounts.authority
    &&& done.create_mint.to == accounts.mint
    &&& done.create_mint.lamports == mint_rent
    &&& done.create_mint.space == MINT_SPACE
    &&& done.create_mint.owner@ == TOKEN_2022_PROGRAM@
    &&& done.create_mint.signer_seeds.deep_view() == labubu_mint_seeds(labubu_id).push(seq![bump])
    &&& done.initialize_mint.token_program@ == TOKEN_2022_PROGRAM@
    &&& done.initialize_mint.mint == accounts.mint
    &&& done.initialize_mint.decimals == 0
    &&& done.initialize_mint.mint_authority == accounts.collection.address
    &&& done.initialize_mint.freeze_authority is None
}

/// The outcome of [`create_labubu_mint`], given the canonical addresses of the collection
/// and of the mint.
pub open spec fn create_outcome(
    r: Result<CreatedMint, Rejection<LabubuError>>,
    accounts: CreateLabubuMint,
    labubu_id: u8,
    collection: Option<(Seq<u8>, u8)>,
    mint: Option<(Seq<u8>, u8)>,
    mint_rent: u64,
) -> bool {
    match r {
        Err(e) => create_refusal(accounts, labubu_id, collection, mint) == Some(e),
        Ok(done) => {
            &&& create_refusal(accounts, labubu_id, collection, mint) is None
            &&& mint matches Some((_, bump))
            &&& creates(done, accounts, labubu_id, bump, mint_rent)
        },
    }
}

/// The seeds of the mint of a kind.
fn mint_seeds_of(labubu_id: u8) -> (r: Vec<Vec<u8>>)
    ensures
        r.deep_view() == labubu_mint_seeds(labubu_id),
{
    let id: [u8; 1] = [labubu_id];
    assert(id@ =~= seq![labubu_id]);
    two_seeds(&LABUBU_MINT_SEED, &id)
}

/// Create the mint of a kind, given the canonical addresses found for the collection and
/// for the mint.
pub fn create_labubu_mint_at(
    accounts: &CreateLabubuMint,
    labubu_id: u8,
    collection: Option<(Pubkey, u8)>,
    mint: Option<(Pubkey, u8)>,
    mint_rent: u64,
) -> (r: Result<CreatedMint, Rejection<LabubuError>>)
    ensures
        create_outcome(
            r,
            *accounts,
            labubu_id,
            found_view(collection),
            found_view(mint),
            mint_rent,
        ),
{
    if bump_at(&accounts.collection.address, &collection).is_none() {
        return Err(Rejection::Account(AccountError::ConstraintSeeds));
    }
    if accounts.collection.data.authority != accounts.authority {
        return Err(Rejection::Account(AccountError::ConstraintHasOne));
    }
    let bump = match bump_at(&accounts.mint, &mint) {
        Some(bump) => bump,
        None => return Err(Rejection::Account(AccountError::ConstraintSeeds)),
    };
    if !(labubu_id >= 1 && labubu_id <= 11) {
        return Err(Rejection::Program(LabubuError::InvalidLabubuId));
    }
    Ok(
        CreatedMint {
            create_mint: CreateAccount {
                from: accounts.authority,
                to: accounts.mint,
                lamports: mint_rent,
                space: MINT_SPACE,
                owner: token_2022_program(),
                signer_seeds: with_bump(mint_seeds_of(labubu_id), bump),
            },
            initialize_mint: InitializeMint {
                token_program: token_2022_program(),
                mint: accounts.mint,
                decimals: 0,
                mint_authority: accounts.collection.address,
                freeze_authority: None,
            },
        },
    )
}

/// Create the token mint of one kind of figure.
///
/// Only the collection's authority can do this. `mint_rent` is the balance that keeps
/// the mint account alive.
pub fn create_labubu_mint(
    program_id: &Pubkey,
    accounts: &CreateLabubuMint,
    labubu_id: u8,
    mint_rent: u64,
) -> (r: Result<CreatedMint, Rejection<LabubuError>>)
    ensures
        create_outcome(
            r,
            *accounts,
            labubu_id,
            canonical_address(collection_seeds(), program_id@),
            canonical_address(labubu_mint_seeds(labubu_id), program_id@),
            mint_rent,
        ),
{
    let collection = find_address(&one_seed(&COLLECTION_SEED), program_id);
    let mint = find_address(&mint_seeds_of(labubu_id), program_id);
    create_labubu_mint_at(accounts, labubu_id, collection, mint, mint_rent)
}

/// Why [`mint_random`] is refused, if it is, given the address of the user's token account
/// and the canonical addresses of the collection and of the mint.
pub open spec fn mint_refusal(
    accounts: MintRandom,
    labubu_id: u8,
    token_account: Option<Seq<u8>>,
    collection: Option<(Seq<u8>, u8)>,
    mint: Option<(Seq<u8>, u8)>,
) -> Option<Rejection<LabubuError>> {
    if let Some(e) = ensured_fault(
        accounts.user_token_account,
        accounts.user@,
        accounts.mint@,
        TOKEN_2022_PROGRAM@,
        token_account,
    ) {
        by_account(e)
    } else if !at_found(accounts.collection.address, collection) {
        by_account(AccountError::ConstraintSeeds)
    } else if !at_found(accounts.mint, mint) {
        by_account(AccountError::ConstraintSeeds)
    } else if !valid_id(labubu_id) {
        by_rule(LabubuError::InvalidLabubuId)
    } else if accounts.collection.data.remaining_supply@[labubu_id - 1] == 0 {
        by_rule(LabubuError::SoldOut)
    } else {
        None
    }
}

/// A collection before and after one figure of a kind was minted.
pub open spec fn minted_one(
    before: LabubuCollection,
    after: LabubuCollection,
    labubu_id: u8,
) -> bool {
    &&& after.authority == before.authority
    &&& after.remaining_supply@ == before.remaining_supply@.update(
        labubu_id - 1,
        (before.remaining_supply@[labubu_id - 1] - 1) as u16,
    )
    &&& after.total_minted == before.total_minted + 1
}

/// The outcome of [`mint_random`], given the address of the user's token account and the
/// canonical addresses of the collection and of the mint.
pub open spec fn mint_outcome(
    r: Result<MintTo, Rejection<LabubuError>>,
    before: MintRandom,
    after: MintRandom,
    labubu_id: u8,
    token_account: Option<Seq<u8>>,
    collection: Option<(Seq<u8>, u8)>,
    mint: Option<(Seq<u8>, u8)>,
) -> bool {
    match r {
        Err(e) => {
            &&& mint_refusal(before, labubu_id, token_account, collection, mint) == Some(e)
            &&& after == before
        },
        Ok(request) => {
            &&& mint_refusal(before, labubu_id, token_account, collection, mint) is None
            &&& minted_one(before.collection.data, after.collection.data, labubu_id)
            &&& after.collection.address == before.collection.address
            &&& after == (MintRandom { collection: after.collection, ..before })
            &&& request.token_program@ == TOKEN_2022_PROGRAM@
            &&& request.mint == before.mint
            &&& request.to == before.user_token_account.address
            &&& request.authority == before.collection.address
            &&& request.amount == 1
            &&& collection matches Some((_, bump))
            &&& request.signer_seeds.deep_view() == collection_seeds().push(seq![bump])
        },
    }
}

/// Whether the minted total can still count one more figure, if one of that kind is left.
pub open spec fn total_has_room(collection: LabubuCollection, labubu_id: u8) -> bool {
    valid_id(labubu_id) && collection.remaining_supply@[labubu_id - 1] > 0
        ==> collection.total_minted < u32::MAX
}

/// Mint a figure, given the address derived for the user's token account and the canonical
/// addresses found for the collection and for the mint.
pub fn mint_random_at(
    accounts: &mut MintRandom,
    labubu_id: u8,
    token_account: Option<Pubkey>,
    collection: Option<(Pubkey, u8)>,
    mint: Option<(Pubkey, u8)>,
) -> (r: Result<MintTo, Rejection<LabubuError>>)
    requires
        total_has_room(old(accounts).collection.data, labubu_id),
    ensures
        mint_outcome(
            r,
            *old(accounts),
            *final(accounts),
            labubu_id,
            key_view(token_account),
            found_view(collection),
            found_view(mint),
        ),
{
    if let Some(e) = check_ensured(
        &accounts.user_token_account,
        &accounts.user,
        &accounts.mint,
        &token_2022_program(),
        &token_account,
    ) {
        return Err(Rejection::Account(e));
    }
    let bump = match bump_at(&accounts.collection.address, &collection) {
        Some(bump) => bump,
        None => return Err(Rejection::Account(AccountError::ConstraintSeeds)),
    };
    if bump_at(&accounts.mint, &mint).is_none() {
        return Err(Rejection::Account(AccountError::ConstraintSeeds));
    }
    if !(labubu_id >= 1 && labubu_id <= 11) {
        return Err(Rejection::Program(LabubuError::InvalidLabubuId));
    }
    let index = (labubu_id - 1) as usize;
    if !(accounts.collection.data.remaining_supply[index] > 0) {
        return Err(Rejection::Program(LabubuError::SoldOut));
    }
    let left: u16 = accounts.collection.data.remaining_supply[index] - 1;
    accounts.collection.data.remaining_supply[index] = left;
    accounts.collection.data.total_minted = accounts.collection.data.total_minted + 1;
    Ok(
        MintTo {
            token_program: token_2022_program(),
            mint: accounts.mint,
            to: accounts.user_token_account.address,
            authority: accounts.collection.address,
            amount: 1,
            signer_seeds: with_bump(one_seed(&COLLECTION_SEED), bump),
        },
    )
}

/// Mint a figure of one kind to a user.
///
/// Anyone can do this while figures of that kind are left. The returned request does the
/// minting.
pub fn mint_random(program_id: &Pubkey, accounts: &mut MintRandom, labubu_id: u8) -> (r: Result<
    MintTo,
    Rejection<LabubuError>,
>)
    requires
        total_has_room(old(accounts).collection.data, labubu_id),
    ensures
        mint_outcome(
            r,
            *old(accounts),
            *final(accounts),
            labubu_id,
            associated_token_address(old(accounts).user@, old(accounts).mint@, TOKEN_2022_PROGRAM@),
            canonical_address(collection_seeds(), program_id@),
            canonical_address(labubu_mint_seeds(labubu_id), program_id@),
        ),
{
    let token_account = get_associated_token_address(
        &accounts.user,
        &accounts.mint,
        &token_2022_program(),
    );
    let collection = find_address(&one_seed(&COLLECTION_SEED), program_id);
    let mint = find_address(&mint_seeds_of(labubu_id), program_id);
    mint_random_at(accounts, labubu_id, token_account, collection, mint)
}

} // verus!
