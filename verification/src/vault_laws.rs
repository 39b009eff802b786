//! What holds of the collection across its instructions.

use vstd::prelude::*;

use crate::accounts::{associated_token_address, MintTo, Rejection, TOKEN_2022_PROGRAM};
use crate::keys::{canonical_address, canonical_address_is_derived, derived_address, Pubkey};
use crate::vault::{
    collection_seeds, create_outcome, fresh_collection, full_supply, initialize_outcome,
    labubu_mint_seeds, mint_outcome, total_has_room, valid_id, CreateLabubuMint, CreatedMint,
    InitializeCollection, LabubuCollection, LabubuError, MintRandom,
};

verus! {

/// How many figures are left of the given kinds together.
pub open spec fn total_left(remaining: Seq<u16>) -> nat
    decreases remaining.len(),
{
    if remaining.len() == 0 {
        0
    } else {
        total_left(remaining.drop_last()) + remaining.last() as nat
    }
}

/// Whether the books of a collection balance: no kind has more left than it began with,
/// and what is left and what was minted make up the 1206 figures there are.
pub open spec fn books_balance(collection: LabubuCollection) -> bool {
    &&& forall|i: int|
        0 <= i < 11 ==> #[trigger] collection.remaining_supply@[i] <= full_supply(i)
    &&& total_left(collection.remaining_supply@) + collection.total_minted == 1206
}

/// The outcome of [`crate::vault::mint_random`] with the addresses that it derives.
pub open spec fn mints(
    program_id: Pubkey,
    r: Result<MintTo, Rejection<LabubuError>>,
    before: MintRandom,
    after: MintRandom,
    labubu_id: u8,
) -> bool {
    mint_outcome(
        r,
        before,
        after,
        labubu_id,
        associated_token_address(before.user@, before.mint@, TOKEN_2022_PROGRAM@),
        canonical_address(collection_seeds(), program_id@),
        canonical_address(labubu_mint_seeds(labubu_id), program_id@),
    )
}

/// Changing one entry changes the sum by as much.
proof fn lemma_total_after_update(remaining: Seq<u16>, i: int, value: u16)
    requires
        0 <= i < remaining.len(),
    ensures
        total_left(remaining.update(i, value)) == total_left(remaining) - remaining[i] + value,
    decreases remaining.len(),
{
    let updated = remaining.update(i, value);
    if i == remaining.len() - 1 {
        assert(updated.drop_last() =~= remaining.drop_last());
    } else {
        assert(updated.drop_last() =~= remaining.drop_last().update(i, value));
        lemma_total_after_update(remaining.drop_last(), i, value);
    }
}

/// The kinds begin with 1206 figures together.
proof fn lemma_full_total()
    ensures
        total_left(Seq::new(11, |i: int| full_supply(i))) == 1206,
{
    let all = Seq::new(11, |i: int| full_supply(i));
    let normal = Seq::new(10, |i: int| full_supply(i));
    assert(all.drop_last() =~= normal);
    lemma_normal_total(normal, 10);
}

/// The first kinds begin with the normal supply each.
proof fn lemma_normal_total(normal: Seq<u16>, n: int)
    requires
        0 <= n <= 10,
        normal == Seq::new(n as nat, |i: int| full_supply(i)),
    ensures
        total_left(normal) == 120 * n,
    decreases n,
{
    if n > 0 {
        let fewer = Seq::new((n - 1) as nat, |i: int| full_supply(i));
        assert(normal.drop_last() =~= fewer);
        lemma_normal_total(fewer, n - 1);
    }
}

/// The books of a new collection balance.
pub proof fn new_collection_balances(
    program_id: Pubkey,
    accounts: InitializeCollection,
    collection: LabubuCollection,
)
    requires
        initialize_outcome(
            Ok(collection),
            accounts,
            canonical_address(collection_seeds(), program_id@),
        ),
    ensures
        books_balance(collection),
{
    lemma_full_total();
}

/// A collection whose books balance meets what [`crate::vault::mint_random`] asks of it.
pub proof fn balanced_books_have_room(collection: LabubuCollection, labubu_id: u8)
    requires
        books_balance(collection),
    ensures
        total_has_room(collection, labubu_id),
{
}

/// Minting, granted or refused, keeps the books balanced.
pub proof fn minting_keeps_the_books(
    program_id: Pubkey,
    r: Result<MintTo, Rejection<LabubuError>>,
    before: MintRandom,
    after: MintRandom,
    labubu_id: u8,
)
    requires
        books_balance(before.collection.data),
        mints(program_id, r, before, after, labubu_id),
    ensures
        books_balance(after.collection.data),
{
    if r is Ok {
        let remaining = before.collection.data.remaining_supply@;
        let i = labubu_id - 1;
        lemma_total_after_update(remaining, i, (remaining[i] - 1) as u16);
    }
}

/// Minting a figure takes one from its own kind and leaves the other kinds alone.
pub proof fn minting_takes_from_one_kind(
    program_id: Pubkey,
    request: MintTo,
    before: MintRandom,
    after: MintRandom,
    labubu_id: u8,
    other: u8,
)
    requires
        mints(program_id, Ok(request), before, after, labubu_id),
        valid_id(other),
    ensures
        after.collection.data.remaining_supply@[other - 1]
            == before.collection.data.remaining_supply@[other - 1] - if other == labubu_id {
            1int
        } else {
            0
        },
{
}

/// A kind that is sold out is refused and stays sold out.
pub proof fn sold_out_kind_stays_sold_out(
    program_id: Pubkey,
    r: Result<MintTo, Rejection<LabubuError>>,
    before: MintRandom,
    after: MintRandom,
    labubu_id: u8,
    sold_out: u8,
)
    requires
        valid_id(sold_out),
        before.collection.data.remaining_supply@[sold_out - 1] == 0,
        mints(program_id, r, before, after, labubu_id),
    ensures
        labubu_id == sold_out ==> r is Err,
        after.collection.data.remaining_supply@[sold_out - 1] == 0,
{
}

/// How many of the answers grant a figure of a kind.
pub open spec fn granted(
    answers: Seq<Result<MintTo, Rejection<LabubuError>>>,
    ids: Seq<u8>,
    kind: u8,
) -> nat
    decreases answers.len(),
{
    if answers.len() == 0 {
        0
    } else {
        granted(answers.drop_last(), ids.drop_last(), kind) + if answers.last() is Ok && ids.last()
            == kind {
            1nat
        } else {
            0
        }
    }
}

/// Whether `answers` are those to users who ask for figures of the kinds `ids` one after
/// the other, each from the collection that the one before left.
pub open spec fn mint_series(
    program_id: Pubkey,
    befores: Seq<MintRandom>,
    afters: Seq<MintRandom>,
    ids: Seq<u8>,
    answers: Seq<Result<MintTo, Rejection<LabubuError>>>,
) -> bool {
    &&& befores.len() == answers.len()
    &&& afters.len() == answers.len()
    &&& ids.len() == answers.len()
    &&& forall|i: int|
        0 <= i < answers.len() ==> mints(
            program_id,
            #[trigger] answers[i],
            befores[i],
            afters[i],
            ids[i],
        )
    &&& forall|i: int|
        0 < i < answers.len() ==> (#[trigger] befores[i]).collection == afters[i - 1].collection
}

/// Whoever asks and however often, no more figures of a kind are granted than there are,
/// and what is left of it is what was not granted.
pub proof fn no_kind_is_oversold(
    program_id: Pubkey,
    befores: Seq<MintRandom>,
    afters: Seq<MintRandom>,
    ids: Seq<u8>,
    answers: Seq<Result<MintTo, Rejection<LabubuError>>>,
    authority: Pubkey,
    kind: u8,
)
    requires
        answers.len() > 0,
        fresh_collection(befores.first().collection.data, authority),
        mint_series(program_id, befores, afters, ids, answers),
        valid_id(kind),
    ensures
        granted(answers, ids, kind) + afters.last().collection.data.remaining_supply@[kind - 1]
            == full_supply(kind - 1),
        granted(answers, ids, kind) <= full_supply(kind - 1),
    decreases answers.len(),
{
    let n = answers.len() - 1;
    assert(mints(program_id, answers[n], befores[n], afters[n], ids[n]));
    if n == 0 {
        assert(granted(answers.drop_last(), ids.drop_last(), kind) == 0);
        assert(befores.first() == befores[0]);
    } else {
        let earlier = answers.drop_last();
        assert forall|i: int| 0 <= i < earlier.len() implies mints(
            program_id,
            #[trigger] earlier[i],
            befores.drop_last()[i],
            afters.drop_last()[i],
            ids.drop_last()[i],
        ) by {
            assert(earlier[i] == answers[i]);
        }
        assert forall|i: int| 0 < i < earlier.len() implies (
        #[trigger] befores.drop_last()[i]).collection == afters.drop_last()[i - 1].collection by {
            assert(befores[i].collection == afters[i - 1].collection);
        }
        no_kind_is_oversold(
            program_id,
            befores.drop_last(),
            afters.drop_last(),
            ids.drop_last(),
            earlier,
            authority,
            kind,
        );
        assert(befores[n].collection == afters[n - 1].collection);
        assert(afters.drop_last().last() == afters[n - 1]);
    }
}

/// Only the collection's authority creates mints.
pub proof fn only_the_authority_creates_mints(
    program_id: Pubkey,
    r: Result<CreatedMint, Rejection<LabubuError>>,
    accounts: CreateLabubuMint,
    labubu_id: u8,
    mint_rent: u64,
)
    requires
        accounts.authority@ != accounts.collection.data.authority@,
        create_outcome(
            r,
            accounts,
            labubu_id,
            canonical_address(collection_seeds(), program_id@),
            canonical_address(labubu_mint_seeds(labubu_id), program_id@),
            mint_rent,
        ),
    ensures
        r is Err,
{
}

/// The seeds of a request to create a mint derive the account to be created, and the mint
/// answers to the collection.
pub proof fn created_mint_signs_for_itself(
    program_id: Pubkey,
    done: CreatedMint,
    accounts: CreateLabubuMint,
    labubu_id: u8,
    mint_rent: u64,
)
    requires
        create_outcome(
            Ok(done),
            accounts,
            labubu_id,
            canonical_address(collection_seeds(), program_id@),
            canonical_address(labubu_mint_seeds(labubu_id), program_id@),
            mint_rent,
        ),
    ensures
        derived_address(done.create_mint.signer_seeds.deep_view(), program_id@) == Some(
            done.create_mint.to@,
        ),
        done.initialize_mint.mint_authority@ == accounts.collection.address@,
{
    canonical_address_is_derived(labubu_mint_seeds(labubu_id), program_id@);
}

/// The seeds of a request to mint derive the authority that it names.
pub proof fn collection_signs_for_its_figures(
    program_id: Pubkey,
    request: MintTo,
    before: MintRandom,
    after: MintRandom,
    labubu_id: u8,
)
    requires
        mints(program_id, Ok(request), before, after, labubu_id),
    ensures
        derived_address(request.signer_seeds.deep_view(), program_id@) == Some(request.authority@),
{
    canonical_address_is_derived(collection_seeds(), program_id@);
}

} // verus!
