//! Account addresses and the addresses that a program derives from seeds.

use vstd::prelude::*;

verus! {

/// The address of an account.
#[derive(Debug, Clone, Copy, Eq)]
pub struct Pubkey {
    pub bytes: [u8; 32],
}

impl View for Pubkey {
    type V = Seq<u8>;

    open spec fn view(&self) -> Seq<u8> {
        self.bytes@
    }
}

impl PartialEq for Pubkey {
    fn eq(&self, other: &Self) -> (r: bool) {
        let mut i: usize = 0;
        while i < 32
            invariant
                i <= 32,
                forall|j: int| 0 <= j < i ==> self.bytes@[j] == other.bytes@[j],
            decreases 32 - i,
        {
            if self.bytes[i] != other.bytes[i] {
                return false;
            }
            i = i + 1;
        }
        assert(self.bytes@ =~= other.bytes@);
        true
    }
}

impl vstd::std_specs::cmp::PartialEqSpecImpl for Pubkey {
    open spec fn obeys_eq_spec() -> bool {
        true
    }

    open spec fn eq_spec(&self, other: &Self) -> bool {
        self@ == other@
    }
}

/// The bytes of a derived address, if there is one.
pub open spec fn key_view(key: Option<Pubkey>) -> Option<Seq<u8>> {
    match key {
        Some(key) => Some(key@),
        None => None,
    }
}

/// The bytes of a derived address and its bump, if there is one.
pub open spec fn found_view(found: Option<(Pubkey, u8)>) -> Option<(Seq<u8>, u8)> {
    match found {
        Some((key, bump)) => Some((key@, bump)),
        None => None,
    }
}

/// The address that `program_id` derives from `seeds`, if they derive one: a hash of the
/// seeds and the program that lies off the signature curve.
pub uninterp spec fn derived_address(seeds: Seq<Seq<u8>>, program_id: Seq<u8>) -> Option<Seq<u8>>;

/// Whether there are no more seeds, and none longer, than an address can be derived from.
pub open spec fn seeds_within_limits(seeds: Seq<Seq<u8>>) -> bool {
    seeds.len() <= 16 && forall|i: int| 0 <= i < seeds.len() ==> (#[trigger] seeds[i]).len() <= 32
}

/// Derive a program address from seeds whose last one is the bump seed.
///
/// Calls `Pubkey::create_program_address`, which refuses more than 16 seeds or a seed of
/// more than 32 bytes, hashes the seeds with the program's address, and refuses a hash on
/// the signature curve. The contract names what it derives; which hashes lie on the curve
/// is left unsaid.
#[verifier::external_body]
pub(crate) fn create_program_address(seeds: &Vec<Vec<u8>>, program_id: &Pubkey) -> (r: Option<
    Pubkey,
>)
    ensures
        key_view(r) == derived_address(seeds.deep_view(), program_id@),
        r is Some ==> seeds_within_limits(seeds.deep_view()),
{
    let parts: Vec<&[u8]> = seeds.iter().map(|seed| seed.as_slice()).collect();
    let program = anchor_lang::prelude::Pubkey::new_from_array(program_id.bytes);
    match anchor_lang::prelude::Pubkey::create_program_address(&parts, &program) {
        Ok(key) => Some(Pubkey { bytes: key.to_bytes() }),
        Err(_) => None,
    }
}

/// Whether `bump` is the canonical bump of `seeds`: the largest one, and not zero, that
/// derives an address.
pub open spec fn canonical_bump(seeds: Seq<Seq<u8>>, program_id: Seq<u8>, bump: u8) -> bool {
    &&& bump >= 1
    &&& derived_address(seeds.push(seq![bump]), program_id) is Some
    &&& forall|larger: u8|
        larger > bump ==> derived_address(#[trigger] seeds.push(seq![larger]), program_id) is None
}

/// Find a program address and its canonical bump seed.
///
/// Calls `Pubkey::try_find_program_address`, which tries the bump seeds from 255 down to
/// one and returns the first derived address with its bump, or nothing if none derives one;
/// the limits on seeds count the bump seed in.
#[verifier::external_body]
pub(crate) fn find_program_address(seeds: &Vec<Vec<u8>>, program_id: &Pubkey) -> (r: Option<
    (Pubkey, u8),
>)
    ensures
        match r {
            Some((key, bump)) => {
                &&& canonical_bump(seeds.deep_view(), program_id@, bump)
                &&& derived_address(seeds.deep_view().push(seq![bump]), program_id@) == Some(key@)
                &&& seeds_within_limits(seeds.deep_view().push(seq![bump]))
            },
            None => forall|bump: u8|
                bump >= 1 ==> derived_address(
                    #[trigger] seeds.deep_view().push(seq![bump]),
                    program_id@,
                ) is None,
        },
{
    let parts: Vec<&[u8]> = seeds.iter().map(|seed| seed.as_slice()).collect();
    let program = anchor_lang::prelude::Pubkey::new_from_array(program_id.bytes);
    match anchor_lang::prelude::Pubkey::try_find_program_address(&parts, &program) {
        Some((key, bump)) => Some((Pubkey { bytes: key.to_bytes() }, bump)),
        None => None,
    }
}

/// The address that `seeds` derive under their canonical bump, with that bump.
pub open spec fn canonical_address(seeds: Seq<Seq<u8>>, program_id: Seq<u8>) -> Option<
    (Seq<u8>, u8),
> {
    if exists|bump: u8| canonical_bump(seeds, program_id, bump) {
        let bump = choose|bump: u8| canonical_bump(seeds, program_id, bump);
        Some((derived_address(seeds.push(seq![bump]), program_id)->0, bump))
    } else {
        None
    }
}

/// Seeds have at most one canonical bump.
pub proof fn canonical_bump_is_unique(seeds: Seq<Seq<u8>>, program_id: Seq<u8>, a: u8, b: u8)
    requires
        canonical_bump(seeds, program_id, a),
        canonical_bump(seeds, program_id, b),
    ensures
        a == b,
{
    assert(seeds.push(seq![a]) == seeds.push(seq![a]));
    assert(seeds.push(seq![b]) == seeds.push(seq![b]));
}

/// Find the canonical address of `seeds` and its bump seed.
pub fn find_address(seeds: &Vec<Vec<u8>>, program_id: &Pubkey) -> (r: Option<(Pubkey, u8)>)
    ensures
        found_view(r) == canonical_address(seeds.deep_view(), program_id@),
        r matches Some((_, bump)) ==> seeds_within_limits(seeds.deep_view().push(seq![bump])),
{
    let found = find_program_address(seeds, program_id);
    proof {
        let views = seeds.deep_view();
        match found {
            Some((key, bump)) => {
                let chosen = choose|b: u8| canonical_bump(views, program_id@, b);
                canonical_bump_is_unique(views, program_id@, chosen, bump);
            },
            None => {
                assert forall|b: u8| !canonical_bump(views, program_id@, b) by {
                    assert(views.push(seq![b]) == views.push(seq![b]));
                }
            },
        }
    }
    found
}

/// The address that `seeds` and `bump` derive, if they derive one.
pub open spec fn address_at(seeds: Seq<Seq<u8>>, bump: u8, program_id: Seq<u8>) -> Option<Seq<u8>> {
    derived_address(seeds.push(seq![bump]), program_id)
}

/// The canonical address of `seeds` is the one that its bump derives.
pub proof fn canonical_address_is_derived(seeds: Seq<Seq<u8>>, program_id: Seq<u8>)
    ensures
        canonical_address(seeds, program_id) matches Some((key, bump)) ==> address_at(
            seeds,
            bump,
            program_id,
        ) == Some(key),
{
}

/// Derive the address of `seeds` and `bump`.
pub fn derive_at(seeds: Vec<Vec<u8>>, bump: u8, program_id: &Pubkey) -> (r: Option<Pubkey>)
    ensures
        key_view(r) == address_at(seeds.deep_view(), bump, program_id@),
        r is Some ==> seeds_within_limits(seeds.deep_view().push(seq![bump])),
{
    create_program_address(&with_bump(seeds, bump), program_id)
}

/// Check that an account lives at the expected address.
pub fn lives_at(address: &Pubkey, expected: &Option<Pubkey>) -> (r: bool)
    ensures
        r == (key_view(*expected) == Some(address@)),
{
    match expected {
        Some(key) => *address == *key,
        None => false,
    }
}

/// Whether an account lives at the canonical address that was found for it.
pub open spec fn at_found(address: Pubkey, found: Option<(Seq<u8>, u8)>) -> bool {
    found matches Some((key, _)) && key == address@
}

/// The bump of the canonical address that was found, if the account lives there.
pub fn bump_at(address: &Pubkey, found: &Option<(Pubkey, u8)>) -> (r: Option<u8>)
    ensures
        match r {
            Some(bump) => found_view(*found) == Some((address@, bump)),
            None => !at_found(*address, found_view(*found)),
        },
{
    match found {
        Some((key, bump)) => {
            if *key == *address {
                Some(*bump)
            } else {
                None
            }
        },
        None => None,
    }
}

/// Append a bump seed.
pub(crate) fn with_bump(seeds: Vec<Vec<u8>>, bump: u8) -> (r: Vec<Vec<u8>>)
    ensures
        r.deep_view() == seeds.deep_view().push(seq![bump]),
{
    let mut bumped = seeds;
    let mut tail: Vec<u8> = Vec::new();
    tail.push(bump);
    assert(tail@ =~= seq![bump]);
    bumped.push(tail);
    assert(bumped.deep_view() =~= seeds.deep_view().push(seq![bump])) by {
        assert(tail.deep_view() =~= tail@);
    }
    bumped
}

/// A single seed.
pub(crate) fn one_seed(first: &[u8]) -> (r: Vec<Vec<u8>>)
    ensures
        r.deep_view() == seq![first@],
{
    let mut seeds: Vec<Vec<u8>> = Vec::new();
    let part = vstd::slice::slice_to_vec(first);
    assert(part.deep_view() =~= part@);
    seeds.push(part);
    assert(seeds.deep_view() =~= seq![first@]);
    seeds
}

/// Two seeds.
pub(crate) fn two_seeds(first: &[u8], second: &[u8]) -> (r: Vec<Vec<u8>>)
    ensures
        r.deep_view() == seq![first@, second@],
{
    let mut seeds = one_seed(first);
    let ghost before = seeds.deep_view();
    let part = vstd::slice::slice_to_vec(second);
    assert(part.deep_view() =~= part@);
    seeds.push(part);
    assert(seeds.deep_view() =~= before.push(second@));
    assert(before.push(second@) =~= seq![first@, second@]);
    seeds
}

} // verus!
