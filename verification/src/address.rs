use crate::errors::DonationError;
use anchor_lang::solana_program::pubkey::Pubkey;
use vstd::bytes::{spec_u64_to_le_bytes, u64_to_le_bytes};
use vstd::prelude::*;
use vstd::slice::slice_to_vec;
use vstd::utf8::encode_utf8;

verus! {

/// The address of the program that owns every project and receipt.
pub const PROGRAM_ID: [u8; 32] = [
    61, 226, 249, 176, 99, 182, 113, 163, 49, 234, 244, 33, 182, 10, 186, 245,
    140, 17, 41, 193, 208, 44, 100, 128, 17, 241, 39, 235, 77, 215, 87, 50,
];

/// First seed of every project address: the bytes of "project".
pub const PROJECT_TAG: [u8; 7] = [112, 114, 111, 106, 101, 99, 116];

/// First seed of every receipt address: the bytes of "receipt".
pub const RECEIPT_TAG: [u8; 7] = [114, 101, 99, 101, 105, 112, 116];

/// A 32-byte account address.
#[derive(Clone, Copy, Debug, PartialEq, Eq, Hash)]
pub struct Address {
    pub bytes: [u8; 32],
}

impl View for Address {
    type V = Seq<u8>;

    open spec fn view(&self) -> Seq<u8> {
        self.bytes@
    }
}

/// The address and bump that the program-address search yields for `seeds`
/// under `program`, or `None` where the search finds no bump.
pub uninterp spec fn program_address(seeds: Seq<Seq<u8>>, program: Seq<u8>) -> Option<(Seq<u8>, u8)>;

/// The view of a search result.
pub open spec fn found_view(found: Option<(Address, u8)>) -> Option<(Seq<u8>, u8)> {
    match found {
        Some((address, bump)) => Some((address@, bump)),
        None => None,
    }
}

/// Calls `Pubkey::try_find_program_address`. The search is a function of the
/// seeds and the program id alone (a hash and a curve test over bump values
/// from 255 down), so its outcome is named `program_address`; nothing else is
/// claimed of it.
#[verifier::external_body]
pub(crate) fn find_program_address(seeds: &Vec<Vec<u8>>, program: &Address) -> (found: Option<(Address, u8)>)
    ensures
        found_view(found) == program_address(seeds.deep_view(), program@),
{
    let parts: Vec<&[u8]> = seeds.iter().map(|seed| seed.as_slice()).collect();
    let id = Pubkey::new_from_array(program.bytes);
    Pubkey::try_find_program_address(&parts, &id).map(|(key, bump)| (Address { bytes: key.to_bytes() }, bump))
}

impl Address {
    /// The address with the given bytes.
    pub fn new(bytes: [u8; 32]) -> (address: Address)
        ensures
            address.bytes == bytes,
    {
        Address { bytes }
    }

    /// The bytes of the address.
    pub fn to_vec(&self) -> (bytes: Vec<u8>)
        ensures
            bytes@ == self@,
    {
        slice_to_vec(self.bytes.as_slice())
    }

    /// Whether two addresses hold the same bytes.
    pub fn same(&self, other: &Address) -> (r: bool)
        ensures
            r == (self@ == other@),
            r == (*self == *other),
    {
        let mut i: usize = 0;
        while i < 32
            invariant
                i <= 32,
                forall|j: int| 0 <= j < i ==> self.bytes[j] == other.bytes[j],
            decreases 32 - i,
        {
            if self.bytes[i] != other.bytes[i] {
                assert(self@[i as int] != other@[i as int]);
                return false;
            }
            i += 1;
        }
        assert(self.bytes =~= other.bytes);
        true
    }
}

/// The program's own address.
pub fn program_id() -> (id: Address)
    ensures
        id@ == PROGRAM_ID@,
{
    Address { bytes: PROGRAM_ID }
}

/// What a caller gets in place of an address: its bytes, or the error.
pub open spec fn outcome_view(r: Result<Address, DonationError>) -> Result<Seq<u8>, DonationError> {
    match r {
        Ok(address) => Ok(address@),
        Err(e) => Err(e),
    }
}

/// The seeds of the project that `owner` names `project_id`: the tag, the
/// owner's bytes, and the identifier as stored.
pub open spec fn project_seeds(owner: Seq<u8>, project_id: Seq<char>) -> Seq<Seq<u8>> {
    seq![PROJECT_TAG@, owner, encode_utf8(project_id)]
}

/// The seeds of the receipt of a pledge by `user` to `project` under
/// `seed`: the tag, both addresses, and the seed's eight bytes, lowest first.
pub open spec fn receipt_seeds(user: Seq<u8>, project: Seq<u8>, seed: i64) -> Seq<Seq<u8>> {
    seq![RECEIPT_TAG@, user, project, spec_u64_to_le_bytes(seed as u64)]
}

/// Where the project that `owner` names `project_id` lives, with its bump.
pub open spec fn project_address(owner: Seq<u8>, project_id: Seq<char>) -> Option<(Seq<u8>, u8)> {
    program_address(project_seeds(owner, project_id), PROGRAM_ID@)
}

/// Where the receipt of a pledge by `user` to `project` under `seed` lives,
/// with its bump.
pub open spec fn receipt_address(user: Seq<u8>, project: Seq<u8>, seed: i64) -> Option<(Seq<u8>, u8)> {
    program_address(receipt_seeds(user, project, seed), PROGRAM_ID@)
}

/// A list of byte strings, seen through and through, is the list of their views.
proof fn lemma_seed_views(seeds: Vec<Vec<u8>>)
    ensures
        seeds.deep_view() == Seq::new(seeds@.len(), |i: int| seeds@[i]@),
{
    assert forall|i: int| 0 <= i < seeds@.len() implies seeds@[i].deep_view() == seeds@[i]@ by {
        assert(seeds@[i].deep_view() =~= seeds@[i]@);
    }
    assert(seeds.deep_view() =~= Seq::new(seeds@.len(), |i: int| seeds@[i]@));
}

/// The seeds of the project that `owner` names `project_id`, as bytes.
pub fn project_seed_list(owner: &Address, project_id: &String) -> (seeds: Vec<Vec<u8>>)
    ensures
        seeds.deep_view() == project_seeds(owner@, project_id@),
{
    let mut seeds: Vec<Vec<u8>> = Vec::new();
    seeds.push(slice_to_vec(PROJECT_TAG.as_slice()));
    seeds.push(owner.to_vec());
    seeds.push(slice_to_vec(project_id.as_str().as_bytes()));
    proof {
        lemma_seed_views(seeds);
        assert(seeds.deep_view() =~= project_seeds(owner@, project_id@));
    }
    seeds
}

/// The seeds of the receipt of a pledge by `user` to `project` under `seed`,
/// as bytes.
pub fn receipt_seed_list(user: &Address, project: &Address, seed: i64) -> (seeds: Vec<Vec<u8>>)
    ensures
        seeds.deep_view() == receipt_seeds(user@, project@, seed),
{
    let mut seeds: Vec<Vec<u8>> = Vec::new();
    seeds.push(slice_to_vec(RECEIPT_TAG.as_slice()));
    seeds.push(user.to_vec());
    seeds.push(project.to_vec());
    seeds.push(u64_to_le_bytes(#[verifier::truncate] (seed as u64)));
    proof {
        lemma_seed_views(seeds);
        assert(seeds.deep_view() =~= receipt_seeds(user@, project@, seed));
    }
    seeds
}

/// What a search result means to a caller: the address and bump that were
/// found, or `AddressSpaceExhausted` where none was.
pub fn resolve(found: Option<(Address, u8)>) -> (r: Result<(Address, u8), DonationError>)
    ensures
        match found {
            Some(pair) => r == Ok::<(Address, u8), DonationError>(pair),
            None => r == Err::<(Address, u8), DonationError>(DonationError::AddressSpaceExhausted),
        },
{
    match found {
        Some(pair) => Ok(pair),
        None => Err(DonationError::AddressSpaceExhausted),
    }
}

/// Derives the address that belongs to `seeds` under this program, with the
/// bump that has to be kept to derive it again.
pub fn derive(seeds: &Vec<Vec<u8>>) -> (r: Result<(Address, u8), DonationError>)
    ensures
        match r {
            Ok((address, bump)) => program_address(seeds.deep_view(), PROGRAM_ID@) == Some((address@, bump)),
            Err(e) => e == DonationError::AddressSpaceExhausted && program_address(
                seeds.deep_view(),
                PROGRAM_ID@,
            ) is None,
        },
{
    let id = program_id();
    resolve(find_program_address(seeds, &id))
}

/// Searches the address of the project that `owner` names `project_id`.
pub fn find_project_address(owner: &Address, project_id: &String) -> (found: Option<(Address, u8)>)
    ensures
        found_view(found) == project_address(owner@, project_id@),
{
    let seeds = project_seed_list(owner, project_id);
    let id = program_id();
    find_program_address(&seeds, &id)
}

/// Searches the address of the receipt of a pledge by `user` to `project`
/// under `seed`.
pub fn find_receipt_address(user: &Address, project: &Address, seed: i64) -> (found: Option<(Address, u8)>)
    ensures
        found_view(found) == receipt_address(user@, project@, seed),
{
    let seeds = receipt_seed_list(user, project, seed);
    let id = program_id();
    find_program_address(&seeds, &id)
}

} // verus!
