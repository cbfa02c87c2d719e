use vstd::prelude::*;

use crate::address::Address;
use vstd::slice::slice_to_vec;
use vstd::string::StrSliceExecFns;
use vstd::utf8::encode_utf8;
use crate::derivation::{
    create_program_address, derived_address, find_program_address, program_address, with_bump,
};

verus! {

broadcast use vstd::array::group_array_axioms;

/// The program that owns every authorization record and the delegate authority.
pub const PROGRAM_ID: Address = [
    161, 46, 64, 138, 65, 3, 162, 117, 50, 223, 13, 218, 39, 220, 147, 73,
    227, 90, 51, 169, 215, 167, 129, 179, 80, 169, 39, 198, 135, 142, 130, 52,
];

/// The one trusted backend allowed to charge subscriptions.
pub const AUTHORIZED_BACKEND: Address = [
    128, 105, 95, 227, 141, 18, 14, 150, 122, 51, 111, 84, 50, 136, 27, 153,
    15, 241, 62, 38, 100, 136, 146, 162, 195, 145, 9, 166, 89, 178, 18, 184,
];

/// Upper bound, in bytes, of a subscription identifier: the ledger's limit on
/// one derivation seed.
pub const MAX_SUBSCRIPTION_ID_LEN: usize = 32;

/// The domain tag of the delegate authority: the bytes of "delegate_pda".
pub open spec fn authority_tag() -> Seq<u8> {
    seq![100u8, 101, 108, 101, 103, 97, 116, 101, 95, 112, 100, 97]
}

/// The domain tag of an authorization record's address: the bytes of "delegate".
pub open spec fn approval_tag() -> Seq<u8> {
    seq![100u8, 101, 108, 101, 103, 97, 116, 101]
}

/// The bytes of a subscription identifier: its UTF-8 encoding.
pub open spec fn id_bytes(id: Seq<char>) -> Seq<u8> {
    encode_utf8(id)
}

/// Seeds of the delegate authority, shared by every subscription.
pub open spec fn authority_seeds() -> Seq<Seq<u8>> {
    seq![authority_tag()]
}

/// Seeds of the record held for `payer` under the subscription whose
/// identifier has the bytes `id`.
pub open spec fn approval_seeds(id: Seq<u8>, payer: Address) -> Seq<Seq<u8>> {
    seq![approval_tag(), id, payer@]
}

/// The address that the delegate authority has when reconstructed from `bump`.
pub open spec fn authority_at(bump: u8) -> Option<Seq<u8>> {
    program_address(with_bump(authority_seeds(), bump), PROGRAM_ID@)
}

fn authority_tag_bytes() -> (r: Vec<u8>)
    ensures
        r@ == authority_tag(),
{
    let r = vec![100u8, 101, 108, 101, 103, 97, 116, 101, 95, 112, 100, 97];
    assert(r@ =~= authority_tag());
    r
}

fn approval_tag_bytes() -> (r: Vec<u8>)
    ensures
        r@ == approval_tag(),
{
    let r = vec![100u8, 101, 108, 101, 103, 97, 116, 101];
    assert(r@ =~= approval_tag());
    r
}

fn authority_seed_list() -> (r: Vec<Vec<u8>>)
    ensures
        r.deep_view() == authority_seeds(),
        r@.len() == 1,
        r@[0]@ == authority_tag(),
{
    let tag = authority_tag_bytes();
    let mut r: Vec<Vec<u8>> = Vec::new();
    r.push(tag);
    assert(r@[0].deep_view() =~= authority_tag());
    assert(r.deep_view() =~= authority_seeds());
    r
}

/// Derives the delegate authority: the program's own signing identity, which
/// no key holder controls, with the bump seed that later proves it.
pub fn derive_authority() -> (r: Option<(Address, u8)>)
    ensures
        derived_address(authority_seeds(), PROGRAM_ID@) == match r {
            Some((a, b)) => Some((a@, b)),
            None => None::<(Seq<u8>, u8)>,
        },
{
    let seeds = authority_seed_list();
    find_program_address(&seeds, &PROGRAM_ID)
}

/// Rebuilds the delegate authority from the bump seed kept in a record.
pub fn authority_from_bump(bump: u8) -> (r: Option<Address>)
    ensures
        authority_at(bump) == match r {
            Some(a) => Some(a@),
            None => None::<Seq<u8>>,
        },
{
    let mut seeds = authority_seed_list();
    let mut last: Vec<u8> = Vec::new();
    last.push(bump);
    seeds.push(last);
    assert(seeds@[1].deep_view() =~= seq![bump]);
    assert(seeds@[0].deep_view() =~= authority_tag());
    assert(seeds.deep_view() =~= with_bump(authority_seeds(), bump));
    create_program_address(&seeds, &PROGRAM_ID)
}

/// Derives the address of the record of `payer` under `subscription_id`, with
/// its bump seed.
pub fn derive_approval_address(subscription_id: &String, payer: &Address) -> (r: Option<(Address, u8)>)
    ensures
        derived_address(approval_seeds(id_bytes(subscription_id@), *payer), PROGRAM_ID@) == match r {
            Some((a, b)) => Some((a@, b)),
            None => None::<(Seq<u8>, u8)>,
        },
{
    let tag = approval_tag_bytes();
    let id = subscription_id.as_str().as_bytes_vec();
    let key = slice_to_vec(payer);
    let mut seeds: Vec<Vec<u8>> = Vec::new();
    seeds.push(tag);
    seeds.push(id);
    seeds.push(key);
    assert(seeds@[0].deep_view() =~= approval_tag());
    assert(seeds@[1].deep_view() =~= id_bytes(subscription_id@));
    assert(seeds@[2].deep_view() =~= payer@);
    assert(seeds.deep_view() =~= approval_seeds(id_bytes(subscription_id@), *payer));
    find_program_address(&seeds, &PROGRAM_ID)
}

} // verus!
