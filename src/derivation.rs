use vstd::prelude::*;

use crate::address::Address;
use anchor_lang::solana_program::pubkey::Pubkey;

verus! {

/// The address that the ledger derives from `seeds` under `program`, or `None`
/// where the seeds are refused or the digest falls on the curve.
pub uninterp spec fn program_address(seeds: Seq<Seq<u8>>, program: Seq<u8>) -> Option<Seq<u8>>;

/// The seeds followed by a one-byte bump seed.
pub open spec fn with_bump(seeds: Seq<Seq<u8>>, bump: u8) -> Seq<Seq<u8>> {
    seeds.push(seq![bump])
}

/// `bump` is the highest bump seed that yields an address from `seeds`, and
/// that address is `addr`. The search starts at 255 and never tries 0.
pub open spec fn is_canonical(seeds: Seq<Seq<u8>>, program: Seq<u8>, addr: Seq<u8>, bump: u8) -> bool {
    &&& 1 <= bump
    &&& program_address(with_bump(seeds, bump), program) == Some(addr)
    &&& forall|c: u8| bump < c ==> (#[trigger] program_address(with_bump(seeds, c), program)) is None
}

/// No bump seed from 1 to 255 yields an address from `seeds`.
pub open spec fn no_viable_bump(seeds: Seq<Seq<u8>>, program: Seq<u8>) -> bool {
    forall|c: u8| 1 <= c ==> (#[trigger] program_address(with_bump(seeds, c), program)) is None
}

/// The address and canonical bump seed that `seeds` derive under `program`,
/// or `None` where no bump seed yields an address.
pub open spec fn derived_address(seeds: Seq<Seq<u8>>, program: Seq<u8>) -> Option<(Seq<u8>, u8)> {
    if exists|a: Seq<u8>, b: u8| is_canonical(seeds, program, a, b) {
        Some(choose|a: Seq<u8>, b: u8| is_canonical(seeds, program, a, b))
    } else {
        None
    }
}

/// The canonical bump seed, and with it the address, is unique.
pub proof fn lemma_canonical_unique(
    seeds: Seq<Seq<u8>>,
    program: Seq<u8>,
    a1: Seq<u8>,
    b1: u8,
    a2: Seq<u8>,
    b2: u8,
)
    requires
        is_canonical(seeds, program, a1, b1),
        is_canonical(seeds, program, a2, b2),
    ensures
        a1 == a2,
        b1 == b2,
{
    if b1 < b2 {
        assert(program_address(with_bump(seeds, b2), program) is None);
    } else if b2 < b1 {
        assert(program_address(with_bump(seeds, b1), program) is None);
    }
}

/// A derived address is rebuilt from its seeds and its bump seed.
pub proof fn lemma_derived_rebuilds(seeds: Seq<Seq<u8>>, program: Seq<u8>)
    ensures
        match derived_address(seeds, program) {
            Some((a, b)) => program_address(with_bump(seeds, b), program) == Some(a),
            None => true,
        },
{
}

/// What the search returns is exactly the derived address.
proof fn lemma_found_is_derived(seeds: Seq<Seq<u8>>, program: Seq<u8>, r: Option<(Address, u8)>)
    requires
        match r {
            Some((a, b)) => is_canonical(seeds, program, a@, b),
            None => no_viable_bump(seeds, program),
        },
    ensures
        derived_address(seeds, program) == match r {
            Some((a, b)) => Some((a@, b)),
            None => None::<(Seq<u8>, u8)>,
        },
{
    match r {
        Some((a, b)) => {
            assert(is_canonical(seeds, program, a@, b));
            let (a2, b2) = choose|a2: Seq<u8>, b2: u8| is_canonical(seeds, program, a2, b2);
            lemma_canonical_unique(seeds, program, a@, b, a2, b2);
        },
        None => {
            if exists|a: Seq<u8>, b: u8| is_canonical(seeds, program, a, b) {
                let (a2, b2) = choose|a2: Seq<u8>, b2: u8| is_canonical(seeds, program, a2, b2);
                assert(program_address(with_bump(seeds, b2), program) is None);
            }
        },
    }
}

/// Relies on `Pubkey::create_program_address`: `Ok` holds the address that the
/// seeds derive under the program, `Err` that there is none.
#[verifier::external_body]
pub(crate) fn create_program_address(seeds: &Vec<Vec<u8>>, program: &Address) -> (r: Option<Address>)
    ensures
        program_address(seeds.deep_view(), program@) == match r {
            Some(a) => Some(a@),
            None => None::<Seq<u8>>,
        },
{
    let refs: Vec<&[u8]> = seeds.iter().map(|s| s.as_slice()).collect();
    Pubkey::create_program_address(&refs, &Pubkey::new_from_array(*program)).ok().map(|a| a.to_bytes())
}

/// Relies on `Pubkey::try_find_program_address`: it appends the bump seeds 255
/// down to 1 in turn to the seeds and returns the first address that
/// `create_program_address` gives, with its bump; `None` where none does.
#[verifier::external_body]
fn search_program_address(seeds: &Vec<Vec<u8>>, program: &Address) -> (r: Option<(Address, u8)>)
    ensures
        match r {
            Some((a, b)) => is_canonical(seeds.deep_view(), program@, a@, b),
            None => no_viable_bump(seeds.deep_view(), program@),
        },
{
    let refs: Vec<&[u8]> = seeds.iter().map(|s| s.as_slice()).collect();
    Pubkey::try_find_program_address(&refs, &Pubkey::new_from_array(*program)).map(|(a, b)| (a.to_bytes(), b))
}

/// Finds the address and canonical bump seed that `seeds` derive under
/// `program`.
pub fn find_program_address(seeds: &Vec<Vec<u8>>, program: &Address) -> (r: Option<(Address, u8)>)
    ensures
        derived_address(seeds.deep_view(), program@) == match r {
            Some((a, b)) => Some((a@, b)),
            None => None::<(Seq<u8>, u8)>,
        },
{
    let r = search_program_address(seeds, program);
    proof {
        lemma_found_is_derived(seeds.deep_view(), program@, r);
    }
    r
}

} // verus!
