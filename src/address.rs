use vstd::prelude::*;
use vstd::utf8::encode_utf8;

use crate::key::Key;

verus! {

/// The address, and its bump byte, that the ledger derives from a list of
/// seeds under a program id; `None` where no bump byte yields one.
pub uninterp spec fn program_address(seeds: Seq<Seq<u8>>, program_id: Seq<u8>) -> Option<(Seq<u8>, u8)>;

/// Relies on `Pubkey::try_find_program_address` of the ledger's SDK (through
/// `anchor_lang`): the result depends on the seeds and the program id alone.
#[verifier::external_body]
fn find_program_address(seeds: &Vec<Vec<u8>>, program_id: &[u8; 32]) -> (r: Option<([u8; 32], u8)>)
    ensures
        match r {
            Some((a, b)) => program_address(seeds.deep_view(), program_id@) == Some((a@, b)),
            None => program_address(seeds.deep_view(), program_id@) is None,
        },
{
    let refs: Vec<&[u8]> = seeds.iter().map(|s| s.as_slice()).collect();
    let program = anchor_lang::prelude::Pubkey::new_from_array(*program_id);
    anchor_lang::prelude::Pubkey::try_find_program_address(&refs, &program).map(
        |(a, b)| (a.to_bytes(), b),
    )
}

/// The first seed of every record's address: the bytes of `"item"`.
pub open spec fn item_seed() -> Seq<u8> {
    seq![105u8, 116u8, 101u8, 109u8]
}

/// The seeds of the record that `creator` made under `name`.
pub open spec fn item_seeds(creator: Seq<u8>, name: Seq<char>) -> Seq<Seq<u8>> {
    seq![item_seed(), creator, encode_utf8(name)]
}

/// Where the record that `creator` made under `name` lives, with its bump.
pub open spec fn item_address_spec(program_id: Seq<u8>, creator: Seq<u8>, name: Seq<char>) -> Option<(Seq<u8>, u8)> {
    program_address(item_seeds(creator, name), program_id)
}

/// Derives the address of the record that `creator` made under `name`, and
/// the bump byte that makes it an address no key signs for.
pub fn item_address(program_id: &Key, creator: &Key, name: &str) -> (r: Option<(Key, u8)>)
    ensures
        match r {
            Some((a, b)) => item_address_spec(program_id@, creator@, name@) == Some((a@, b)),
            None => item_address_spec(program_id@, creator@, name@) is None,
        },
{
    let seed: Vec<u8> = vec![105u8, 116u8, 101u8, 109u8];
    let owner: Vec<u8> = vstd::slice::slice_to_vec(creator.bytes.as_slice());
    let text: Vec<u8> = vstd::slice::slice_to_vec(name.as_bytes());
    let seeds: Vec<Vec<u8>> = vec![seed, owner, text];
    proof {
        assert(seeds[0].deep_view() =~= item_seed());
        assert(seeds[1].deep_view() =~= creator@);
        assert(seeds[2].deep_view() =~= encode_utf8(name@));
        assert(seeds.deep_view() =~= item_seeds(creator@, name@));
    }
    match find_program_address(&seeds, &program_id.bytes) {
        Some((a, b)) => Some((Key { bytes: a }, b)),
        None => None,
    }
}

} // verus!
