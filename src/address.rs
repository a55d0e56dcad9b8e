use vstd::prelude::*;
use vstd::utf8::encode_utf8;

use crate::key::Key;

verus! {

/// The program-derived address of the seeds `[seed, owner]` under `program`,
/// or `None` where no bump seed gives an address off the curve.
pub uninterp spec fn program_address(seed: Seq<u8>, owner: Seq<u8>, program: Seq<u8>) -> Option<Seq<u8>>;

/// The address of the record that `owner` keeps under `title`.
pub open spec fn entry_address_of(program: Seq<u8>, owner: Seq<u8>, title: Seq<char>) -> Option<Seq<u8>> {
    program_address(encode_utf8(title), owner, program)
}

/// Relies on `Pubkey::try_find_program_address` of anchor_lang
/// (solana-address) with the seeds `[seed, owner]`: the result depends on its
/// arguments alone, and a seed longer than 32 bytes gives `None`.
#[verifier::external_body]
fn find_program_address(seed: &[u8], owner: &Key, program: &Key) -> (r: Option<Key>)
    ensures
        match r {
            Some(a) => program_address(seed@, owner@, program@) == Some(a@),
            None => program_address(seed@, owner@, program@) is None,
        },
        seed@.len() > 32 ==> r is None,
{
    let program = anchor_lang::prelude::Pubkey::new_from_array(program.bytes);
    anchor_lang::prelude::Pubkey::try_find_program_address(&[seed, &owner.bytes], &program)
        .map(|(a, _)| Key { bytes: a.to_bytes() })
}

/// The address of the record that `owner` keeps under `title`, for the
/// program `program`.
pub fn entry_address(program: &Key, owner: &Key, title: &String) -> (r: Option<Key>)
    ensures
        match r {
            Some(a) => entry_address_of(program@, owner@, title@) == Some(a@),
            None => entry_address_of(program@, owner@, title@) is None,
        },
{
    find_program_address(title.as_str().as_bytes(), owner, program)
}

} // verus!
