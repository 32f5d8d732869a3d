//! The platform's own primitives, taken on trust: deterministic address
//! derivation, content fingerprinting, and the funding schedule for
//! indefinite record persistence.

use vstd::prelude::*;

use crate::Identity;

verus! {

/// What `Pubkey::try_find_program_address` returns for given seeds and
/// program id: a 32-byte derived address and its disambiguating bump seed,
/// a function of the inputs alone, or `None` when no bump seed yields a
/// valid address.
pub uninterp spec fn pda_of(seeds: Seq<Seq<u8>>, program_id: Seq<u8>) -> Option<(Seq<u8>, u8)>;

/// Relies on `Pubkey::try_find_program_address` (through anchor_lang's
/// solana_program re-export): the derived address and bump depend on the
/// seeds and the program id alone; `None` comes exactly when no bump seed
/// yields a valid address.
#[verifier::external_body]
pub fn derive_pda(seeds: &Vec<Vec<u8>>, program_id: &Identity) -> (r: Option<(Identity, u8)>)
    ensures
        match r {
            Some(p) => pda_of(seeds.deep_view(), program_id@) == Some((p.0@, p.1)),
            None => pda_of(seeds.deep_view(), program_id@) is None,
        },
{
    let refs: Vec<&[u8]> = seeds.iter().map(|s| s.as_slice()).collect();
    let pid = anchor_lang::solana_program::pubkey::Pubkey::new_from_array(program_id.bytes);
    anchor_lang::solana_program::pubkey::Pubkey::try_find_program_address(&refs, &pid)
        .map(|(a, b)| (Identity { bytes: a.to_bytes() }, b))
}

/// What `hash::hash` (SHA-256) returns for given bytes: a fixed-size digest
/// that depends on the bytes alone.
pub uninterp spec fn fingerprint_of(content: Seq<u8>) -> Seq<u8>;

/// Relies on `hash::hash` (through anchor_lang's solana_program re-export):
/// the SHA-256 digest of the bytes, a function of the bytes alone.
#[verifier::external_body]
pub fn content_fingerprint(content: &Vec<u8>) -> (r: [u8; 32])
    ensures
        r@ == fingerprint_of(content@),
{
    anchor_lang::solana_program::hash::hash(content.as_slice()).to_bytes()
}

/// The one-time deposit that keeps a record of the given byte size alive
/// indefinitely under the standard rent schedule: a function of the size
/// alone.
pub uninterp spec fn rent_exempt_minimum(space: nat) -> u64;

/// Relies on `Rent::default` and `Rent::minimum_balance` (through
/// anchor_lang's solana_program re-export): the minimum rent-exempt balance
/// for a record of the given byte size under the standard rent schedule.
#[verifier::external_body]
pub fn rent_minimum(space: usize) -> (r: u64)
    requires
        space <= 1_000_000_000,
    ensures
        r == rent_exempt_minimum(space as nat),
{
    anchor_lang::solana_program::rent::Rent::default().minimum_balance(space)
}

} // verus!
