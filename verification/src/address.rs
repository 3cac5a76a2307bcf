//! Deterministic storage addressing.
//!
//! A record's storage address is derived from a fixed namespace tag, the
//! owner's 32-byte identity and the little-endian encoding of the task id,
//! through the program-derived-address scheme of the execution environment:
//! a one-way hash-based search that also yields a canonical disambiguation
//! byte (the "bump").  Any caller who knows the logical key can recompute
//! the address; no raw address ever needs to be stored.

use vstd::bytes::spec_u64_to_le_bytes;
use vstd::bytes::u64_to_le_bytes;
use vstd::prelude::*;

verus! {

/// The derived address and bump for given seed slices and program id, or
/// `None` when no bump seed yields a valid address.  The derivation is a
/// pure function of its arguments; its pages-long definition (a hash-based
/// search) is left unstated and supplied by the execution environment.
pub uninterp spec fn pda_of(tag: Seq<u8>, owner: Seq<u8>, task_id_le: Seq<u8>, program: Seq<u8>) -> Option<
    (Seq<u8>, u8),
>;

/// The namespace tag that prefixes every record's derivation seeds: the
/// four ASCII bytes of "todo".
pub open spec fn spec_seed_tag() -> Seq<u8> {
    seq![116u8, 111u8, 100u8, 111u8]
}

/// The 32-byte program id under which record addresses are derived.
pub open spec fn spec_program_id() -> Seq<u8> {
    seq![
        10u8,
        91u8,
        145u8,
        55u8,
        239u8,
        128u8,
        110u8,
        6u8,
        249u8,
        211u8,
        235u8,
        121u8,
        158u8,
        157u8,
        43u8,
        185u8,
        128u8,
        22u8,
        193u8,
        170u8,
        155u8,
        40u8,
        193u8,
        183u8,
        66u8,
        51u8,
        14u8,
        241u8,
        254u8,
        235u8,
        3u8,
        55u8,
    ]
}

fn seed_tag() -> (r: Vec<u8>)
    ensures
        r@ == spec_seed_tag(),
{
    let r: Vec<u8> = vec![116u8, 111u8, 100u8, 111u8];
    proof {
        assert(r@ =~= spec_seed_tag());
    }
    r
}

fn program_id_bytes() -> (r: [u8; 32])
    ensures
        r@ == spec_program_id(),
{
    let r: [u8; 32] = [
        10u8, 91u8, 145u8, 55u8, 239u8, 128u8, 110u8, 6u8, 249u8, 211u8, 235u8, 121u8, 158u8,
        157u8, 43u8, 185u8, 128u8, 22u8, 193u8, 170u8, 155u8, 40u8, 193u8, 183u8, 66u8, 51u8,
        14u8, 241u8, 254u8, 235u8, 3u8, 55u8,
    ];
    proof {
        assert(r@ =~= spec_program_id());
    }
    r
}

/// Relies on `anchor_lang::prelude::Pubkey::try_find_program_address`: the
/// returned address and bump are a deterministic function of the seed
/// slices and the program id alone, and `None` comes back only when no bump
/// seed yields a valid derived address.
#[verifier::external_body]
fn try_find_pda(tag: &[u8], owner: &[u8; 32], task_id_le: &[u8], program: &[u8; 32]) -> (r: Option<
    ([u8; 32], u8),
>)
    ensures
        r matches Some(p) ==> pda_of(tag@, owner@, task_id_le@, program@) == Some((p.0@, p.1)),
        r is None ==> pda_of(tag@, owner@, task_id_le@, program@) is None,
{
    let program_id = anchor_lang::prelude::Pubkey::new_from_array(*program);
    let seeds: [&[u8]; 3] = [tag, &owner[..], task_id_le];
    match anchor_lang::prelude::Pubkey::try_find_program_address(&seeds, &program_id) {
        Some((address, bump)) => Some((address.to_bytes(), bump)),
        None => None,
    }
}

/// Derive the storage address and canonical bump for a logical key.  The
/// result is [`pda_of`] applied to the namespace tag, the owner identity,
/// the little-endian task id and the program id: deterministic, so the same
/// key always maps to the same address and any caller can recompute it.
pub fn derive_address(owner: &[u8; 32], task_id: u64) -> (r: Option<([u8; 32], u8)>)
    ensures
        r matches Some(p) ==> pda_of(
            spec_seed_tag(),
            owner@,
            spec_u64_to_le_bytes(task_id),
            spec_program_id(),
        ) == Some((p.0@, p.1)),
        r is None ==> pda_of(
            spec_seed_tag(),
            owner@,
            spec_u64_to_le_bytes(task_id),
            spec_program_id(),
        ) is None,
{
    let tag = seed_tag();
    let task_id_le = u64_to_le_bytes(task_id);
    let program = program_id_bytes();
    try_find_pda(tag.as_slice(), owner, task_id_le.as_slice(), &program)
}

} // verus!
