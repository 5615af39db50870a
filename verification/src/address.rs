//! Deterministic storage addressing.
//!
//! The counter lives at the address derived from a constant namespace tag;
//! record `i` lives at the address derived from a second tag together with
//! the little-endian bytes of `i`. Derivation is a pure function of the
//! seeds and the owning program's identifier, so any reader can recompute
//! every address offline. Distinct indices give distinct seed lists, which
//! is what keeps every record in a slot of its own.

use vstd::prelude::*;
use crate::codec::u64_le_bytes;
use crate::codec::lemma_u64_le_bytes_injective;
use crate::codec::push_u64_le;

verus! {

/// What the program-derived-address computation returns for a seed list
/// and a program identifier: 32 address bytes, or nothing in the
/// statistically improbable event that no bump seed works.
pub uninterp spec fn pda_of(seeds: Seq<Seq<u8>>, program_id: Seq<u8>) -> Option<Seq<u8>>;

/// Relies on Pubkey::try_find_program_address: the derived address and its
/// existence depend on the seed bytes and the program identifier alone,
/// and an address is 32 bytes.
#[verifier::external_body]
fn derive_pda(seeds: &Vec<Vec<u8>>, program_id: &[u8; 32]) -> (r: Option<Vec<u8>>)
    ensures
        match r {
            Some(a) => pda_of(seeds.deep_view(), program_id@) == Some(a@) && a@.len() == 32,
            None => pda_of(seeds.deep_view(), program_id@) is None,
        },
{
    let seed_slices: std::vec::Vec<&[u8]> = seeds.iter().map(|s| s.as_slice()).collect();
    let program = anchor_lang::prelude::Pubkey::new_from_array(*program_id);
    anchor_lang::prelude::Pubkey::try_find_program_address(&seed_slices, &program)
        .map(|(address, _bump)| address.to_bytes().to_vec())
}

/// The namespace tag of the counter's address: the bytes of
/// `"impact_counter"`.
pub open spec fn counter_tag_seed() -> Seq<u8> {
    seq![
        0x69u8, 0x6du8, 0x70u8, 0x61u8, 0x63u8, 0x74u8, 0x5fu8, 0x63u8, 0x6fu8, 0x75u8, 0x6eu8,
        0x74u8, 0x65u8, 0x72u8,
    ]
}

/// The namespace tag shared by all record addresses: the bytes of
/// `"impact"`.
pub open spec fn record_tag_seed() -> Seq<u8> {
    seq![0x69u8, 0x6du8, 0x70u8, 0x61u8, 0x63u8, 0x74u8]
}

/// The seed list of the counter's address.
pub open spec fn counter_seeds() -> Seq<Seq<u8>> {
    seq![counter_tag_seed()]
}

/// The seed list of record `i`'s address: the record tag, then the
/// little-endian bytes of `i`.
pub open spec fn record_seeds(i: u64) -> Seq<Seq<u8>> {
    seq![record_tag_seed(), u64_le_bytes(i)]
}

/// Build the counter tag as a byte vector.
fn counter_tag_vec() -> (v: Vec<u8>)
    ensures
        v@ == counter_tag_seed(),
{
    let mut v: Vec<u8> = Vec::new();
    v.push(0x69);
    v.push(0x6d);
    v.push(0x70);
    v.push(0x61);
    v.push(0x63);
    v.push(0x74);
    v.push(0x5f);
    v.push(0x63);
    v.push(0x6f);
    v.push(0x75);
    v.push(0x6e);
    v.push(0x74);
    v.push(0x65);
    v.push(0x72);
    assert(v@ =~= counter_tag_seed());
    v
}

/// Build the record tag as a byte vector.
fn record_tag_vec() -> (v: Vec<u8>)
    ensures
        v@ == record_tag_seed(),
{
    let mut v: Vec<u8> = Vec::new();
    v.push(0x69);
    v.push(0x6d);
    v.push(0x70);
    v.push(0x61);
    v.push(0x63);
    v.push(0x74);
    assert(v@ =~= record_tag_seed());
    v
}

/// The address of the singleton counter under the given program: a pure
/// function of the program identifier alone.
pub fn counter_address(program_id: &[u8; 32]) -> (r: Option<Vec<u8>>)
    ensures
        match r {
            Some(a) => pda_of(counter_seeds(), program_id@) == Some(a@) && a@.len() == 32,
            None => pda_of(counter_seeds(), program_id@) is None,
        },
{
    let mut seeds: Vec<Vec<u8>> = Vec::new();
    seeds.push(counter_tag_vec());
    assert(seeds.deep_view() =~~= counter_seeds());
    derive_pda(&seeds, program_id)
}

/// The address of record `i` under the given program: a pure function of
/// `i` and the program identifier, reproducible by any reader.
pub fn record_address(i: u64, program_id: &[u8; 32]) -> (r: Option<Vec<u8>>)
    ensures
        match r {
            Some(a) => pda_of(record_seeds(i), program_id@) == Some(a@) && a@.len() == 32,
            None => pda_of(record_seeds(i), program_id@) is None,
        },
{
    let mut seeds: Vec<Vec<u8>> = Vec::new();
    seeds.push(record_tag_vec());
    let mut index_bytes: Vec<u8> = Vec::new();
    push_u64_le(&mut index_bytes, i);
    seeds.push(index_bytes);
    assert(seeds.deep_view() =~~= record_seeds(i));
    derive_pda(&seeds, program_id)
}

/// Distinct record indices have distinct seed lists: no two records can
/// ever claim the same storage slot.
pub proof fn lemma_record_seeds_injective(i: u64, j: u64)
    requires
        record_seeds(i) == record_seeds(j),
    ensures
        i == j,
{
    assert(u64_le_bytes(i) == record_seeds(i)[1]);
    assert(u64_le_bytes(j) == record_seeds(j)[1]);
    lemma_u64_le_bytes_injective(i, j);
}

/// No record's seed list is the counter's: the counter and the records
/// can never collide.
pub proof fn lemma_record_seeds_not_counter(i: u64)
    ensures
        record_seeds(i) != counter_seeds(),
{
    assert(record_seeds(i).len() == 2);
    assert(counter_seeds().len() == 1);
}

} // verus!
