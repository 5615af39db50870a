use anchor_lang::prelude::Pubkey;
use vionex_impact::counter_address;
use vionex_impact::record_address;

const PROGRAM_ID: [u8; 32] = [7u8; 32];

#[test]
fn record_address_matches_offline_derivation() {
    let program = Pubkey::new_from_array(PROGRAM_ID);
    let derived = record_address(3, &PROGRAM_ID).unwrap();
    let (expected, _bump) =
        Pubkey::find_program_address(&[b"impact", &3u64.to_le_bytes()], &program);
    assert_eq!(derived, expected.to_bytes().to_vec());
}

#[test]
fn counter_address_matches_offline_derivation() {
    let program = Pubkey::new_from_array(PROGRAM_ID);
    let derived = counter_address(&PROGRAM_ID).unwrap();
    let (expected, _bump) = Pubkey::find_program_address(&[b"impact_counter"], &program);
    assert_eq!(derived, expected.to_bytes().to_vec());
}

#[test]
fn record_address_is_reproducible() {
    let first = record_address(11, &PROGRAM_ID).unwrap();
    let second = record_address(11, &PROGRAM_ID).unwrap();
    assert_eq!(first, second);
    assert_eq!(first.len(), 32);
}

#[test]
fn distinct_indices_get_distinct_addresses() {
    let a0 = record_address(0, &PROGRAM_ID).unwrap();
    let a1 = record_address(1, &PROGRAM_ID).unwrap();
    let c = counter_address(&PROGRAM_ID).unwrap();
    assert_ne!(a0, a1);
    assert_ne!(a0, c);
    assert_ne!(a1, c);
}
