use vionex_impact::initialize_counter;
use vionex_impact::log_impact;
use vionex_impact::log_impact_observed;
use vionex_impact::ErrorCode;
use vionex_impact::ImpactCounter;
use vionex_impact::Ledger;

fn s(text: &str) -> String {
    String::from(text)
}

#[test]
fn initialize_starts_at_zero() {
    let mut ledger = Ledger::new();
    assert!(ledger.counter.is_none());
    let r = initialize_counter(&mut ledger);
    assert!(r.is_ok());
    assert_eq!(ledger.counter.as_ref().unwrap().count, 0);
    assert_eq!(ledger.records.len(), 0);
}

#[test]
fn initialize_twice_fails_and_does_not_reset() {
    let mut ledger = Ledger::new();
    assert!(initialize_counter(&mut ledger).is_ok());
    let r = log_impact(&mut ledger, s("Alice"), s("RedCross"), s("Aspirin"), 100, 1700000000);
    assert!(r.is_ok());
    assert_eq!(ledger.counter.as_ref().unwrap().count, 1);
    let again = initialize_counter(&mut ledger);
    assert_eq!(again, Err(ErrorCode::DuplicateAllocation));
    assert_eq!(ledger.counter.as_ref().unwrap().count, 1);
    assert_eq!(ledger.records.len(), 1);
}

#[test]
fn two_records_scenario() {
    let mut ledger = Ledger::new();
    assert!(initialize_counter(&mut ledger).is_ok());
    assert_eq!(ledger.counter.as_ref().unwrap().count, 0);

    let r1 = log_impact(&mut ledger, s("Alice"), s("RedCross"), s("Aspirin"), 100, 1700000000);
    assert!(r1.is_ok());
    assert_eq!(ledger.counter.as_ref().unwrap().count, 1);
    assert_eq!(ledger.records.len(), 1);
    assert_eq!(ledger.records[0].donor, "Alice");
    assert_eq!(ledger.records[0].ngo, "RedCross");
    assert_eq!(ledger.records[0].medicine, "Aspirin");
    assert_eq!(ledger.records[0].quantity, 100);
    assert_eq!(ledger.records[0].timestamp, 1700000000);

    let r2 = log_impact(&mut ledger, s("Bob"), s("UNICEF"), s("Bandages"), 50, 1700000100);
    assert!(r2.is_ok());
    assert_eq!(ledger.counter.as_ref().unwrap().count, 2);
    assert_eq!(ledger.records.len(), 2);
    assert_eq!(ledger.records[1].donor, "Bob");
    assert_eq!(ledger.records[1].ngo, "UNICEF");
    assert_eq!(ledger.records[1].medicine, "Bandages");
    assert_eq!(ledger.records[1].quantity, 50);
    assert_eq!(ledger.records[1].timestamp, 1700000100);
}

#[test]
fn overflow_boundary_fails_cleanly() {
    let mut ledger = Ledger {
        counter: Some(ImpactCounter { count: u64::MAX }),
        records: Vec::new(),
    };
    let r = log_impact(&mut ledger, s("Alice"), s("RedCross"), s("Aspirin"), 1, 0);
    assert_eq!(r, Err(ErrorCode::CounterOverflow));
    assert_eq!(ledger.counter.as_ref().unwrap().count, u64::MAX);
    assert_eq!(ledger.records.len(), 0);
}

#[test]
fn stale_observation_loses_the_race() {
    let mut ledger = Ledger::new();
    assert!(initialize_counter(&mut ledger).is_ok());
    // Two callers both read the counter at 0. The first creates slot 0 and
    // advances the counter; the second aims at the now occupied slot 0.
    let first = log_impact_observed(&mut ledger, 0, s("Alice"), s("RedCross"), s("Aspirin"), 100, 1);
    assert!(first.is_ok());
    let second = log_impact_observed(&mut ledger, 0, s("Bob"), s("UNICEF"), s("Bandages"), 50, 2);
    assert_eq!(second, Err(ErrorCode::DuplicateAllocation));
    // Exactly one success: the counter ended at 1, not 2, and slot 0 holds
    // the first caller's record.
    assert_eq!(ledger.counter.as_ref().unwrap().count, 1);
    assert_eq!(ledger.records.len(), 1);
    assert_eq!(ledger.records[0].donor, "Alice");
}

#[test]
fn size_boundary_64_succeeds_65_fails() {
    let mut ledger = Ledger::new();
    assert!(initialize_counter(&mut ledger).is_ok());
    let exactly_64 = "d".repeat(64);
    let r = log_impact(&mut ledger, exactly_64.clone(), s("n"), s("m"), 1, 0);
    assert!(r.is_ok());
    assert_eq!(ledger.records[0].donor, exactly_64);

    let too_long = "d".repeat(65);
    let r = log_impact(&mut ledger, too_long, s("n"), s("m"), 1, 0);
    assert_eq!(r, Err(ErrorCode::EncodingTooLarge));
    assert_eq!(ledger.counter.as_ref().unwrap().count, 1);
    assert_eq!(ledger.records.len(), 1);

    let r = log_impact(&mut ledger, s("d"), "n".repeat(65), s("m"), 1, 0);
    assert_eq!(r, Err(ErrorCode::EncodingTooLarge));
    let r = log_impact(&mut ledger, s("d"), s("n"), "m".repeat(65), 1, 0);
    assert_eq!(r, Err(ErrorCode::EncodingTooLarge));
}

#[test]
fn multibyte_text_counts_bytes_not_chars() {
    let mut ledger = Ledger::new();
    assert!(initialize_counter(&mut ledger).is_ok());
    // 33 two-byte characters encode to 66 bytes: over the 64-byte budget
    // even though only 33 characters long.
    let wide = "é".repeat(33);
    let r = log_impact(&mut ledger, wide, s("n"), s("m"), 1, 0);
    assert_eq!(r, Err(ErrorCode::EncodingTooLarge));
    // 32 of them encode to exactly 64 bytes.
    let wide = "é".repeat(32);
    let r = log_impact(&mut ledger, wide.clone(), s("n"), s("m"), 1, 0);
    assert!(r.is_ok());
    assert_eq!(ledger.records[0].donor, wide);
}

#[test]
fn counter_advance_is_checked() {
    let mut c = ImpactCounter { count: 41 };
    assert_eq!(c.advance(), Ok(41));
    assert_eq!(c.count, 42);
    let mut c = ImpactCounter { count: u64::MAX };
    assert_eq!(c.advance(), Err(ErrorCode::CounterOverflow));
    assert_eq!(c.count, u64::MAX);
}
