use vionex_impact::codec::COUNTER_SPACE;
use vionex_impact::codec::COUNTER_TAG;
use vionex_impact::codec::RECORD_SPACE;
use vionex_impact::codec::RECORD_TAG;
use vionex_impact::decode_counter;
use vionex_impact::decode_record;
use vionex_impact::encode_counter;
use vionex_impact::encode_record;
use vionex_impact::ErrorCode;
use vionex_impact::Impact;

fn sample() -> Impact {
    Impact {
        donor: String::from("Alice"),
        ngo: String::from("RedCross"),
        medicine: String::from("Aspirin"),
        quantity: 100,
        timestamp: 1700000000,
    }
}

#[test]
fn record_space_matches_layout() {
    assert_eq!(RECORD_SPACE, 228);
    assert_eq!(Impact::MAX_SIZE, 228);
    assert_eq!(COUNTER_SPACE, 16);
}

#[test]
fn encode_record_exact_bytes() {
    let bytes = encode_record(&sample()).unwrap();
    assert_eq!(bytes.len(), 228);
    assert_eq!(&bytes[0..8], &RECORD_TAG.to_le_bytes());
    assert_eq!(&bytes[8..12], &5u32.to_le_bytes());
    assert_eq!(&bytes[12..17], b"Alice");
    assert_eq!(&bytes[17..21], &8u32.to_le_bytes());
    assert_eq!(&bytes[21..29], b"RedCross");
    assert_eq!(&bytes[29..33], &7u32.to_le_bytes());
    assert_eq!(&bytes[33..40], b"Aspirin");
    assert_eq!(&bytes[40..48], &100u64.to_le_bytes());
    assert_eq!(&bytes[48..56], &1700000000i64.to_le_bytes());
    assert!(bytes[56..].iter().all(|&b| b == 0));
}

#[test]
fn record_round_trip() {
    let rec = sample();
    let bytes = encode_record(&rec).unwrap();
    let back = decode_record(&bytes).unwrap();
    assert_eq!(back.donor, rec.donor);
    assert_eq!(back.ngo, rec.ngo);
    assert_eq!(back.medicine, rec.medicine);
    assert_eq!(back.quantity, rec.quantity);
    assert_eq!(back.timestamp, rec.timestamp);
}

#[test]
fn record_round_trip_edge_values() {
    let rec = Impact {
        donor: "d".repeat(64),
        ngo: String::new(),
        medicine: String::from("é–✓"),
        quantity: u64::MAX,
        timestamp: i64::MIN,
    };
    let bytes = encode_record(&rec).unwrap();
    let back = decode_record(&bytes).unwrap();
    assert_eq!(back.donor, rec.donor);
    assert_eq!(back.ngo, rec.ngo);
    assert_eq!(back.medicine, rec.medicine);
    assert_eq!(back.quantity, u64::MAX);
    assert_eq!(back.timestamp, i64::MIN);
}

#[test]
fn encode_rejects_oversized_field() {
    let rec = Impact {
        donor: "d".repeat(65),
        ngo: String::from("n"),
        medicine: String::from("m"),
        quantity: 1,
        timestamp: 0,
    };
    assert_eq!(encode_record(&rec), Err(ErrorCode::EncodingTooLarge));
}

#[test]
fn decode_rejects_wrong_length() {
    let rec = sample();
    let mut bytes = encode_record(&rec).unwrap();
    bytes.pop();
    assert!(decode_record(&bytes).is_none());
}

#[test]
fn decode_rejects_wrong_tag() {
    let rec = sample();
    let mut bytes = encode_record(&rec).unwrap();
    bytes[0] ^= 0xff;
    assert!(decode_record(&bytes).is_none());
}

#[test]
fn decode_rejects_oversized_length_prefix() {
    let rec = sample();
    let mut bytes = encode_record(&rec).unwrap();
    let prefix = 65u32.to_le_bytes();
    bytes[8..12].copy_from_slice(&prefix);
    assert!(decode_record(&bytes).is_none());
}

#[test]
fn decode_rejects_nonzero_padding() {
    let rec = sample();
    let mut bytes = encode_record(&rec).unwrap();
    bytes[227] = 1;
    assert!(decode_record(&bytes).is_none());
}

#[test]
fn decode_rejects_invalid_utf8_payload() {
    let rec = sample();
    let mut bytes = encode_record(&rec).unwrap();
    // The donor payload starts at offset 12; 0xff never occurs in UTF-8.
    bytes[12] = 0xff;
    assert!(decode_record(&bytes).is_none());
}

#[test]
fn counter_round_trip_exact_bytes() {
    let bytes = encode_counter(258);
    assert_eq!(bytes.len(), 16);
    assert_eq!(&bytes[0..8], &COUNTER_TAG.to_le_bytes());
    assert_eq!(&bytes[8..16], &258u64.to_le_bytes());
    assert_eq!(decode_counter(&bytes), Some(258));
}

#[test]
fn counter_decode_rejects_wrong_tag_or_length() {
    let mut bytes = encode_counter(7);
    bytes[3] ^= 0x01;
    assert_eq!(decode_counter(&bytes), None);
    let mut bytes = encode_counter(7);
    bytes.push(0);
    assert_eq!(decode_counter(&bytes), None);
}
