use bloodchain_program::error::HistoryError;
use bloodchain_program::record::{Donation, RECORD_LEN};

fn name_bytes(name: &str) -> [u8; 32] {
    let mut out = [0u8; 32];
    let src = name.as_bytes();
    out[..src.len()].copy_from_slice(src);
    out
}

fn blood_bytes(blood: &str) -> [u8; 3] {
    let mut out = [0u8; 3];
    let src = blood.as_bytes();
    out[..src.len()].copy_from_slice(src);
    out
}

#[test]
fn round_trip_reproduces_the_record() {
    let rec = Donation {
        donor_name: name_bytes("Jane Doe"),
        blood_type: blood_bytes("AB-"),
        date: 19_700,
    };
    let bytes = rec.encode();
    assert_eq!(bytes.len(), RECORD_LEN);
    let back = Donation::decode(&bytes).unwrap();
    assert_eq!(back, rec);
}

#[test]
fn round_trip_at_the_date_bound() {
    let rec = Donation {
        donor_name: [0xFF; 32],
        blood_type: [0xFF; 3],
        date: 0xFF_FFFF_FFFF,
    };
    let back = Donation::decode(&rec.encode()).unwrap();
    assert_eq!(back, rec);
}

#[test]
fn decode_of_39_bytes_fails_malformed() {
    let data = vec![0u8; 39];
    assert_eq!(Donation::decode(&data), Err(HistoryError::MalformedRecord));
}

#[test]
fn decode_of_40_bytes_succeeds() {
    let data = vec![0u8; 40];
    let rec = Donation::decode(&data).unwrap();
    assert_eq!(rec.donor_name, [0u8; 32]);
    assert_eq!(rec.blood_type, [0u8; 3]);
    assert_eq!(rec.date, 0);
}

#[test]
fn decode_of_empty_input_fails_malformed() {
    assert_eq!(Donation::decode(&[]), Err(HistoryError::MalformedRecord));
}

#[test]
fn decode_consumes_exactly_forty_bytes() {
    let mut data = vec![7u8; 40];
    data.extend_from_slice(&[0xAA; 13]);
    let rec = Donation::decode(&data).unwrap();
    assert_eq!(rec.donor_name, [7u8; 32]);
    assert_eq!(rec.blood_type, [7u8; 3]);
    assert_eq!(rec.date, u64::from_le_bytes([7, 7, 7, 7, 7, 0, 0, 0]));
}

#[test]
fn decode_accepts_arbitrary_field_content() {
    let mut data = Vec::new();
    for i in 0..40u8 {
        data.push(0xC0u8.wrapping_add(i));
    }
    let rec = Donation::decode(&data).unwrap();
    assert_eq!(&rec.donor_name[..], &data[..32]);
    assert_eq!(&rec.blood_type[..], &data[32..35]);
}

#[test]
fn encode_alice_example() {
    let rec = Donation {
        donor_name: name_bytes("Alice"),
        blood_type: blood_bytes("O+ "),
        date: 1_700_000_000,
    };
    let bytes = rec.encode();
    assert_eq!(bytes.len(), 40);
    assert_eq!(&bytes[..5], b"Alice");
    assert_eq!(&bytes[5..32], &[0u8; 27][..]);
    assert_eq!(&bytes[32..35], b"O+ ");
    let le = 1_700_000_000u64.to_le_bytes();
    assert_eq!(&bytes[35..], &le[..5]);
    let back = Donation::decode(&bytes).unwrap();
    assert_eq!(back.donor_name, rec.donor_name);
    assert_eq!(back.blood_type, rec.blood_type);
    assert_eq!(back.date, rec.date);
}

#[test]
fn encode_keeps_only_the_five_low_date_bytes() {
    let rec = Donation {
        donor_name: [0u8; 32],
        blood_type: [0u8; 3],
        date: 0x0100_0000_0005,
    };
    let back = Donation::decode(&rec.encode()).unwrap();
    assert_eq!(back.date, 5);
}
