use bloodchain_program::error::HistoryError;
use bloodchain_program::record::Donation;
use bloodchain_program::store::{encode_history, scan_bytes, HistoryBuffer};

fn sample(tag: u8, date: u64) -> Donation {
    Donation { donor_name: [tag; 32], blood_type: [tag, tag, tag], date }
}

#[test]
fn scan_of_empty_buffer_is_empty() {
    let buf = HistoryBuffer::new(120);
    let recs = buf.scan().unwrap();
    assert!(recs.is_empty());
}

#[test]
fn append_then_scan_returns_the_record() {
    let mut buf = HistoryBuffer::new(40);
    let rec = sample(9, 123_456_789);
    buf.append(&rec).unwrap();
    let recs = buf.scan().unwrap();
    assert_eq!(recs, vec![rec]);
}

#[test]
fn scan_returns_records_in_append_order() {
    let mut buf = HistoryBuffer::new(160);
    let a = sample(1, 10);
    let b = sample(2, 20);
    let c = sample(3, 30);
    buf.append(&a).unwrap();
    buf.append(&b).unwrap();
    buf.append(&c).unwrap();
    let recs = buf.scan().unwrap();
    assert_eq!(recs, vec![a, b, c]);
}

#[test]
fn append_with_39_free_bytes_fails_buffer_full() {
    // One record occupies the buffer; exactly 40 * 2 - 1 total bytes leave
    // 39 free, one short of a slot.
    let mut buf = HistoryBuffer::new(79);
    buf.append(&sample(1, 1)).unwrap();
    assert_eq!(buf.append(&sample(2, 2)), Err(HistoryError::BufferFull));
    // The failed append left the buffer untouched.
    assert_eq!(buf.scan().unwrap(), vec![sample(1, 1)]);
}

#[test]
fn append_with_40_free_bytes_succeeds() {
    let mut buf = HistoryBuffer::new(80);
    buf.append(&sample(1, 1)).unwrap();
    buf.append(&sample(2, 2)).unwrap();
    assert_eq!(buf.scan().unwrap().len(), 2);
}

#[test]
fn append_to_zero_capacity_fails_buffer_full() {
    let mut buf = HistoryBuffer::new(0);
    assert_eq!(buf.append(&sample(1, 1)), Err(HistoryError::BufferFull));
}

#[test]
fn scan_of_unaligned_prefix_fails() {
    let buf = HistoryBuffer::from_bytes(vec![0u8; 41], 100);
    assert_eq!(buf.scan(), Err(HistoryError::UnalignedBuffer));
}

#[test]
fn append_to_unaligned_prefix_fails() {
    let mut buf = HistoryBuffer::from_bytes(vec![0u8; 30], 100);
    assert_eq!(buf.append(&sample(1, 1)), Err(HistoryError::UnalignedBuffer));
}

#[test]
fn scan_twice_returns_identical_sequences() {
    let mut buf = HistoryBuffer::new(120);
    buf.append(&sample(4, 44)).unwrap();
    buf.append(&sample(5, 55)).unwrap();
    let first = buf.scan().unwrap();
    let second = buf.scan().unwrap();
    assert_eq!(first, second);
}

#[test]
fn append_bytes_appends_exactly_the_forty_bytes() {
    let mut buf = HistoryBuffer::new(40);
    let mut data = Vec::new();
    for i in 0..44u8 {
        data.push(i);
    }
    buf.append_bytes(&data).unwrap();
    assert_eq!(buf.occupied_bytes().as_slice(), &data[..40]);
    let recs = buf.scan().unwrap();
    assert_eq!(&recs[0].donor_name[..], &data[..32]);
}

#[test]
fn append_bytes_of_short_input_fails_malformed() {
    let mut buf = HistoryBuffer::new(80);
    let data = vec![1u8; 39];
    assert_eq!(buf.append_bytes(&data), Err(HistoryError::MalformedRecord));
    assert_eq!(buf.occupied_len(), 0);
}

#[test]
fn encode_history_then_scan_bytes_round_trips() {
    let records = vec![sample(6, 600), sample(7, 700)];
    let bytes = encode_history(&records);
    assert_eq!(bytes.len(), 80);
    assert_eq!(scan_bytes(&bytes).unwrap(), records);
}

#[test]
fn encode_history_of_empty_list_is_empty() {
    assert!(encode_history(&Vec::new()).is_empty());
}

#[test]
fn scan_bytes_of_unaligned_slice_fails() {
    assert_eq!(scan_bytes(&[0u8; 39]), Err(HistoryError::UnalignedBuffer));
}

#[test]
fn accessors_report_the_buffer_state() {
    let mut buf = HistoryBuffer::new(100);
    assert_eq!(buf.capacity(), 100);
    assert_eq!(buf.occupied_len(), 0);
    assert_eq!(buf.len(), 0);
    buf.append(&sample(8, 80)).unwrap();
    assert_eq!(buf.occupied_len(), 40);
    assert_eq!(buf.len(), 1);
    assert_eq!(buf.capacity(), 100);
}
