use downloader::progress::Progress;

#[test]
fn starts_at_zero_with_hint() {
    let p = Progress::new(Some(42));
    assert_eq!(p.bytes_written(), 0);
    assert_eq!(p.total(), 42);
}

#[test]
fn missing_hint_counts_as_zero() {
    let p = Progress::new(None);
    assert_eq!(p.total(), 0);
}

#[test]
fn counter_is_sum_of_chunk_lengths() {
    let mut p = Progress::new(Some(11));
    p.record_chunk(b"hello ");
    assert_eq!(p.bytes_written(), 6);
    p.record_chunk(b"world");
    assert_eq!(p.bytes_written(), 11);
    assert_eq!(p.total(), 11);
}

#[test]
fn counter_ignores_chunk_boundaries() {
    let body: &[u8] = b"the quick brown fox";
    let mut one = Progress::new(None);
    one.record_chunk(body);
    let mut many = Progress::new(None);
    many.record_chunk(&body[..4]);
    many.record_chunk(&body[4..10]);
    many.record_chunk(&body[10..]);
    assert_eq!(one.bytes_written(), many.bytes_written());
    assert_eq!(one.bytes_written(), body.len() as u64);
}

#[test]
fn partial_transfer_counts_only_received_bytes() {
    let mut p = Progress::new(Some(10));
    p.record_chunk(b"half!");
    assert_eq!(p.bytes_written(), 5);
    assert_eq!(p.total(), 10);
}

#[test]
fn empty_chunk_changes_nothing() {
    let mut p = Progress::new(None);
    p.record_chunk(b"");
    assert_eq!(p.bytes_written(), 0);
}

#[test]
fn fresh_progress_can_record() {
    let p = Progress::new(None);
    assert!(p.can_record(0));
    assert!(p.can_record(usize::MAX));
}
