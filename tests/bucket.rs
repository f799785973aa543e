use a9_v720_server::RetransmissionBucket;

#[test]
fn bucket_deduplicates_and_flushes() {
    let mut b = RetransmissionBucket::new();
    assert!(b.is_retransmission_bucket_empty());
    assert_eq!(b.record(1, 250, 5), None);
    assert_eq!(b.record(1, 251, 5), None);
    assert_eq!(b.record(4, 255, 6), None);
    // First terminator: empty acknowledgement, bucket kept.
    assert_eq!(b.record(1, 252, 7), Some(vec![]));
    assert!(b.first_end_frame_seen());
    assert!(!b.is_retransmission_bucket_empty());
    assert_eq!(b.record(1, 250, 8), None);
    // Later terminators flush everything since the last flush.
    assert_eq!(b.record(1, 252, 9), Some(vec![5, 6, 7, 8, 9]));
    assert!(b.is_retransmission_bucket_empty());
    assert_eq!(b.record(1, 252, 9), Some(vec![9]));
}

#[test]
fn bucket_grows_between_flushes() {
    let mut b = RetransmissionBucket::new();
    b.add_to_retransmission_bucket(3);
    b.add_to_retransmission_bucket(1);
    b.add_to_retransmission_bucket(3);
    assert_eq!(b.get_and_clear_retransmission_bucket(), vec![3, 1]);
    assert!(b.get_and_clear_retransmission_bucket().is_empty());
}
