use a9_v720_server::StreamBuffer;

fn with_hint(body: &[u8], hint: u32) -> Vec<u8> {
    let mut v = body.to_vec();
    v.extend_from_slice(&hint.to_le_bytes());
    v
}

#[test]
fn fragments_assemble_into_one_frame() {
    let mut sb = StreamBuffer::new(100);
    assert!(!sb.add_fragment(1, 250, 1, b"AB"));
    assert_eq!(sb.get_received_packages(), vec![1]);
    assert!(!sb.add_fragment(1, 251, 2, b"CD"));
    assert!(sb.add_fragment(1, 252, 3, &with_hint(b"EF", 6)));
    assert_eq!(sb.frame_count(), 1);
    assert_eq!(sb.get_latest_frame().unwrap(), b"ABCDEF");
    assert_eq!(sb.get_latest_data(), b"ABCDEF");
    assert!(sb.get_received_packages().is_empty());
    assert_eq!(sb.current_size(), 6);
}

#[test]
fn implausible_hint_is_kept() {
    let mut sb = StreamBuffer::new(10);
    sb.add_fragment(1, 250, 1, b"A");
    sb.add_fragment(1, 252, 2, &with_hint(b"B", 1 << 20));
    assert_eq!(sb.get_latest_frame().unwrap(), &with_hint(b"AB", 1 << 20)[..]);
    sb.add_fragment(1, 250, 3, b"A");
    sb.add_fragment(1, 252, 4, &with_hint(b"B", 0));
    let mut expected = b"AB".to_vec();
    expected.extend_from_slice(&[0, 0, 0, 0]);
    assert_eq!(sb.get_latest_frame().unwrap(), &expected[..]);
    sb.add_fragment(1, 250, 5, b"A");
    sb.add_fragment(1, 252, 6, b"xyz");
    assert_eq!(sb.get_latest_frame().unwrap(), b"Axyz");
    sb.add_fragment(1, 250, 7, b"A");
    sb.add_fragment(1, 252, 8, &with_hint(b"", (1 << 20) - 1));
    assert_eq!(sb.get_latest_frame().unwrap(), b"A");
}

#[test]
fn middle_and_end_without_start_are_dropped() {
    let mut sb = StreamBuffer::new(10);
    assert!(!sb.add_fragment(1, 251, 1, b"x"));
    assert!(!sb.add_fragment(1, 252, 2, b"y"));
    assert_eq!(sb.frame_count(), 0);
    assert!(sb.get_latest_frame().is_none());
    assert!(sb.get_latest_data().is_empty());
}

#[test]
fn new_start_discards_assembly_in_progress() {
    let mut sb = StreamBuffer::new(10);
    sb.add_fragment(1, 250, 1, b"old");
    sb.add_fragment(1, 250, 2, b"new");
    sb.add_fragment(1, 252, 3, b"!");
    assert_eq!(sb.get_latest_frame().unwrap(), b"new!");
}

#[test]
fn other_commands_do_not_touch_the_assembly() {
    let mut sb = StreamBuffer::new(10);
    sb.add_fragment(1, 250, 1, b"a");
    assert!(!sb.add_fragment(6, 255, 2, b"pcm"));
    assert!(!sb.add_fragment(1, 0, 3, b"??"));
    sb.add_fragment(1, 252, 4, b"b");
    assert_eq!(sb.get_latest_frame().unwrap(), b"ab");
}

#[test]
fn ring_keeps_the_most_recent_frames() {
    let mut sb = StreamBuffer::new(3);
    for i in 0..5u8 {
        sb.add_complete_frame(vec![i]);
    }
    assert_eq!(sb.frame_count(), 3);
    let all: Vec<Vec<u8>> = sb.get_all_frames().iter().cloned().collect();
    assert_eq!(all, vec![vec![2], vec![3], vec![4]]);
    assert_eq!(sb.max_frames(), 3);
    assert_eq!(sb.max_size(), 3 * 1024 * 1024);
}

#[test]
fn zero_capacity_keeps_nothing() {
    let mut sb = StreamBuffer::new(0);
    sb.add_complete_frame(vec![1, 2]);
    assert_eq!(sb.frame_count(), 0);
}

#[test]
fn incomplete_frames() {
    let mut sb = StreamBuffer::new(10);
    sb.add_fragment(1, 250, 1, b"one");
    assert!(!sb.complete_incomplete_frame());
    assert_eq!(sb.frame_count(), 0);
    sb.add_fragment(1, 250, 2, b"one");
    sb.add_fragment(1, 251, 3, b"two");
    assert!(sb.complete_incomplete_frame());
    assert_eq!(sb.get_latest_frame().unwrap(), b"onetwo");
    assert!(!sb.complete_incomplete_frame());
}

#[test]
fn clear_and_legacy_add_frame() {
    let mut sb = StreamBuffer::new(10);
    sb.add_complete_frame(vec![1]);
    sb.add_frame(&[9, 9]);
    assert_eq!(sb.frame_count(), 1);
    sb.add_fragment(1, 250, 1, b"x");
    sb.clear();
    assert_eq!(sb.frame_count(), 0);
    assert!(sb.get_received_packages().is_empty());
}

#[test]
fn sweep_finalizes_only_assemblies_seen_at_the_previous_tick() {
    let mut sb = StreamBuffer::new(10);
    sb.add_fragment(1, 250, 1, b"one");
    sb.add_fragment(1, 251, 2, b"two");
    assert!(!sb.sweep());
    assert_eq!(sb.frame_count(), 0);
    sb.add_fragment(1, 251, 3, b"three");
    assert!(sb.sweep());
    assert_eq!(sb.get_latest_frame().unwrap(), b"onetwothree");
    assert!(!sb.sweep());

    // A new start after a tick is young again.
    sb.add_fragment(1, 250, 4, b"a");
    sb.add_fragment(1, 251, 5, b"b");
    assert!(!sb.sweep());
    sb.add_fragment(1, 250, 6, b"c");
    sb.add_fragment(1, 251, 7, b"d");
    assert!(!sb.sweep());
    sb.add_fragment(1, 252, 8, b"e");
    assert_eq!(sb.get_latest_frame().unwrap(), b"cde");

    // A lone stale fragment is discarded.
    sb.add_fragment(1, 250, 9, b"x");
    assert!(!sb.sweep());
    assert!(!sb.sweep());
    assert_eq!(sb.frame_count(), 2);
    assert!(sb.get_received_packages().is_empty());
}
