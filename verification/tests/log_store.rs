use devwatchman::logring::{should_rotate, LogRing};

#[test]
fn empty_ring_snapshot_is_empty() {
    let ring = LogRing::new();
    assert_eq!(ring.len(), 0);
    assert_eq!(ring.snapshot(), "");
}

#[test]
fn single_line_snapshot_has_no_newline() {
    let mut ring = LogRing::new();
    ring.push(String::from("only"));
    assert_eq!(ring.snapshot(), "only");
}

#[test]
fn snapshot_joins_in_insertion_order() {
    let mut ring = LogRing::new();
    ring.push(String::from("first"));
    ring.push(String::from("second"));
    ring.push(String::from("third"));
    assert_eq!(ring.snapshot(), "first\nsecond\nthird");
}

#[test]
fn ring_never_exceeds_two_hundred_lines() {
    let mut ring = LogRing::new();
    for i in 0..250 {
        ring.push(format!("line{}", i));
        assert!(ring.len() <= 200);
    }
    assert_eq!(ring.len(), 200);
}

#[test]
fn overfull_ring_keeps_the_last_two_hundred_in_order() {
    let mut ring = LogRing::new();
    for i in 0..250 {
        ring.push(format!("line{}", i));
    }
    let mut expected = String::new();
    for i in 50..250 {
        if i > 50 {
            expected.push('\n');
        }
        expected.push_str(&format!("line{}", i));
    }
    assert_eq!(ring.snapshot(), expected);
}

#[test]
fn rotation_only_above_five_mebibytes() {
    assert!(!should_rotate(None));
    assert!(!should_rotate(Some(0)));
    assert!(!should_rotate(Some(5 * 1024 * 1024)));
    assert!(should_rotate(Some(5 * 1024 * 1024 + 1)));
}
