use torture::traffic::{TrafficCenter, TrafficItem};

#[test]
fn submit_body_renders_both_entries() {
    let mut center = TrafficCenter::new();
    center.receive(TrafficItem::new(1, 800, 1600));
    center.receive(TrafficItem::new(2, 80, 0));
    let body = center.submit_body();
    assert_eq!(
        body,
        b"[{\"user_id\":1,\"u\":800,\"d\":1600},{\"user_id\":2,\"u\":80,\"d\":0}]".to_vec()
    );
}

#[test]
fn successful_submit_clears_the_map() {
    let mut center = TrafficCenter::new();
    center.receive(TrafficItem::new(1, 800, 1600));
    center.receive(TrafficItem::new(2, 80, 0));
    assert!(!center.is_empty());
    center.apply_submit_result(true);
    assert!(center.is_empty());
    assert_eq!(center.submit_body(), b"[]".to_vec());
}

#[test]
fn failed_submit_keeps_the_map() {
    let mut center = TrafficCenter::new();
    center.receive(TrafficItem::new(1, 800, 1600));
    let before = center.submit_body();
    center.apply_submit_result(false);
    assert!(!center.is_empty());
    assert_eq!(center.submit_body(), before);
}

#[test]
fn deltas_for_one_user_accumulate_by_addition() {
    let mut center = TrafficCenter::new();
    center.receive(TrafficItem::new(7, 1, 2));
    center.receive(TrafficItem::new(7, 10, 20));
    center.receive(TrafficItem::new(7, 100, 200));
    let body = center.submit_body();
    assert_eq!(body, b"[{\"user_id\":7,\"u\":111,\"d\":222}]".to_vec());
}

#[test]
fn accumulation_saturates_instead_of_wrapping() {
    let mut center = TrafficCenter::new();
    center.receive(TrafficItem::new(1, u64::MAX - 1, 0));
    center.receive(TrafficItem::new(1, 5, 3));
    let (up, down) = center.totals();
    assert_eq!(up, u64::MAX);
    assert_eq!(down, 3);
}

#[test]
fn totals_sum_over_users() {
    let mut center = TrafficCenter::new();
    center.receive(TrafficItem::new(1, 800, 1600));
    center.receive(TrafficItem::new(2, 80, 0));
    assert_eq!(center.totals(), (880, 1600));
}

#[test]
fn negative_user_id_renders_with_sign() {
    let mut center = TrafficCenter::new();
    center.receive(TrafficItem::new(-5, 8, 8));
    assert_eq!(
        center.submit_body(),
        b"[{\"user_id\":-5,\"u\":8,\"d\":8}]".to_vec()
    );
}

#[test]
fn default_aggregator_is_empty() {
    let center = TrafficCenter::default();
    assert!(center.is_empty());
    assert_eq!(center.submit_body(), b"[]".to_vec());
}

#[test]
fn byte_counts_become_bits() {
    let delta = TrafficItem::from_byte_counts(42, 4, 4);
    assert_eq!(delta.user_id, 42);
    assert_eq!(delta.u, 32);
    assert_eq!(delta.d, 32);
}

#[test]
fn bit_multiplication_saturates_on_huge_counts() {
    let delta = TrafficItem::from_byte_counts(1, u64::MAX, u64::MAX / 8);
    assert_eq!(delta.u, u64::MAX);
    assert_eq!(delta.d, (u64::MAX / 8) * 8);
}
