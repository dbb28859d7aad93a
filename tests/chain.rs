use ziggurat::chain::{expected_inv, expected_range, position, StopRule};
use ziggurat::codec::Hash256;
use ziggurat::inv::ObjectKind;
use ziggurat::payload::LocatorHashes;

fn chain(n: u8) -> Vec<Hash256> {
    (1..=n).map(|i| Hash256([i; 32])).collect()
}

#[test]
fn range_after_locator_to_tip() {
    let c = chain(10);
    let q = LocatorHashes::new(170_100, vec![c[2]], Hash256::zeroed());
    assert_eq!(expected_range(&c, &q, StopRule::Inclusive), c[3..].to_vec());
    let inv = expected_inv(&c, &q, StopRule::Inclusive);
    assert_eq!(inv.0.len(), 7);
    assert!(inv.0.iter().all(|h| h.kind == ObjectKind::Block));
    assert_eq!(inv.0[0].hash, c[3]);
}

#[test]
fn range_bounded_at_stop() {
    let c = chain(10);
    let q = LocatorHashes::new(170_100, vec![c[2]], c[6]);
    assert_eq!(expected_range(&c, &q, StopRule::Inclusive), c[3..7].to_vec());
    assert_eq!(expected_range(&c, &q, StopRule::Exclusive), c[3..6].to_vec());
}

#[test]
fn first_known_locator_wins() {
    let c = chain(10);
    let q = LocatorHashes::new(1, vec![Hash256([0xee; 32]), c[5], c[1]], Hash256::zeroed());
    assert_eq!(expected_range(&c, &q, StopRule::Inclusive), c[6..].to_vec());
}

#[test]
fn unknown_locator_starts_after_genesis() {
    let c = chain(4);
    let q = LocatorHashes::new(1, vec![Hash256([0xee; 32])], Hash256::zeroed());
    assert_eq!(expected_range(&c, &q, StopRule::Inclusive), c[1..].to_vec());
}

#[test]
fn stop_before_start_is_ignored() {
    let c = chain(6);
    let q = LocatorHashes::new(1, vec![c[3]], c[1]);
    assert_eq!(expected_range(&c, &q, StopRule::Inclusive), c[4..].to_vec());
}

#[test]
fn locator_at_tip_gives_nothing() {
    let c = chain(6);
    let q = LocatorHashes::new(1, vec![c[5]], Hash256::zeroed());
    assert!(expected_range(&c, &q, StopRule::Inclusive).is_empty());
    assert!(expected_range(&Vec::new(), &q, StopRule::Inclusive).is_empty());
}

#[test]
fn positions() {
    let c = chain(3);
    assert_eq!(position(&c, &c[2]), 2);
    assert_eq!(position(&c, &Hash256::zeroed()), -1);
}
