use micro_template::buffer::{lookup, TableKind, TimerAction, WriteBuffer};
use micro_template::errors::DbError;
use micro_template::named_map::NamedMap;

fn entry(k: u8, v: u8) -> (Vec<u8>, Vec<u8>) {
    (vec![k], vec![v])
}

#[test]
fn flushes_when_size_limit_reached() {
    let mut b = WriteBuffer::new(TableKind::Regular, 3, 1_000, 0);
    assert!(b.push_raw(vec![1], vec![10]).is_none());
    assert!(b.push_raw(vec![2], vec![20]).is_none());
    assert_eq!(b.len(), 2);
    let batch = b.push_raw(vec![3], vec![30]).expect("limit reached");
    assert_eq!(batch, vec![entry(1, 10), entry(2, 20), entry(3, 30)]);
    assert_eq!(b.len(), 0);
}

#[test]
fn zero_size_limit_flushes_every_push() {
    let mut b = WriteBuffer::new(TableKind::Regular, 0, 1_000, 0);
    assert_eq!(b.push_raw(vec![7], vec![8]), Some(vec![entry(7, 8)]));
    assert_eq!(b.len(), 0);
}

#[test]
fn take_pending_empties_in_order() {
    let mut b = WriteBuffer::new(TableKind::Regular, 10, 1_000, 0);
    b.push_raw(vec![1], vec![1]);
    b.push_raw(vec![2], vec![2]);
    assert_eq!(b.take_pending(), vec![entry(1, 1), entry(2, 2)]);
    assert!(b.take_pending().is_empty());
}

#[test]
fn ttl_shorter_than_interval_forces_flush() {
    let b = WriteBuffer::new(TableKind::Ttl { ttl: 500 }, 10, 1_000, 0);
    assert!(b.force_flush());
    let b = WriteBuffer::new(TableKind::Ttl { ttl: 1_000 }, 10, 1_000, 0);
    assert!(!b.force_flush());
    let b = WriteBuffer::new(TableKind::Ttl { ttl: 5_000 }, 10, 1_000, 0);
    assert!(!b.force_flush());
    let b = WriteBuffer::new(TableKind::Regular, 10, 1_000, 0);
    assert!(!b.force_flush());
}

#[test]
fn timer_flushes_after_interval() {
    let mut b = WriteBuffer::new(TableKind::Regular, 10, 1_000, 5_000);
    assert!(matches!(b.timer_action(5_999), TimerAction::Sleep));
    assert!(matches!(b.timer_action(6_000), TimerAction::Flush));
    assert!(matches!(b.timer_action(4_000), TimerAction::Sleep));
    b.record_flush(6_000);
    assert!(!b.flush_due(6_500));
    assert!(b.flush_due(7_000));
}

#[test]
fn closed_buffer_stops_timer_and_hands_back_entries() {
    let mut b = WriteBuffer::new(TableKind::Regular, 10, 1_000, 0);
    b.push_raw(vec![4], vec![5]);
    assert_eq!(b.close(), Some(vec![entry(4, 5)]));
    assert_eq!(b.close(), None);
    assert!(matches!(b.timer_action(10_000), TimerAction::Stop));
    assert_eq!(b.len(), 0);
}

#[test]
fn unknown_table_is_no_buffer() {
    let mut registry: NamedMap<u32> = NamedMap::new();
    registry.insert("team_data".to_string(), 1);
    assert_eq!(lookup(&registry, "team_data").ok(), Some(&1));
    assert!(matches!(lookup(&registry, "missing"), Err(DbError::NoBuffer)));
}

#[test]
fn registering_again_replaces_buffer() {
    let mut registry: NamedMap<u32> = NamedMap::new();
    assert_eq!(registry.insert("t".to_string(), 1), None);
    assert_eq!(registry.insert("u".to_string(), 2), None);
    assert_eq!(registry.insert("t".to_string(), 3), Some(1));
    assert_eq!(registry.get("t"), Some(&3));
    assert_eq!(registry.len(), 2);
    let (k, v) = registry.entry(0);
    assert_eq!((k.as_str(), *v), ("t", 3));
    assert!(registry.contains("u"));
    assert!(!registry.contains("v"));
}

#[test]
fn expiring_table_flushes_on_every_push() {
    let mut b = WriteBuffer::new(TableKind::Ttl { ttl: 500 }, 10, 1_000, 0);
    assert_eq!(b.push_raw(vec![1], vec![2]), Some(vec![entry(1, 2)]));
    assert_eq!(b.len(), 0);
    let mut b = WriteBuffer::new(TableKind::Ttl { ttl: 5_000 }, 10, 1_000, 0);
    assert_eq!(b.push_raw(vec![1], vec![2]), None);
    assert_eq!(b.len(), 1);
}

#[test]
fn empty_buffer_has_nothing_to_flush() {
    let mut b = WriteBuffer::new(TableKind::Regular, 10, 1_000, 0);
    assert_eq!(b.begin_flush(), None);
    b.push_raw(vec![1], vec![2]);
    assert_eq!(b.begin_flush(), Some(vec![entry(1, 2)]));
    assert_eq!(b.begin_flush(), None);
}
