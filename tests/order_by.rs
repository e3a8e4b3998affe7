use shard_sync::order_by::{Direction, Range};

#[test]
fn ascending_range_starts_at_value() {
    let r = Direction::Asc.as_range_from(10i64);
    assert_eq!(r, Range { lt: None, gt: None, gte: Some(10), lte: None });
}

#[test]
fn descending_range_ends_at_value() {
    let r = Direction::Desc.as_range_from(10i64);
    assert_eq!(r, Range { lt: None, gt: None, gte: None, lte: Some(10) });
}

#[test]
fn default_direction_is_ascending() {
    assert_eq!(Direction::default(), Direction::Asc);
}
