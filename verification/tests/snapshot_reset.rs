use duration_layer::DurationLayer;
use duration_layer::DurationRecord;

const MS: u128 = 1_000_000;

#[test]
fn snapshot_is_a_value_copy() {
    // Later mutation of the live store must not show up in an earlier snapshot.
    let layer = DurationLayer::new();
    let controller = layer.controller();
    layer.record_close("x".to_string(), 10);
    let before = controller.current();
    layer.record_close("x".to_string(), 10);
    assert_eq!(
        before.get(&"x".to_string()).copied(),
        Some(DurationRecord { duration: 10, count: 1 })
    );
    let after = controller.current();
    assert_eq!(
        after.get(&"x".to_string()).copied(),
        Some(DurationRecord { duration: 20, count: 2 })
    );
}

#[test]
fn reset_drains_and_empties() {
    // Interleaved pairs on "x" (10ms, 20ms, 30ms), then a reset: the reset
    // returns exactly the accumulated state, the store is empty afterwards,
    // and the new window starts no earlier than the old one.
    let layer = DurationLayer::new();
    let controller = layer.controller();
    layer.record_close("x".to_string(), 10 * MS);
    layer.record_close("x".to_string(), 20 * MS);
    layer.record_close("x".to_string(), 30 * MS);
    let before = controller.current();

    let drained = controller.reset();
    assert_eq!(
        drained.get(&"x".to_string()).copied(),
        Some(DurationRecord { duration: 60 * MS, count: 3 })
    );
    assert!(drained.start == before.start);

    let fresh = controller.current();
    assert!(fresh.is_empty());
    assert!(fresh.get(&"x".to_string()).is_none());
    assert!(fresh.start >= drained.start);
}

#[test]
fn second_reset_returns_empty() {
    let layer = DurationLayer::new();
    let controller = layer.controller();
    layer.record_close("x".to_string(), 1);
    let first = controller.reset();
    assert!(!first.is_empty());
    let second = controller.reset();
    assert!(second.is_empty());
    assert!(second.start >= first.start);
}

#[test]
fn events_after_reset_accumulate_in_new_window() {
    let layer = DurationLayer::new();
    let controller = layer.controller();
    layer.record_close("x".to_string(), 5);
    controller.reset();
    layer.record_close("x".to_string(), 7);
    let data = controller.current();
    assert_eq!(
        data.get(&"x".to_string()).copied(),
        Some(DurationRecord { duration: 7, count: 1 })
    );
}

#[test]
fn cloned_controller_shares_the_store() {
    let layer = DurationLayer::new();
    let c1 = layer.controller();
    let c2 = c1.clone();
    layer.record_close("shared".to_string(), 9);
    assert_eq!(
        c2.current().get(&"shared".to_string()).copied(),
        Some(DurationRecord { duration: 9, count: 1 })
    );
    let drained = c1.reset();
    assert_eq!(
        drained.get(&"shared".to_string()).copied(),
        Some(DurationRecord { duration: 9, count: 1 })
    );
    assert!(c2.current().is_empty());
}

#[test]
fn two_controllers_from_one_layer_agree() {
    let layer = DurationLayer::new();
    let c1 = layer.controller();
    let c2 = layer.controller();
    layer.record_close("x".to_string(), 3);
    assert_eq!(
        c1.current().get(&"x".to_string()).copied(),
        c2.current().get(&"x".to_string()).copied()
    );
}
