use duration_layer::DurationData;
use duration_layer::DurationLayer;
use duration_layer::DurationRecord;

const MS: u128 = 1_000_000;

#[test]
fn new_store_is_empty() {
    let d = DurationData::new();
    assert!(d.is_empty());
    assert!(d.get(&"work".to_string()).is_none());
}

#[test]
fn default_record_is_zero() {
    let r = DurationRecord::default();
    assert_eq!(r, DurationRecord { duration: 0, count: 0 });
}

#[test]
fn single_close_accumulates() {
    // One work unit labelled "work" that ran for 100ms.
    let layer = DurationLayer::new();
    let controller = layer.controller();
    layer.record_close("work".to_string(), 100 * MS);
    let data = controller.current();
    let rec = data.get(&"work".to_string()).copied();
    assert_eq!(rec, Some(DurationRecord { duration: 100 * MS, count: 1 }));
}

#[test]
fn three_closes_same_label_sum() {
    // Three start/close pairs on label "x" with elapsed 10ms, 20ms, 30ms.
    let layer = DurationLayer::new();
    let controller = layer.controller();
    layer.record_close("x".to_string(), 10 * MS);
    layer.record_close("x".to_string(), 20 * MS);
    layer.record_close("x".to_string(), 30 * MS);
    let data = controller.current();
    let rec = data.get(&"x".to_string()).copied();
    assert_eq!(rec, Some(DurationRecord { duration: 60 * MS, count: 3 }));
}

#[test]
fn distinct_labels_do_not_interfere() {
    let layer = DurationLayer::new();
    let controller = layer.controller();
    layer.record_close("a".to_string(), 1);
    layer.record_close("b".to_string(), 10);
    layer.record_close("a".to_string(), 2);
    layer.record_close("b".to_string(), 20);
    layer.record_close("a".to_string(), 3);
    let data = controller.current();
    assert_eq!(
        data.get(&"a".to_string()).copied(),
        Some(DurationRecord { duration: 6, count: 3 })
    );
    assert_eq!(
        data.get(&"b".to_string()).copied(),
        Some(DurationRecord { duration: 30, count: 2 })
    );
    assert!(data.get(&"c".to_string()).is_none());
}

#[test]
fn counts_equal_pairs_and_duration_equals_sum() {
    // After N complete pairs with elapsed e1..eN, count == N and the total
    // duration is exactly e1 + .. + eN.
    let layer = DurationLayer::new();
    let controller = layer.controller();
    let elapsed = [7u128, 11, 13, 17, 19];
    for e in elapsed {
        layer.record_close("job".to_string(), e);
    }
    let data = controller.current();
    let rec = data.get(&"job".to_string()).copied().unwrap();
    assert_eq!(rec.count, elapsed.len());
    assert_eq!(rec.duration, elapsed.iter().sum::<u128>());
}

#[test]
fn zero_elapsed_still_counts() {
    let layer = DurationLayer::new();
    let controller = layer.controller();
    layer.record_close("z".to_string(), 0);
    let data = controller.current();
    assert_eq!(
        data.get(&"z".to_string()).copied(),
        Some(DurationRecord { duration: 0, count: 1 })
    );
}

#[test]
fn duration_saturates_instead_of_overflowing() {
    let layer = DurationLayer::new();
    let controller = layer.controller();
    layer.record_close("x".to_string(), u128::MAX);
    layer.record_close("x".to_string(), 1);
    let data = controller.current();
    let rec = data.get(&"x".to_string()).copied().unwrap();
    assert_eq!(rec.duration, u128::MAX);
    assert_eq!(rec.count, 2);
}

#[test]
fn store_updates_in_place() {
    // The store type itself, without the lock around it.
    let mut d = DurationData::new();
    d.record_close("p".to_string(), 4);
    d.record_close("q".to_string(), 5);
    d.record_close("p".to_string(), 6);
    assert_eq!(
        d.get(&"p".to_string()).copied(),
        Some(DurationRecord { duration: 10, count: 2 })
    );
    assert_eq!(
        d.get(&"q".to_string()).copied(),
        Some(DurationRecord { duration: 5, count: 1 })
    );
    assert!(!d.is_empty());
}
