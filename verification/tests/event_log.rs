use watering::event::{EventStore, WaterEvent};

fn event(timestamp: u64, notif_sent: bool) -> WaterEvent {
    WaterEvent { timestamp, notif_sent }
}

#[test]
fn new_store_is_empty() {
    let store = EventStore::new();
    assert_eq!(store.len(), 0);
    assert_eq!(store.latest(), None);
    assert_eq!(store.history(), vec![]);
}

#[test]
fn insert_appends_with_a_monotonic_clock() {
    let mut store = EventStore::new();
    store.insert(10);
    store.insert(20);
    assert_eq!(store.len(), 2);
    assert_eq!(store.latest(), Some(event(20, false)));
}

#[test]
fn inserted_event_starts_without_flag() {
    let mut store = EventStore::new();
    store.insert(5);
    store.mark_notified(5);
    store.insert(6);
    assert_eq!(store.latest(), Some(event(6, false)));
    assert_eq!(store.history(), vec![event(6, false), event(5, true)]);
}

#[test]
fn history_runs_from_newest_to_oldest() {
    let mut store = EventStore::new();
    store.insert(1);
    store.insert(2);
    store.insert(3);
    assert_eq!(store.history(), vec![event(3, false), event(2, false), event(1, false)]);
}

#[test]
fn ties_are_kept_in_insertion_order() {
    let mut store = EventStore::new();
    store.insert(7);
    store.mark_notified(7);
    store.insert(7);
    assert_eq!(store.len(), 2);
    assert_eq!(store.latest(), Some(event(7, false)));
    assert_eq!(store.history(), vec![event(7, false), event(7, true)]);
}

#[test]
fn late_clock_reading_goes_to_its_place() {
    let mut store = EventStore::new();
    store.insert(10);
    store.insert(30);
    store.insert(20);
    assert_eq!(store.latest(), Some(event(30, false)));
    assert_eq!(store.history(), vec![event(30, false), event(20, false), event(10, false)]);
    store.insert(0);
    assert_eq!(
        store.history(),
        vec![event(30, false), event(20, false), event(10, false), event(0, false)]
    );
}

#[test]
fn mark_notified_reaches_exactly_the_stamp() {
    let mut store = EventStore::new();
    store.insert(1);
    store.insert(2);
    store.insert(3);
    let rows = store.mark_notified(2);
    assert_eq!(rows, 1);
    assert_eq!(store.history(), vec![event(3, false), event(2, true), event(1, false)]);
}

#[test]
fn mark_notified_reaches_every_tie() {
    let mut store = EventStore::new();
    store.insert(4);
    store.insert(4);
    store.insert(9);
    let rows = store.mark_notified(4);
    assert_eq!(rows, 2);
    assert_eq!(store.history(), vec![event(9, false), event(4, true), event(4, true)]);
}

#[test]
fn mark_notified_with_unknown_stamp_reaches_nothing() {
    let mut store = EventStore::new();
    store.insert(1);
    let rows = store.mark_notified(2);
    assert_eq!(rows, 0);
    assert_eq!(store.history(), vec![event(1, false)]);
}

#[test]
fn mark_notified_twice_counts_the_row_again_and_keeps_the_flag() {
    let mut store = EventStore::new();
    store.insert(1);
    assert_eq!(store.mark_notified(1), 1);
    assert_eq!(store.mark_notified(1), 1);
    assert_eq!(store.latest(), Some(event(1, true)));
}

#[test]
fn stored_flag_one_means_sent() {
    assert_eq!(WaterEvent::from_row(12, 1), event(12, true));
    assert_eq!(WaterEvent::from_row(12, 0), event(12, false));
    assert_eq!(WaterEvent::from_row(12, 2), event(12, false));
    assert_eq!(WaterEvent::from_row(12, -1), event(12, false));
}

#[test]
fn flag_round_trips_through_a_row() {
    assert_eq!(event(3, true).flag(), 1);
    assert_eq!(event(3, false).flag(), 0);
    assert_eq!(WaterEvent::from_row(3, event(3, true).flag()), event(3, true));
    assert_eq!(WaterEvent::from_row(3, event(3, false).flag()), event(3, false));
}
