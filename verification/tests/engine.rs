use spotwatch::engine::{Classification, RetainedState};
use spotwatch::model::{SnapshotKey, SpotInfo};
use spotwatch::table::SpotTable;

fn key(program: &str, date: &str, appointment: &str) -> SnapshotKey {
    SnapshotKey {
        program_id: program.to_string(),
        date: date.to_string(),
        appointment_id: appointment.to_string(),
    }
}

fn info(product: &str, time: &str, spots: &str) -> SpotInfo {
    SpotInfo {
        program_name: "Climbing".to_string(),
        product_name: product.to_string(),
        date: "2024-03-07".to_string(),
        time: time.to_string(),
        spots: spots.to_string(),
    }
}

fn snapshot_of(entries: Vec<(SnapshotKey, SpotInfo)>) -> SpotTable {
    let mut table = SpotTable::new();
    for (k, v) in entries {
        table.insert(k, v);
    }
    table
}

#[test]
fn new_state_is_empty() {
    let state = RetainedState::new();
    assert_eq!(state.len(), 0);
    assert!(state.get(&key("42", "2024-03-07", "42-a")).is_none());
}

#[test]
fn first_observation_sets_baseline_without_event() {
    let mut state = RetainedState::new();
    let k = key("42", "2024-03-07", "42-a");
    assert_eq!(state.classify(&k, &info("Intro", "09:00:00", "3 spots")), Classification::New);
    let events = state.merge(&snapshot_of(vec![(k.clone(), info("Intro", "09:00:00", "3 spots"))]));
    assert!(events.is_empty());
    assert_eq!(state.len(), 1);
    assert_eq!(state.get(&k).unwrap().spots, "3 spots");
}

#[test]
fn unchanged_label_is_silent_and_refreshes_other_fields() {
    let mut state = RetainedState::new();
    let k = key("42", "2024-03-07", "42-a");
    state.merge(&snapshot_of(vec![(k.clone(), info("Intro", "09:00:00", "3 spots"))]));
    let fresh = info("Intro (moved)", "10:30:00", "3 spots");
    assert_eq!(state.classify(&k, &fresh), Classification::Unchanged);
    let events = state.merge(&snapshot_of(vec![(k.clone(), fresh)]));
    assert!(events.is_empty());
    let stored = state.get(&k).unwrap();
    assert_eq!(stored.product_name, "Intro (moved)");
    assert_eq!(stored.time, "10:30:00");
    assert_eq!(stored.spots, "3 spots");
    assert_eq!(state.len(), 1);
}

#[test]
fn changed_label_gives_one_event_with_both_labels() {
    let mut state = RetainedState::new();
    let k = key("42", "2024-03-07", "42-a");
    state.merge(&snapshot_of(vec![(k.clone(), info("Intro", "09:00:00", "3 spots"))]));
    let fresh = info("Intro", "09:00:00", "2 spots");
    assert_eq!(state.classify(&k, &fresh), Classification::Changed);
    let events = state.merge(&snapshot_of(vec![(k.clone(), fresh)]));
    assert_eq!(events.len(), 1);
    assert!(events[0].key.same(&k));
    assert_eq!(events[0].previous.spots, "3 spots");
    assert_eq!(events[0].current.spots, "2 spots");
    assert_eq!(events[0].title(), "Spot change: Intro");
    assert_eq!(
        events[0].body(),
        "Climbing (Intro) on 2024-03-07 @ 09:00:00: 3 spots → 2 spots"
    );
    assert_eq!(state.get(&k).unwrap().spots, "2 spots");
}

#[test]
fn labels_are_compared_as_text() {
    let mut state = RetainedState::new();
    let k = key("42", "2024-03-07", "42-a");
    state.merge(&snapshot_of(vec![(k.clone(), info("Intro", "09:00:00", "3"))]));
    let events = state.merge(&snapshot_of(vec![(k.clone(), info("Intro", "09:00:00", "03"))]));
    assert_eq!(events.len(), 1);
    assert_eq!(events[0].body(), "Climbing (Intro) on 2024-03-07 @ 09:00:00: 3 → 03");
}

#[test]
fn key_missing_from_snapshot_is_kept() {
    let mut state = RetainedState::new();
    let a = key("42", "2024-03-07", "42-a");
    let b = key("42", "2024-03-08", "42-b");
    state.merge(&snapshot_of(vec![
        (a.clone(), info("Intro", "09:00:00", "3 spots")),
        (b.clone(), info("Advanced", "11:00:00", "Full")),
    ]));
    let events = state.merge(&snapshot_of(vec![(a.clone(), info("Intro", "09:00:00", "1 spot"))]));
    assert_eq!(events.len(), 1);
    assert_eq!(state.len(), 2);
    let kept = state.get(&b).unwrap();
    assert_eq!(kept.spots, "Full");
    assert_eq!(kept.product_name, "Advanced");
    assert_eq!(kept.time, "11:00:00");
}

#[test]
fn empty_snapshot_changes_nothing() {
    let mut state = RetainedState::new();
    let a = key("42", "2024-03-07", "42-a");
    state.merge(&snapshot_of(vec![(a.clone(), info("Intro", "09:00:00", "3 spots"))]));
    let events = state.merge(&SpotTable::new());
    assert!(events.is_empty());
    assert_eq!(state.len(), 1);
    assert_eq!(state.get(&a).unwrap().spots, "3 spots");
}

#[test]
fn events_follow_the_snapshot_order() {
    let mut state = RetainedState::new();
    let a = key("42", "2024-03-07", "42-a");
    let b = key("42", "2024-03-08", "42-b");
    let c = key("43", "2024-03-08", "43-c");
    state.merge(&snapshot_of(vec![
        (a.clone(), info("A", "09:00:00", "1")),
        (b.clone(), info("B", "09:00:00", "1")),
    ]));
    let events = state.merge(&snapshot_of(vec![
        (b.clone(), info("B", "09:00:00", "2")),
        (c.clone(), info("C", "09:00:00", "5")),
        (a.clone(), info("A", "09:00:00", "0")),
    ]));
    assert_eq!(events.len(), 2);
    assert!(events[0].key.same(&b));
    assert!(events[1].key.same(&a));
    assert_eq!(state.len(), 3);
}

#[test]
fn table_insert_replaces_under_the_same_key() {
    let mut table = SpotTable::new();
    let a = key("42", "2024-03-07", "42-a");
    table.insert(a.clone(), info("Intro", "09:00:00", "3 spots"));
    table.insert(a.clone(), info("Intro", "09:00:00", "2 spots"));
    assert_eq!(table.len(), 1);
    assert_eq!(table.get(&a).unwrap().spots, "2 spots");
    assert!(table.contains_key(&a));
    assert!(!table.contains_key(&key("42", "2024-03-07", "42-b")));
    assert_eq!(table.position(&a), Some(0));
    assert!(table.key_at(0).same(&a));
    assert_eq!(table.info_at(0).spots, "2 spots");
}

#[test]
fn keys_differ_by_each_part() {
    let a = key("42", "2024-03-07", "42-a");
    assert!(a.same(&key("42", "2024-03-07", "42-a")));
    assert!(!a.same(&key("43", "2024-03-07", "42-a")));
    assert!(!a.same(&key("42", "2024-03-08", "42-a")));
    assert!(!a.same(&key("42", "2024-03-07", "42-b")));
}
