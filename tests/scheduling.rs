use unavailability::aggregate::{get_event_unavailability_details, UnavailabilityEntry, UnavailabilityRow};
use unavailability::calendar::Day;
use unavailability::handlers::{
    add_event_unavailability, clear_my_unavailabilities_handler, remove_event_unavailability,
    AddUnavailabilityPayload, ClearPayload,
};
use unavailability::models::{TimeOfDay, User};
use unavailability::slots::{expand_range, SlotOp};
use unavailability::table::SlotTable;

const JULY_10: i32 = 739442;

fn tags(names: &[&str]) -> Vec<TimeOfDay> {
    names.iter().map(|t| TimeOfDay(t.to_string())).collect()
}

fn payload(user_id: i64, start: i32, end: i32, t: &[&str]) -> AddUnavailabilityPayload {
    AddUnavailabilityPayload {
        user_id,
        start_date: Day { n: start },
        end_date: Day { n: end },
        times_of_day: tags(t),
    }
}

fn users() -> Vec<User> {
    vec![
        User { id: 1, name: "Ann".to_string() },
        User { id: 2, name: "Bob".to_string() },
    ]
}

fn details(table: &SlotTable, event_id: i64) -> Vec<UnavailabilityEntry> {
    let rows = table.rows_for_event(event_id, &users());
    get_event_unavailability_details(&rows)
}

fn entry<'a>(d: &'a [UnavailabilityEntry], label: &str, tag: &str) -> Option<&'a UnavailabilityEntry> {
    d.iter().find(|e| e.label == label && e.time_of_day.0 == tag)
}

fn add(table: &mut SlotTable, event_id: i64, p: &AddUnavailabilityPayload) {
    let ops = add_event_unavailability(true, Some(event_id), p).unwrap();
    table.execute_all(&ops);
}

fn remove(table: &mut SlotTable, event_id: i64, p: &AddUnavailabilityPayload) {
    let ops = remove_event_unavailability(true, Some(event_id), p).unwrap();
    table.execute_all(&ops);
}

#[test]
fn empty_range_expands_to_nothing() {
    let slots = expand_range(7, 1, Day { n: 20 }, Day { n: 19 }, &tags(&["morning"]));
    assert!(slots.is_empty());
    let ops = add_event_unavailability(true, Some(7), &payload(1, 20, 19, &["morning"])).unwrap();
    assert!(ops.is_empty());
    let ops = remove_event_unavailability(true, Some(7), &payload(1, 20, 19, &["morning"])).unwrap();
    assert!(ops.is_empty());
    let mut table = SlotTable::new();
    add(&mut table, 7, &payload(1, 20, 19, &["morning"]));
    assert!(details(&table, 7).is_empty());
}

#[test]
fn expansion_is_day_major_in_tag_order() {
    let slots = expand_range(3, 4, Day { n: 100 }, Day { n: 101 }, &tags(&["evening", "morning"]));
    let got: Vec<(i32, String)> = slots.iter().map(|s| (s.day.n, s.time_of_day.0.clone())).collect();
    assert_eq!(
        got,
        vec![
            (100, "evening".to_string()),
            (100, "morning".to_string()),
            (101, "evening".to_string()),
            (101, "morning".to_string()),
        ]
    );
    assert!(slots.iter().all(|s| s.event_id == 3 && s.user_id == 4));
}

#[test]
fn expansion_keeps_repeated_tags() {
    let slots = expand_range(1, 1, Day { n: 5 }, Day { n: 5 }, &tags(&["noon", "noon"]));
    assert_eq!(slots.len(), 2);
    let mut table = SlotTable::new();
    add(&mut table, 1, &payload(1, 5, 5, &["noon", "noon"]));
    let rows = table.rows_for_event(1, &users());
    assert_eq!(rows.len(), 1);
}

#[test]
fn single_day_range_with_no_tags_is_empty() {
    let slots = expand_range(1, 1, Day { n: 5 }, Day { n: 9 }, &Vec::new());
    assert!(slots.is_empty());
}

#[test]
fn add_twice_equals_add_once() {
    let p = payload(1, JULY_10, JULY_10 + 1, &["morning", "evening"]);
    let mut once = SlotTable::new();
    add(&mut once, 1, &p);
    let mut twice = SlotTable::new();
    add(&mut twice, 1, &p);
    add(&mut twice, 1, &p);
    assert_eq!(details(&once, 1), details(&twice, 1));
    assert_eq!(twice.rows_for_event(1, &users()).len(), 4);
}

#[test]
fn removing_absent_slots_succeeds() {
    let mut table = SlotTable::new();
    add(&mut table, 1, &payload(2, JULY_10, JULY_10, &["morning"]));
    let before = details(&table, 1);
    let ops = remove_event_unavailability(true, Some(1), &payload(1, JULY_10, JULY_10 + 3, &["evening"]));
    assert!(ops.is_ok());
    table.execute_all(&ops.unwrap());
    assert_eq!(details(&table, 1), before);
}

#[test]
fn clear_removes_user_everywhere_in_event() {
    let mut table = SlotTable::new();
    add(&mut table, 1, &payload(1, JULY_10, JULY_10 + 2, &["morning", "evening"]));
    add(&mut table, 1, &payload(2, JULY_10, JULY_10, &["morning"]));
    add(&mut table, 2, &payload(1, JULY_10, JULY_10, &["morning"]));
    let op = clear_my_unavailabilities_handler(true, Some(1), ClearPayload { user_id: 1 }).unwrap();
    assert_eq!(op, SlotOp::ClearUser { event_id: 1, user_id: 1 });
    table.execute(&op);
    let d = details(&table, 1);
    assert_eq!(d.len(), 1);
    assert_eq!(entry(&d, "2025-07-10", "morning").unwrap().names, "Bob");
    assert!(d.iter().all(|e| !e.names.split(',').any(|n| n == "Ann")));
    // the other event keeps Ann
    assert_eq!(entry(&details(&table, 2), "2025-07-10", "morning").unwrap().names, "Ann");
}

#[test]
fn add_then_remove_round_trip() {
    let mut table = SlotTable::new();
    let p = payload(1, JULY_10, JULY_10, &["afternoon"]);
    add(&mut table, 1, &p);
    let d = details(&table, 1);
    assert_eq!(entry(&d, "2025-07-10", "afternoon").unwrap().names, "Ann");
    remove(&mut table, 1, &p);
    let d = details(&table, 1);
    assert!(entry(&d, "2025-07-10", "afternoon").is_none());
    assert!(d.is_empty());
}

#[test]
fn two_users_same_range_scenario() {
    let mut table = SlotTable::new();
    add(&mut table, 1, &payload(1, JULY_10, JULY_10 + 2, &["morning"]));
    let d = details(&table, 1);
    assert_eq!(d.len(), 3);
    for label in ["2025-07-10", "2025-07-11", "2025-07-12"] {
        assert_eq!(entry(&d, label, "morning").unwrap().names, "Ann");
    }
    add(&mut table, 1, &payload(2, JULY_10, JULY_10 + 2, &["morning"]));
    let d = details(&table, 1);
    assert_eq!(d.len(), 3);
    for label in ["2025-07-10", "2025-07-11", "2025-07-12"] {
        let mut names: Vec<&str> = entry(&d, label, "morning").unwrap().names.split(',').collect();
        names.sort();
        assert_eq!(names, vec!["Ann", "Bob"]);
    }
}

#[test]
fn aggregate_joins_names_per_bucket() {
    let row = |n: i32, t: &str, name: &str| UnavailabilityRow {
        day: Day { n },
        time_of_day: TimeOfDay(t.to_string()),
        name: name.to_string(),
    };
    let rows = vec![
        row(JULY_10, "morning", "Ann"),
        row(JULY_10, "evening", "Ann"),
        row(JULY_10, "morning", "Bob"),
        row(JULY_10 + 1, "morning", "Cid"),
        row(JULY_10, "morning", "Cid"),
    ];
    let d = get_event_unavailability_details(&rows);
    assert_eq!(d.len(), 3);
    let m = entry(&d, "2025-07-10", "morning").unwrap();
    assert_eq!(m.names, "Ann,Bob,Cid");
    assert_eq!(m.day, Day { n: JULY_10 });
    assert_eq!(entry(&d, "2025-07-10", "evening").unwrap().names, "Ann");
    assert_eq!(entry(&d, "2025-07-11", "morning").unwrap().names, "Cid");
    assert!(get_event_unavailability_details(&Vec::new()).is_empty());
}

#[test]
fn rows_skip_unknown_users_and_other_events() {
    let mut table = SlotTable::new();
    add(&mut table, 1, &payload(9, JULY_10, JULY_10, &["morning"]));
    add(&mut table, 2, &payload(1, JULY_10, JULY_10, &["morning"]));
    assert!(table.rows_for_event(1, &users()).is_empty());
    let rows = table.rows_for_event(2, &users());
    assert_eq!(rows.len(), 1);
    assert_eq!(rows[0].name, "Ann");
}

#[test]
fn table_insert_delete_contains() {
    let mut table = SlotTable::new();
    let slot = expand_range(1, 1, Day { n: 4 }, Day { n: 4 }, &tags(&["x"])).remove(0);
    assert!(!table.contains(&slot));
    table.execute(&SlotOp::InsertIfAbsent(slot.clone()));
    assert!(table.contains(&slot));
    table.execute(&SlotOp::InsertIfAbsent(slot.clone()));
    table.execute(&SlotOp::Delete(slot.clone()));
    assert!(!table.contains(&slot));
}
