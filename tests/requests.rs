use unavailability::calendar::Day;
use unavailability::db::{
    add_unavailability, clear_user_unavailabilities, create_event, remove_unavailability, seed_event,
    PUBLIC_ID_LEN,
};
use unavailability::slots::SlotOp;
use unavailability::error::AppError;
use unavailability::handlers::{
    add_event_unavailability, clear_my_unavailabilities_handler, get_event_details, login_or_register_user,
    login_registered, remove_event_unavailability, require_event, resolve_event, validate_user_exists,
    AddUnavailabilityPayload, ClearPayload, LoginStatus, LoginStep, UserPayload,
};
use unavailability::aggregate::UnavailabilityRow;
use unavailability::models::{Event, TimeOfDay, User};

const USER_MISSING: &str = "Uzytkownik o podanym ID nie istnieje.";
const EVENT_MISSING: &str = "nie ma takiego wydarzenia";

fn payload() -> AddUnavailabilityPayload {
    AddUnavailabilityPayload {
        user_id: 1,
        start_date: Day { n: 739442 },
        end_date: Day { n: 739444 },
        times_of_day: vec![TimeOfDay("morning".to_string())],
    }
}

fn event() -> Event {
    Event {
        id: 4,
        public_id: "abcdefghij".to_string(),
        name: "grill".to_string(),
        description: None,
        earliest: Day { n: 739437 },
        latest: Day { n: 739524 },
        created_at: 0,
    }
}

#[test]
fn unknown_event_is_not_found_for_every_mutation() {
    let nf = AppError::NotFound(EVENT_MISSING.to_string());
    assert_eq!(add_event_unavailability(true, None, &payload()).unwrap_err(), nf);
    assert_eq!(remove_event_unavailability(true, None, &payload()).unwrap_err(), nf);
    assert_eq!(
        clear_my_unavailabilities_handler(true, None, ClearPayload { user_id: 1 }).unwrap_err(),
        nf
    );
    assert_eq!(resolve_event(None).unwrap_err(), nf);
    assert_eq!(require_event(None).unwrap_err(), nf);
}

#[test]
fn unknown_user_is_not_found_first() {
    let nf = AppError::NotFound(USER_MISSING.to_string());
    assert_eq!(add_event_unavailability(false, Some(4), &payload()).unwrap_err(), nf);
    assert_eq!(add_event_unavailability(false, None, &payload()).unwrap_err(), nf);
    assert_eq!(remove_event_unavailability(false, Some(4), &payload()).unwrap_err(), nf);
    assert_eq!(
        clear_my_unavailabilities_handler(false, Some(4), ClearPayload { user_id: 1 }).unwrap_err(),
        nf
    );
    assert_eq!(validate_user_exists(false).unwrap_err(), nf);
    assert_eq!(validate_user_exists(true), Ok(()));
}

#[test]
fn known_event_resolves() {
    assert_eq!(resolve_event(Some(12)), Ok(12));
    assert_eq!(require_event(Some(event())), Ok(event()));
    let ops = add_event_unavailability(true, Some(4), &payload()).unwrap();
    assert_eq!(ops.len(), 3);
    assert!(matches!(&ops[0], SlotOp::InsertIfAbsent(s) if s.event_id == 4 && s.day.n == 739442));
    let ops = remove_event_unavailability(true, Some(4), &payload()).unwrap();
    assert!(matches!(&ops[2], SlotOp::Delete(s) if s.day.n == 739444));
}

#[test]
fn error_responses() {
    assert_eq!(
        AppError::StorageFault("disk I/O error".to_string()).into_response(),
        (500, "blad serwera".to_string())
    );
    assert_eq!(AppError::NotFound("gone".to_string()).into_response(), (404, "gone".to_string()));
    assert_eq!(AppError::BadRequest("bad date".to_string()).into_response(), (400, "bad date".to_string()));
}

#[test]
fn login_existing_and_new() {
    let ann = User { id: 1, name: "Ann".to_string() };
    let p = UserPayload { name: "Ann".to_string() };
    match login_or_register_user(&p, Some(ann.clone())) {
        LoginStep::Respond(r) => {
            assert_eq!(r.status, LoginStatus::Exists);
            assert_eq!(r.user, ann);
        }
        LoginStep::Register(_) => panic!("an existing user was registered again"),
    }
    let p = UserPayload { name: "Zoe".to_string() };
    assert_eq!(login_or_register_user(&p, None), LoginStep::Register("Zoe".to_string()));
    let r = login_registered(User { id: 7, name: "Zoe".to_string() });
    assert_eq!(r.status, LoginStatus::Created);
    assert_eq!(r.user.id, 7);
}

#[test]
fn created_event_gets_a_fresh_public_id() {
    let a = create_event("party", Some("bring food".to_string()), Day { n: 10 }, Day { n: 12 });
    assert_eq!(a.public_id.chars().count(), PUBLIC_ID_LEN);
    assert_eq!(a.name, "party");
    assert_eq!(a.description, Some("bring food".to_string()));
    assert_eq!((a.earliest.n, a.latest.n), (10, 12));
    let b = create_event("party", None, Day { n: 10 }, Day { n: 12 });
    assert_ne!(a.public_id, b.public_id);
    assert!(b.public_id.chars().all(|c| c.is_ascii_alphanumeric() || c == '_' || c == '-'));
}

#[test]
fn seed_only_into_an_empty_store() {
    assert!(seed_event(3).is_none());
    let e = seed_event(0).unwrap();
    assert_eq!(e.name, "grill u Janka");
    assert_eq!(e.description, Some("witam".to_string()));
    assert_eq!(e.earliest.label(), "2025-07-05");
    assert_eq!(e.latest.label(), "2025-09-30");
}

#[test]
fn day_labels_are_iso() {
    assert_eq!(Day { n: 1 }.label(), "0001-01-01");
    assert_eq!(Day { n: 739442 }.label(), "2025-07-10");
    assert_eq!(Day { n: 3652059 }.label(), "9999-12-31");
}

#[test]
fn event_details_carry_event_and_aggregate() {
    let rows = vec![UnavailabilityRow {
        day: Day { n: 739442 },
        time_of_day: TimeOfDay("morning".to_string()),
        name: "Ann".to_string(),
    }];
    let d = get_event_details(event(), &rows);
    assert_eq!(d.event, event());
    assert_eq!(d.unavailability_details.len(), 1);
    assert_eq!(d.unavailability_details[0].label, "2025-07-10");
    assert_eq!(d.unavailability_details[0].names, "Ann");
}

#[test]
fn create_event_handler_keeps_the_request() {
    let p = unavailability::handlers::CreateEventPayload {
        name: "hike".to_string(),
        description: None,
        earliest: Day { n: 739437 },
        latest: Day { n: 739440 },
    };
    let e = unavailability::handlers::create_event_handler(p);
    assert_eq!(e.name, "hike");
    assert_eq!(e.description, None);
    assert_eq!((e.earliest.n, e.latest.n), (739437, 739440));
    assert_eq!(e.public_id.len(), PUBLIC_ID_LEN);
}

#[test]
fn unit_of_work_builders() {
    let t = vec![TimeOfDay("morning".to_string()), TimeOfDay("evening".to_string())];
    let ops = add_unavailability(2, 3, Day { n: 10 }, Day { n: 11 }, &t);
    assert_eq!(ops.len(), 4);
    match &ops[1] {
        SlotOp::InsertIfAbsent(s) => {
            assert_eq!((s.event_id, s.user_id, s.day.n), (2, 3, 10));
            assert_eq!(s.time_of_day.0, "evening");
        }
        other => panic!("unexpected statement {:?}", other),
    }
    let ops = remove_unavailability(2, 3, Day { n: 11 }, Day { n: 11 }, &t);
    assert_eq!(ops.len(), 2);
    assert!(ops.iter().all(|o| matches!(o, SlotOp::Delete(s) if s.day.n == 11)));
    assert!(remove_unavailability(2, 3, Day { n: 12 }, Day { n: 11 }, &t).is_empty());
    assert_eq!(clear_user_unavailabilities(2, 3), SlotOp::ClearUser { event_id: 2, user_id: 3 });
}
