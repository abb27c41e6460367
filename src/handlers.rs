use vstd::prelude::*;
use vstd::string::StringExecFns;

use crate::aggregate::{
    UnavailabilityEntry, UnavailabilityRow, covers, distinct_buckets, entry_of,
    get_event_unavailability_details,
};
use crate::calendar::{Day, has_iso_label};
use crate::db::{
    PUBLIC_ID_LEN, add_unavailability, clear_user_unavailabilities, create_event,
    remove_unavailability,
};
use crate::error::AppError;
use crate::models::{Event, NewEvent, TimeOfDay, User};
use crate::slots::{SlotOp, actions_of, delete_actions, insert_actions, range_slots, tags_of};

verus! {

/// A login request: the display name to look up or register.
#[derive(Clone, Debug, PartialEq, Eq)]
pub struct UserPayload {
    pub name: String,
}

/// Whether a login found its user or registered it.
#[derive(Clone, Copy, Debug, PartialEq, Eq, Structural)]
pub enum LoginStatus {
    Exists,
    Created,
}

#[derive(Clone, Debug, PartialEq, Eq)]
pub struct LoginResponse {
    pub status: LoginStatus,
    pub user: User,
}

/// What a login does next.
#[derive(Clone, Debug, PartialEq, Eq)]
pub enum LoginStep {
    /// Answer at once.
    Respond(LoginResponse),
    /// Register a user of this name, then answer with `login_registered`.
    Register(String),
}

/// A request to add or remove slots: the inclusive day range crossed with
/// the tags.
#[derive(Clone, Debug, PartialEq, Eq)]
pub struct AddUnavailabilityPayload {
    pub user_id: i64,
    pub start_date: Day,
    pub end_date: Day,
    pub times_of_day: Vec<TimeOfDay>,
}

/// A request to clear all of one user's slots in an event.
#[derive(Clone, Copy, Debug, PartialEq, Eq, Structural)]
pub struct ClearPayload {
    pub user_id: i64,
}

/// A request to create an event.
#[derive(Clone, Debug, PartialEq, Eq)]
pub struct CreateEventPayload {
    pub name: String,
    pub description: Option<String>,
    pub earliest: Day,
    pub latest: Day,
}

/// An event with its aggregate: one entry per (day, tag) bucket that holds
/// at least one unavailable user.
#[derive(Clone, Debug, PartialEq, Eq)]
pub struct EventDetails {
    pub event: Event,
    pub unavailability_details: Vec<UnavailabilityEntry>,
}

pub open spec fn user_not_found(r: AppError) -> bool {
    r matches AppError::NotFound(m) && m@ == "Uzytkownik o podanym ID nie istnieje."@
}

pub open spec fn event_not_found(r: AppError) -> bool {
    r matches AppError::NotFound(m) && m@ == "nie ma takiego wydarzenia"@
}

/// Fails with `NotFound` unless the referenced user exists.
pub fn validate_user_exists(user_found: bool) -> (r: Result<(), AppError>)
    ensures
        user_found <==> r is Ok,
        r matches Err(e) ==> user_not_found(e),
{
    if user_found {
        Ok(())
    } else {
        Err(AppError::NotFound(String::from_str("Uzytkownik o podanym ID nie istnieje.")))
    }
}

/// The store identity of the event that a public id resolved to, or
/// `NotFound` when it resolved to none.
pub fn resolve_event(event_id: Option<i64>) -> (r: Result<i64, AppError>)
    ensures
        event_id matches Some(id) ==> r == Ok::<i64, AppError>(id),
        event_id is None ==> (r matches Err(e) && event_not_found(e)),
{
    match event_id {
        Some(id) => Ok(id),
        None => Err(AppError::NotFound(String::from_str("nie ma takiego wydarzenia"))),
    }
}

/// The event that a public id resolved to, or `NotFound`.
pub fn require_event(event: Option<Event>) -> (r: Result<Event, AppError>)
    ensures
        event matches Some(ev) ==> r == Ok::<Event, AppError>(ev),
        event is None ==> (r matches Err(e) && event_not_found(e)),
{
    match event {
        Some(ev) => Ok(ev),
        None => Err(AppError::NotFound(String::from_str("nie ma takiego wydarzenia"))),
    }
}

/// Starts a login with the user found under the payload's name, if any: an
/// existing user is answered with `Exists`; an unknown name is registered.
pub fn login_or_register_user(payload: &UserPayload, found: Option<User>) -> (r: LoginStep)
    ensures
        found matches Some(u) ==> r == LoginStep::Respond(
            LoginResponse { status: LoginStatus::Exists, user: u },
        ),
        found is None ==> (r matches LoginStep::Register(n) && n@ == payload.name@),
{
    match found {
        Some(user) => LoginStep::Respond(LoginResponse { status: LoginStatus::Exists, user }),
        None => LoginStep::Register(payload.name.clone()),
    }
}

/// Finishes a login that registered `user`.
pub fn login_registered(user: User) -> (r: LoginResponse)
    ensures
        r == (LoginResponse { status: LoginStatus::Created, user }),
{
    LoginResponse { status: LoginStatus::Created, user }
}

/// The unit of work that marks a user unavailable over a range in an event:
/// after the user and the event were looked up, an insert-if-absent for
/// every (day, tag) of the range. An unknown user or event gives `NotFound`
/// and no statement.
pub fn add_event_unavailability(
    user_found: bool,
    event_id: Option<i64>,
    payload: &AddUnavailabilityPayload,
) -> (r: Result<Vec<SlotOp>, AppError>)
    ensures
        !user_found ==> (r matches Err(e) && user_not_found(e)),
        user_found && event_id is None ==> (r matches Err(e) && event_not_found(e)),
        user_found && event_id is Some ==> (r matches Ok(ops) && actions_of(ops@) == insert_actions(
            range_slots(
                event_id->0 as int,
                payload.user_id as int,
                payload.start_date.n as int,
                payload.end_date.n as int,
                tags_of(payload.times_of_day@),
            ),
        )),
{
    match validate_user_exists(user_found) {
        Err(e) => {
            return Err(e);
        },
        Ok(()) => {},
    }
    let event = match resolve_event(event_id) {
        Err(e) => {
            return Err(e);
        },
        Ok(id) => id,
    };
    Ok(
        add_unavailability(
            event,
            payload.user_id,
            payload.start_date,
            payload.end_date,
            &payload.times_of_day,
        ),
    )
}

/// The unit of work that marks a user available again over a range: a
/// delete for every (day, tag) of the range; absent slots are no error. An
/// unknown user or event gives `NotFound` and no statement.
pub fn remove_event_unavailability(
    user_found: bool,
    event_id: Option<i64>,
    payload: &AddUnavailabilityPayload,
) -> (r: Result<Vec<SlotOp>, AppError>)
    ensures
        !user_found ==> (r matches Err(e) && user_not_found(e)),
        user_found && event_id is None ==> (r matches Err(e) && event_not_found(e)),
        user_found && event_id is Some ==> (r matches Ok(ops) && actions_of(ops@) == delete_actions(
            range_slots(
                event_id->0 as int,
                payload.user_id as int,
                payload.start_date.n as int,
                payload.end_date.n as int,
                tags_of(payload.times_of_day@),
            ),
        )),
{
    match validate_user_exists(user_found) {
        Err(e) => {
            return Err(e);
        },
        Ok(()) => {},
    }
    let event = match resolve_event(event_id) {
        Err(e) => {
            return Err(e);
        },
        Ok(id) => id,
    };
    Ok(
        remove_unavailability(
            event,
            payload.user_id,
            payload.start_date,
            payload.end_date,
            &payload.times_of_day,
        ),
    )
}

/// The statement that clears a user's whole selection in an event. An
/// unknown user or event gives `NotFound` and no statement.
pub fn clear_my_unavailabilities_handler(
    user_found: bool,
    event_id: Option<i64>,
    payload: ClearPayload,
) -> (r: Result<SlotOp, AppError>)
    ensures
        !user_found ==> (r matches Err(e) && user_not_found(e)),
        user_found && event_id is None ==> (r matches Err(e) && event_not_found(e)),
        user_found && event_id is Some ==> r == Ok::<SlotOp, AppError>(
            SlotOp::ClearUser { event_id: event_id->0, user_id: payload.user_id },
        ),
{
    match validate_user_exists(user_found) {
        Err(e) => {
            return Err(e);
        },
        Ok(()) => {},
    }
    let event = match resolve_event(event_id) {
        Err(e) => {
            return Err(e);
        },
        Ok(id) => id,
    };
    Ok(clear_user_unavailabilities(event, payload.user_id))
}

/// An event with the aggregate of the rows that the store reported for it.
pub fn get_event_details(event: Event, rows: &Vec<UnavailabilityRow>) -> (r: EventDetails)
    requires
        forall|m: int| 0 <= m < rows@.len() ==> has_iso_label(#[trigger] rows@[m].day),
    ensures
        r.event == event,
        distinct_buckets(r.unavailability_details@),
        forall|i: int|
            0 <= i < r.unavailability_details@.len() ==> entry_of(
                #[trigger] r.unavailability_details@[i],
                rows@,
            ),
        covers(r.unavailability_details@, rows@),
{
    let unavailability_details = get_event_unavailability_details(rows);
    EventDetails { event, unavailability_details }
}

/// The event that a creation request stores, under a fresh public id.
pub fn create_event_handler(payload: CreateEventPayload) -> (r: NewEvent)
    ensures
        r.public_id@.len() == PUBLIC_ID_LEN,
        r.name@ == payload.name@,
        r.description == payload.description,
        r.earliest == payload.earliest,
        r.latest == payload.latest,
{
    create_event(payload.name.as_str(), payload.description, payload.earliest, payload.latest)
}

} // verus!
