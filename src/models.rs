use vstd::prelude::*;

use crate::calendar::Day;

verus! {

/// A registered participant: a store-assigned identity and a unique name.
#[derive(Clone, Debug, PartialEq, Eq)]
pub struct User {
    pub id: i64,
    pub name: String,
}

/// A free-form time-of-day tag ("morning", "evening", ...).
#[derive(Clone, Debug, PartialEq, Eq, Hash)]
pub struct TimeOfDay(pub String);

impl View for TimeOfDay {
    type V = Seq<char>;

    open spec fn view(&self) -> Seq<char> {
        self.0@
    }
}

/// A schedulable event. `public_id` addresses it from outside; `id` is the
/// store's own identity. `created_at` counts seconds since the Unix epoch
/// and only orders listings.
#[derive(Clone, Debug, PartialEq, Eq)]
pub struct Event {
    pub id: i64,
    pub public_id: String,
    pub name: String,
    pub description: Option<String>,
    pub earliest: Day,
    pub latest: Day,
    pub created_at: i64,
}

/// An event about to be stored: everything but what the store assigns.
#[derive(Clone, Debug, PartialEq, Eq)]
pub struct NewEvent {
    pub public_id: String,
    pub name: String,
    pub description: Option<String>,
    pub earliest: Day,
    pub latest: Day,
}

} // verus!
