use vstd::prelude::*;
use vstd::string::StringExecFns;

use crate::calendar::Day;
use crate::models::{NewEvent, TimeOfDay};
use crate::slots::{
    Slot, SlotOp, actions_of, delete_actions, expand_range, insert_actions, range_slots,
    slot_keys, tags_of,
};

verus! {

/// The length of a public event id.
pub const PUBLIC_ID_LEN: usize = 10;

/// Relies on `nanoid::format` with nanoid's default random source and its
/// `SAFE` alphabet (64 one-byte symbols), which returns exactly `size`
/// symbols.
#[verifier::external_body]
fn random_public_id() -> (r: String)
    ensures
        r@.len() == PUBLIC_ID_LEN,
{
    nanoid::format(nanoid::rngs::default, &nanoid::alphabet::SAFE, PUBLIC_ID_LEN)
}

/// Prepares an event for storage under a fresh random public id. The range
/// is stored as given: `earliest <= latest` is the caller's concern.
pub fn create_event(name: &str, description: Option<String>, earliest: Day, latest: Day) -> (r: NewEvent)
    ensures
        r.public_id@.len() == PUBLIC_ID_LEN,
        r.name@ == name@,
        r.description == description,
        r.earliest == earliest,
        r.latest == latest,
{
    NewEvent {
        public_id: random_public_id(),
        name: String::from_str(name),
        description,
        earliest,
        latest,
    }
}

/// Day 2025-07-05.
pub const SEED_EARLIEST: i32 = 739437;

/// Day 2025-09-30.
pub const SEED_LATEST: i32 = 739524;

/// The event that an empty store is seeded with, if the store holds
/// `event_count` events: one only when it holds none.
pub fn seed_event(event_count: i64) -> (r: Option<NewEvent>)
    ensures
        event_count != 0 ==> r is None,
        event_count == 0 ==> (r matches Some(e) && e.name@ == "grill u Janka"@
            && (e.description matches Some(d) && d@ == "witam"@) && e.earliest.n
            == SEED_EARLIEST && e.latest.n == SEED_LATEST && e.public_id@.len() == PUBLIC_ID_LEN),
{
    if event_count != 0 {
        return None;
    }
    Some(
        create_event(
            "grill u Janka",
            Some(String::from_str("witam")),
            Day { n: SEED_EARLIEST },
            Day { n: SEED_LATEST },
        ),
    )
}

fn copy_slot(s: &Slot) -> (r: Slot)
    ensures
        r@ == s@,
{
    Slot {
        event_id: s.event_id,
        user_id: s.user_id,
        day: s.day,
        time_of_day: TimeOfDay(s.time_of_day.0.clone()),
    }
}

/// One statement per slot, inserting or deleting it.
fn statements(slots: &Vec<Slot>, insert: bool) -> (r: Vec<SlotOp>)
    ensures
        insert ==> actions_of(r@) == insert_actions(slot_keys(slots@)),
        !insert ==> actions_of(r@) == delete_actions(slot_keys(slots@)),
{
    let mut out: Vec<SlotOp> = Vec::new();
    let mut i: usize = 0;
    while i < slots.len()
        invariant
            i <= slots@.len(),
            insert ==> actions_of(out@) == insert_actions(slot_keys(slots@)).take(i as int),
            !insert ==> actions_of(out@) == delete_actions(slot_keys(slots@)).take(i as int),
        decreases slots@.len() - i,
    {
        let s = copy_slot(&slots[i]);
        let ghost prev = out@;
        if insert {
            out.push(SlotOp::InsertIfAbsent(s));
        } else {
            out.push(SlotOp::Delete(s));
        }
        proof {
            assert(actions_of(out@) =~= actions_of(prev).push(out@[i as int]@));
            assert(insert_actions(slot_keys(slots@)).take(i + 1) =~= insert_actions(
                slot_keys(slots@),
            ).take(i as int).push(insert_actions(slot_keys(slots@))[i as int]));
            assert(delete_actions(slot_keys(slots@)).take(i + 1) =~= delete_actions(
                slot_keys(slots@),
            ).take(i as int).push(delete_actions(slot_keys(slots@))[i as int]));
        }
        i = i + 1;
    }
    proof {
        assert(insert_actions(slot_keys(slots@)).take(i as int) =~= insert_actions(
            slot_keys(slots@),
        ));
        assert(delete_actions(slot_keys(slots@)).take(i as int) =~= delete_actions(
            slot_keys(slots@),
        ));
    }
    out
}

/// The unit of work that records a user unavailable over `[start_date,
/// end_date] x times_of_day` in an event: an insert-if-absent per slot of the
/// expansion, in its order.
pub fn add_unavailability(
    event_id: i64,
    user_id: i64,
    start_date: Day,
    end_date: Day,
    times_of_day: &Vec<TimeOfDay>,
) -> (r: Vec<SlotOp>)
    ensures
        actions_of(r@) == insert_actions(
            range_slots(
                event_id as int,
                user_id as int,
                start_date.n as int,
                end_date.n as int,
                tags_of(times_of_day@),
            ),
        ),
{
    let slots = expand_range(event_id, user_id, start_date, end_date, times_of_day);
    statements(&slots, true)
}

/// The unit of work that makes a user available again over `[start_date,
/// end_date] x times_of_day` in an event: a delete per slot of the expansion.
pub fn remove_unavailability(
    event_id: i64,
    user_id: i64,
    start_date: Day,
    end_date: Day,
    times_of_day: &Vec<TimeOfDay>,
) -> (r: Vec<SlotOp>)
    ensures
        actions_of(r@) == delete_actions(
            range_slots(
                event_id as int,
                user_id as int,
                start_date.n as int,
                end_date.n as int,
                tags_of(times_of_day@),
            ),
        ),
{
    let slots = expand_range(event_id, user_id, start_date, end_date, times_of_day);
    statements(&slots, false)
}

/// The statement that deletes every slot of a user within an event.
pub fn clear_user_unavailabilities(event_id: i64, user_id: i64) -> (r: SlotOp)
    ensures
        r == (SlotOp::ClearUser { event_id, user_id }),
{
    SlotOp::ClearUser { event_id, user_id }
}

} // verus!
