use vstd::prelude::*;

use crate::calendar::Day;
use crate::models::TimeOfDay;

verus! {

/// One recorded unavailability: this user cannot attend this event on this
/// day during this time-of-day bucket.
#[derive(Clone, Debug, PartialEq, Eq)]
pub struct Slot {
    pub event_id: i64,
    pub user_id: i64,
    pub day: Day,
    pub time_of_day: TimeOfDay,
}

/// The mathematical value of a slot: the four parts of its composite key.
pub struct SlotKey {
    pub event_id: int,
    pub user_id: int,
    pub day: int,
    pub tag: Seq<char>,
}

impl View for Slot {
    type V = SlotKey;

    open spec fn view(&self) -> SlotKey {
        SlotKey {
            event_id: self.event_id as int,
            user_id: self.user_id as int,
            day: self.day.n as int,
            tag: self.time_of_day@,
        }
    }
}

pub open spec fn slot_keys(s: Seq<Slot>) -> Seq<SlotKey> {
    s.map_values(|x: Slot| x@)
}

pub open spec fn tags_of(t: Seq<TimeOfDay>) -> Seq<Seq<char>> {
    t.map_values(|x: TimeOfDay| x@)
}

/// The slots of one day, one per requested tag, in the order of the tags.
pub open spec fn day_slots(event_id: int, user_id: int, day: int, tags: Seq<Seq<char>>) -> Seq<SlotKey> {
    tags.map_values(|t: Seq<char>| SlotKey { event_id, user_id, day, tag: t })
}

/// The expansion of the inclusive day range `[start, end]` crossed with the
/// tags, day-major; empty when `start > end`.
pub open spec fn range_slots(
    event_id: int,
    user_id: int,
    start: int,
    end: int,
    tags: Seq<Seq<char>>,
) -> Seq<SlotKey>
    decreases end - start + 1,
{
    if end < start {
        Seq::empty()
    } else {
        range_slots(event_id, user_id, start, end - 1, tags) + day_slots(event_id, user_id, end, tags)
    }
}

/// One statement against the unavailability relation.
#[derive(Clone, Debug, PartialEq, Eq)]
pub enum SlotOp {
    /// Records the slot unless it is already there.
    InsertIfAbsent(Slot),
    /// Deletes the slot if it is there.
    Delete(Slot),
    /// Deletes every slot of one user within one event.
    ClearUser { event_id: i64, user_id: i64 },
}

/// The mathematical value of a statement.
pub enum SlotAction {
    Insert(SlotKey),
    Delete(SlotKey),
    Clear { event_id: int, user_id: int },
}

impl View for SlotOp {
    type V = SlotAction;

    open spec fn view(&self) -> SlotAction {
        match self {
            SlotOp::InsertIfAbsent(s) => SlotAction::Insert(s@),
            SlotOp::Delete(s) => SlotAction::Delete(s@),
            SlotOp::ClearUser { event_id, user_id } => SlotAction::Clear {
                event_id: *event_id as int,
                user_id: *user_id as int,
            },
        }
    }
}

pub open spec fn actions_of(ops: Seq<SlotOp>) -> Seq<SlotAction> {
    ops.map_values(|o: SlotOp| o@)
}

/// Whether a slot belongs to another (event, user) pair.
pub open spec fn outside_pair(k: SlotKey, event_id: int, user_id: int) -> bool {
    !(k.event_id == event_id && k.user_id == user_id)
}

/// The relation after one statement: set semantics, so that an insert of a
/// present slot and a delete of an absent one change nothing.
pub open spec fn apply(s: Set<SlotKey>, a: SlotAction) -> Set<SlotKey> {
    match a {
        SlotAction::Insert(k) => s.insert(k),
        SlotAction::Delete(k) => s.remove(k),
        SlotAction::Clear { event_id, user_id } => s.filter(
            |k: SlotKey| outside_pair(k, event_id, user_id),
        ),
    }
}

/// The relation after a unit of work, its statements applied in order.
pub open spec fn apply_all(s: Set<SlotKey>, acts: Seq<SlotAction>) -> Set<SlotKey>
    decreases acts.len(),
{
    if acts.len() == 0 {
        s
    } else {
        apply(apply_all(s, acts.drop_last()), acts.last())
    }
}

pub open spec fn insert_actions(ks: Seq<SlotKey>) -> Seq<SlotAction> {
    ks.map_values(|k: SlotKey| SlotAction::Insert(k))
}

pub open spec fn delete_actions(ks: Seq<SlotKey>) -> Seq<SlotAction> {
    ks.map_values(|k: SlotKey| SlotAction::Delete(k))
}

/// Inserting a sequence of slots adds exactly its members.
pub proof fn lemma_insert_all(s: Set<SlotKey>, ks: Seq<SlotKey>)
    ensures
        apply_all(s, insert_actions(ks)) == s + ks.to_set(),
    decreases ks.len(),
{
    if ks.len() == 0 {
        assert(ks.to_set() =~= Set::empty());
        assert(s + ks.to_set() =~= s);
    } else {
        let init = ks.drop_last();
        assert(insert_actions(ks).drop_last() =~= insert_actions(init));
        lemma_insert_all(s, init);
        assert(ks =~= init.push(ks.last()));
        init.lemma_push_to_set_commute(ks.last());
        assert(apply_all(s, insert_actions(ks)) =~= s + ks.to_set());
    }
}

/// Deleting a sequence of slots removes exactly its members.
pub proof fn lemma_delete_all(s: Set<SlotKey>, ks: Seq<SlotKey>)
    ensures
        apply_all(s, delete_actions(ks)) == s - ks.to_set(),
    decreases ks.len(),
{
    if ks.len() == 0 {
        assert(ks.to_set() =~= Set::empty());
        assert(s - ks.to_set() =~= s);
    } else {
        let init = ks.drop_last();
        assert(delete_actions(ks).drop_last() =~= delete_actions(init));
        lemma_delete_all(s, init);
        assert(ks =~= init.push(ks.last()));
        init.lemma_push_to_set_commute(ks.last());
        assert(apply_all(s, delete_actions(ks)) =~= s - ks.to_set());
    }
}

/// A range whose start lies after its end expands to nothing, so adding or
/// removing it leaves every relation as it was.
pub proof fn law_empty_range(
    s: Set<SlotKey>,
    event_id: int,
    user_id: int,
    start: int,
    end: int,
    tags: Seq<Seq<char>>,
)
    requires
        start > end,
    ensures
        range_slots(event_id, user_id, start, end, tags).len() == 0,
        insert_actions(range_slots(event_id, user_id, start, end, tags)).len() == 0,
        delete_actions(range_slots(event_id, user_id, start, end, tags)).len() == 0,
        apply_all(s, insert_actions(range_slots(event_id, user_id, start, end, tags))) == s,
        apply_all(s, delete_actions(range_slots(event_id, user_id, start, end, tags))) == s,
{
    let ks = range_slots(event_id, user_id, start, end, tags);
    assert(insert_actions(ks).len() == 0);
    assert(delete_actions(ks).len() == 0);
}

/// Adding the same slots twice leaves the relation that adding them once
/// leaves.
pub proof fn law_add_idempotent(s: Set<SlotKey>, ks: Seq<SlotKey>)
    ensures
        apply_all(apply_all(s, insert_actions(ks)), insert_actions(ks)) == apply_all(
            s,
            insert_actions(ks),
        ),
{
    lemma_insert_all(s, ks);
    lemma_insert_all(s + ks.to_set(), ks);
    assert(s + ks.to_set() + ks.to_set() =~= s + ks.to_set());
}

/// Removing slots none of which is recorded changes nothing.
pub proof fn law_remove_absent(s: Set<SlotKey>, ks: Seq<SlotKey>)
    requires
        forall|i: int| 0 <= i < ks.len() ==> !s.contains(#[trigger] ks[i]),
    ensures
        apply_all(s, delete_actions(ks)) == s,
{
    lemma_delete_all(s, ks);
    assert(s - ks.to_set() =~= s);
}

/// Expands `[start, end] x times_of_day` into the slots of one (event, user)
/// pair: each day with every tag, in the caller's tag order, before the next
/// day. Repeated tags are repeated; `start > end` gives nothing.
pub fn expand_range(
    event_id: i64,
    user_id: i64,
    start: Day,
    end: Day,
    times_of_day: &Vec<TimeOfDay>,
) -> (r: Vec<Slot>)
    ensures
        slot_keys(r@) == range_slots(
            event_id as int,
            user_id as int,
            start.n as int,
            end.n as int,
            tags_of(times_of_day@),
        ),
{
    let ghost tags = tags_of(times_of_day@);
    let mut out: Vec<Slot> = Vec::new();
    if start.n > end.n {
        return out;
    }
    let mut d: i32 = start.n;
    loop
        invariant
            start.n <= d <= end.n,
            tags == tags_of(times_of_day@),
            slot_keys(out@) == range_slots(event_id as int, user_id as int, start.n as int, d - 1, tags),
        decreases end.n - d,
    {
        let ghost before = out@;
        let mut j: usize = 0;
        while j < times_of_day.len()
            invariant
                0 <= j <= times_of_day.len(),
                tags == tags_of(times_of_day@),
                out@.len() == before.len() + j,
                slot_keys(out@) == slot_keys(before) + day_slots(
                    event_id as int,
                    user_id as int,
                    d as int,
                    tags,
                ).take(j as int),
            decreases times_of_day.len() - j,
        {
            let slot = Slot {
                event_id,
                user_id,
                day: Day { n: d },
                time_of_day: TimeOfDay(times_of_day[j].0.clone()),
            };
            let ghost prev = out@;
            out.push(slot);
            proof {
                assert(slot_keys(out@) =~= slot_keys(prev).push(out@[out@.len() - 1]@));
                assert(tags[j as int] == times_of_day@[j as int]@);
                assert(out@[out@.len() - 1]@ == day_slots(event_id as int, user_id as int, d as int, tags)[j as int]);
                assert(slot_keys(out@) =~= slot_keys(before) + day_slots(
                    event_id as int,
                    user_id as int,
                    d as int,
                    tags,
                ).take(j + 1));
            }
            j = j + 1;
        }
        proof {
            assert(day_slots(event_id as int, user_id as int, d as int, tags).take(j as int)
                =~= day_slots(event_id as int, user_id as int, d as int, tags));
        }
        if d == end.n {
            return out;
        }
        d = d + 1;
    }
}

} // verus!
