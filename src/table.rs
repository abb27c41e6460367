use vstd::prelude::*;

use crate::aggregate::{UnavailabilityRow, row_has_slot, rows_describe, slot_has_row};
use crate::models::{TimeOfDay, User};
use crate::slots::{Slot, SlotKey, SlotOp, actions_of, apply, apply_all, outside_pair};

verus! {

/// An in-memory unavailability relation: at most one row per
/// (event, user, day, tag).
pub struct SlotTable {
    slots: Vec<Slot>,
}

pub open spec fn distinct_keys(s: Seq<Slot>) -> bool {
    forall|i: int, j: int| 0 <= i < j < s.len() ==> (#[trigger] s[i])@ != (#[trigger] s[j])@
}

pub open spec fn key_set(s: Seq<Slot>) -> Set<SlotKey> {
    Set::new(|k: SlotKey| exists|i: int| 0 <= i < s.len() && (#[trigger] s[i])@ == k)
}

/// Each user's name, by identity.
pub open spec fn names_of(users: Seq<User>) -> Map<int, Seq<char>> {
    Map::new(
        |id: int| exists|i: int| 0 <= i < users.len() && (#[trigger] users[i]).id == id,
        |id: int| users[choose|i: int| 0 <= i < users.len() && (#[trigger] users[i]).id == id].name@,
    )
}

pub open spec fn distinct_ids(users: Seq<User>) -> bool {
    forall|i: int, j: int|
        0 <= i < j < users.len() ==> (#[trigger] users[i]).id != (#[trigger] users[j]).id
}

impl View for SlotTable {
    type V = Set<SlotKey>;

    closed spec fn view(&self) -> Set<SlotKey> {
        key_set(self.slots@)
    }
}

fn same_key(a: &Slot, b: &Slot) -> (r: bool)
    ensures
        r == (a@ == b@),
{
    a.event_id == b.event_id && a.user_id == b.user_id && a.day.n == b.day.n
        && a.time_of_day.0 == b.time_of_day.0
}

fn copy_slot(s: &Slot) -> (r: Slot)
    ensures
        r@ == s@,
{
    Slot {
        event_id: s.event_id,
        user_id: s.user_id,
        day: s.day,
        time_of_day: TimeOfDay(s.time_of_day.0.clone()),
    }
}

/// The index of the user with this identity, if any.
fn find_user(users: &Vec<User>, id: i64) -> (r: Option<usize>)
    ensures
        r matches Some(x) ==> x < users@.len() && users@[x as int].id == id,
        r is None ==> forall|x: int| 0 <= x < users@.len() ==> (#[trigger] users@[x]).id != id,
{
    let mut i: usize = 0;
    while i < users.len()
        invariant
            i <= users@.len(),
            forall|x: int| 0 <= x < i ==> (#[trigger] users@[x]).id != id,
        decreases users@.len() - i,
    {
        if users[i].id == id {
            return Some(i);
        }
        i = i + 1;
    }
    None
}

impl SlotTable {
    pub closed spec fn wf(&self) -> bool {
        distinct_keys(self.slots@)
    }

    pub fn new() -> (r: SlotTable)
        ensures
            r.wf(),
            r@ == Set::<SlotKey>::empty(),
    {
        let r = SlotTable { slots: Vec::new() };
        proof {
            assert(r@ =~= Set::<SlotKey>::empty());
        }
        r
    }

    fn position(&self, s: &Slot) -> (r: Option<usize>)
        ensures
            r matches Some(i) ==> i < self.slots@.len() && self.slots@[i as int]@ == s@,
            r is None ==> !self@.contains(s@),
    {
        let mut i: usize = 0;
        while i < self.slots.len()
            invariant
                i <= self.slots@.len(),
                forall|j: int| 0 <= j < i ==> (#[trigger] self.slots@[j])@ != s@,
            decreases self.slots@.len() - i,
        {
            if same_key(&self.slots[i], s) {
                return Some(i);
            }
            i = i + 1;
        }
        None
    }

    /// Whether the slot is recorded.
    pub fn contains(&self, s: &Slot) -> (r: bool)
        ensures
            r == self@.contains(s@),
    {
        self.position(s).is_some()
    }

    /// Runs one statement.
    pub fn execute(&mut self, op: &SlotOp)
        requires
            old(self).wf(),
        ensures
            final(self).wf(),
            final(self)@ == apply(old(self)@, op@),
    {
        match op {
            SlotOp::InsertIfAbsent(s) => {
                if self.position(s).is_none() {
                    let ghost before = self.slots@;
                    self.slots.push(copy_slot(s));
                    proof {
                        assert(self@ =~= key_set(before).insert(s@)) by {
                            assert forall|k: SlotKey| self@.contains(k) implies key_set(
                                before,
                            ).insert(s@).contains(k) by {
                                let i = choose|i: int|
                                    0 <= i < self.slots@.len() && (#[trigger] self.slots@[i])@
                                        == k;
                                if i < before.len() {
                                    assert(before[i] == self.slots@[i]);
                                }
                            }
                            assert forall|k: SlotKey| key_set(before).insert(s@).contains(
                                k,
                            ) implies self@.contains(k) by {
                                if k == s@ {
                                    assert(self.slots@[before.len() as int]@ == k);
                                } else {
                                    let i = choose|i: int|
                                        0 <= i < before.len() && (#[trigger] before[i])@ == k;
                                    assert(self.slots@[i] == before[i]);
                                }
                            }
                        }
                    }
                } else {
                    proof {
                        let i = choose|i: int|
                            0 <= i < self.slots@.len() && (#[trigger] self.slots@[i])@ == s@;
                        assert(self@.insert(s@) =~= self@);
                    }
                }
            },
            SlotOp::Delete(s) => {
                match self.position(s) {
                    None => {
                        proof {
                            assert(self@.remove(s@) =~= self@);
                        }
                    },
                    Some(i) => {
                        let ghost before = self.slots@;
                        self.slots.remove(i);
                        proof {
                            assert forall|a: int, b: int|
                                0 <= a < b < self.slots@.len() implies (#[trigger] self.slots@[a])@
                                != (#[trigger] self.slots@[b])@ by {
                                let a0 = if a < i { a } else { a + 1 };
                                let b0 = if b < i { b } else { b + 1 };
                                assert(self.slots@[a] == before[a0]);
                                assert(self.slots@[b] == before[b0]);
                            }
                            assert(self@ =~= key_set(before).remove(s@)) by {
                                assert forall|k: SlotKey| self@.contains(k) implies key_set(
                                    before,
                                ).remove(s@).contains(k) by {
                                    let j = choose|j: int|
                                        0 <= j < self.slots@.len() && (#[trigger] self.slots@[j])@
                                            == k;
                                    let j0 = if j < i { j } else { j + 1 };
                                    assert(self.slots@[j] == before[j0]);
                                    assert(j0 != i);
                                }
                                assert forall|k: SlotKey| key_set(before).remove(s@).contains(
                                    k,
                                ) implies self@.contains(k) by {
                                    let j0 = choose|j: int|
                                        0 <= j < before.len() && (#[trigger] before[j])@ == k;
                                    assert(j0 != i);
                                    let j = if j0 < i { j0 } else { j0 - 1 };
                                    assert(self.slots@[j] == before[j0]);
                                }
                            }
                        }
                    },
                }
            },
            SlotOp::ClearUser { event_id, user_id } => {
                let ghost before = self.slots@;
                let ghost e = *event_id as int;
                let ghost u = *user_id as int;
                let mut out: Vec<Slot> = Vec::new();
                let mut i: usize = 0;
                while i < self.slots.len()
                    invariant
                        i <= before.len(),
                        self.slots@ == before,
                        e == *event_id as int,
                        u == *user_id as int,
                        distinct_keys(before),
                        distinct_keys(out@),
                        forall|j: int| 0 <= j < out@.len() ==> exists|m: int|
                            0 <= m < i && (#[trigger] out@[j])@ == (#[trigger] before[m])@,
                        key_set(out@) == key_set(before.take(i as int)).filter(|k: SlotKey| outside_pair(k, e, u)),
                    decreases before.len() - i,
                {
                    let ghost prev = out@;
                    let s = &self.slots[i];
                    let ghost kept: bool = !(s.event_id == *event_id && s.user_id == *user_id);
                    assert(*s == before[i as int]);
                    if !(s.event_id == *event_id && s.user_id == *user_id) {
                        out.push(copy_slot(s));
                        proof {
                            assert forall|a: int, b: int|
                                0 <= a < b < out@.len() implies (#[trigger] out@[a])@
                                != (#[trigger] out@[b])@ by {
                                if b == prev.len() {
                                    assert(out@[a] == prev[a]);
                                    let m = choose|m: int|
                                        0 <= m < i && (#[trigger] prev[a])@ == (#[trigger] before[m])@;
                                    assert(before[m]@ != before[i as int]@);
                                } else {
                                    assert(out@[a] == prev[a]);
                                    assert(out@[b] == prev[b]);
                                }
                            }
                            assert forall|j: int| 0 <= j < out@.len() implies exists|m: int|
                                0 <= m < i + 1 && (#[trigger] out@[j])@ == (#[trigger] before[m])@ by {
                                if j < prev.len() {
                                    assert(out@[j] == prev[j]);
                                    let m = choose|m: int|
                                        0 <= m < i && (#[trigger] prev[j])@ == (#[trigger] before[m])@;
                                    assert(out@[j]@ == before[m]@);
                                } else {
                                    assert(out@[j]@ == before[i as int]@);
                                }
                            }
                        }
                    } else {
                        proof {
                            assert forall|j: int| 0 <= j < out@.len() implies exists|m: int|
                                0 <= m < i + 1 && (#[trigger] out@[j])@ == (#[trigger] before[m])@ by {
                                let m = choose|m: int|
                                    0 <= m < i && (#[trigger] out@[j])@ == (#[trigger] before[m])@;
                                assert(out@[j]@ == before[m]@);
                            }
                        }
                    }
                    proof {
                        let nt = before.take(i + 1);
                        let ot = before.take(i as int);
                        assert(before[i as int] == self.slots@[i as int]);
                        assert(before[i as int]@.event_id == before[i as int].event_id as int);
                        assert(outside_pair(before[i as int]@, e, u) == kept);
                        if kept {
                            assert(out@.len() == prev.len() + 1);
                            assert(out@[prev.len() as int]@ == before[i as int]@);
                        } else {
                            assert(out@ == prev);
                        }
                        assert(key_set(out@) =~= key_set(nt).filter(|k: SlotKey| outside_pair(k, e, u))) by {
                            assert forall|k: SlotKey| key_set(out@).contains(k) implies key_set(
                                nt,
                            ).filter(|k: SlotKey| outside_pair(k, e, u)).contains(k) by {
                                let j = choose|j: int|
                                    0 <= j < out@.len() && (#[trigger] out@[j])@ == k;
                                if j < prev.len() {
                                    assert(out@[j] == prev[j]);
                                    assert(key_set(prev).contains(k));
                                    let m = choose|m: int| 0 <= m < ot.len() && (#[trigger] ot[m])@ == k;
                                    assert(nt[m] == ot[m]);
                                } else {
                                    assert(kept);
                                    assert(nt[i as int] == before[i as int]);
                                }
                            }
                            assert forall|k: SlotKey| key_set(nt).filter(|k: SlotKey| outside_pair(k, e, u)).contains(
                                k,
                            ) implies key_set(out@).contains(k) by {
                                let m = choose|m: int| 0 <= m < nt.len() && (#[trigger] nt[m])@ == k;
                                if m < i {
                                    assert(ot[m] == nt[m]);
                                    assert(key_set(ot).filter(|k: SlotKey| outside_pair(k, e, u)).contains(k));
                                    let j = choose|j: int|
                                        0 <= j < prev.len() && (#[trigger] prev[j])@ == k;
                                    assert(out@[j] == prev[j]);
                                } else {
                                    assert(nt[m] == before[i as int]);
                                    assert(kept);
                                    assert(out@[out@.len() - 1]@ == k);
                                }
                            }
                        }
                    }
                    i = i + 1;
                }
                proof {
                    assert(before.take(i as int) =~= before);
                }
                self.slots = out;
                proof {
                    assert(self@ =~= apply(key_set(before), op@));
                }
            },
        }
    }

    /// Runs a unit of work, its statements in order.
    pub fn execute_all(&mut self, ops: &Vec<SlotOp>)
        requires
            old(self).wf(),
        ensures
            final(self).wf(),
            final(self)@ == apply_all(old(self)@, actions_of(ops@)),
    {
        let ghost start = self@;
        let mut i: usize = 0;
        while i < ops.len()
            invariant
                i <= ops@.len(),
                self.wf(),
                self@ == apply_all(start, actions_of(ops@).take(i as int)),
            decreases ops@.len() - i,
        {
            self.execute(&ops[i]);
            proof {
                let acts = actions_of(ops@);
                assert(acts.take(i + 1).drop_last() =~= acts.take(i as int));
                assert(acts.take(i + 1).last() == ops@[i as int]@);
            }
            i = i + 1;
        }
        proof {
            assert(actions_of(ops@).take(i as int) =~= actions_of(ops@));
        }
    }

    /// What the store reports for one event: a row per slot of the event
    /// whose user is known, carrying that user's name.
    pub fn rows_for_event(&self, event_id: i64, users: &Vec<User>) -> (r: Vec<UnavailabilityRow>)
        requires
            distinct_ids(users@),
        ensures
            rows_describe(r@, self@, event_id as int, names_of(users@)),
    {
        let ghost names = names_of(users@);
        let mut out: Vec<UnavailabilityRow> = Vec::new();
        let mut i: usize = 0;
        while i < self.slots.len()
            invariant
                i <= self.slots@.len(),
                names == names_of(users@),
                distinct_ids(users@),
                forall|m: int|
                    0 <= m < out@.len() ==> row_has_slot(#[trigger] out@[m], self@, event_id as int, names),
                forall|j: int|
                    0 <= j < i && (#[trigger] self.slots@[j]).event_id == event_id
                        && names.contains_key(self.slots@[j].user_id as int) ==> exists|m: int|
                        0 <= m < out@.len() && (#[trigger] out@[m]).day.n == self.slots@[j].day.n
                            && out@[m].time_of_day@ == self.slots@[j].time_of_day@ && out@[m].name@
                            == names[self.slots@[j].user_id as int],
            decreases self.slots@.len() - i,
        {
            let s = &self.slots[i];
            let ghost prev = out@;
            if s.event_id == event_id {
                match find_user(users, s.user_id) {
                    Some(x) => {
                        proof {
                            assert(names.contains_key(s.user_id as int));
                            let c = choose|c: int|
                                0 <= c < users@.len() && (#[trigger] users@[c]).id == s.user_id as int;
                            assert(c == x as int);
                            assert(self@.contains(s@));
                        }
                        out.push(
                            UnavailabilityRow {
                                day: s.day,
                                time_of_day: TimeOfDay(s.time_of_day.0.clone()),
                                name: users[x].name.clone(),
                            },
                        );
                        proof {
                            assert forall|m: int| 0 <= m < out@.len() implies row_has_slot(
                                #[trigger] out@[m],
                                self@,
                                event_id as int,
                                names,
                            ) by {
                                if m < prev.len() {
                                    assert(out@[m] == prev[m]);
                                } else {
                                    assert(self@.contains(s@));
                                    assert(s@.day == out@[m].day.n);
                                }
                            }
                            assert forall|j: int|
                                0 <= j < i + 1 && (#[trigger] self.slots@[j]).event_id == event_id
                                    && names.contains_key(self.slots@[j].user_id as int) implies exists|m: int|
                                0 <= m < out@.len() && (#[trigger] out@[m]).day.n == self.slots@[j].day.n
                                    && out@[m].time_of_day@ == self.slots@[j].time_of_day@
                                    && out@[m].name@ == names[self.slots@[j].user_id as int] by {
                                if j < i {
                                    let m = choose|m: int|
                                        0 <= m < prev.len() && (#[trigger] prev[m]).day.n
                                            == self.slots@[j].day.n && prev[m].time_of_day@
                                            == self.slots@[j].time_of_day@ && prev[m].name@
                                            == names[self.slots@[j].user_id as int];
                                    assert(out@[m] == prev[m]);
                                } else {
                                    assert(out@[prev.len() as int].day.n == self.slots@[j].day.n);
                                }
                            }
                        }
                    },
                    None => {
                        proof {
                            assert(!names.contains_key(s.user_id as int));
                        }
                    },
                }
            }
            i = i + 1;
        }
        proof {
            assert forall|k: SlotKey|
                self@.contains(k) && k.event_id == event_id && names.contains_key(
                    k.user_id,
                ) implies slot_has_row(out@, k, names) by {
                let j = choose|j: int| 0 <= j < self.slots@.len() && (#[trigger] self.slots@[j])@ == k;
                assert(self.slots@[j].event_id == event_id);
            }
        }
        out
    }
}

} // verus!
