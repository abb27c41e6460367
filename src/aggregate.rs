use vstd::prelude::*;
use vstd::string::StringExecFns;

use crate::calendar::{Day, has_iso_label, iso_day_label};
use crate::models::TimeOfDay;
use crate::slots::{
    SlotAction, SlotKey, apply, apply_all, delete_actions, insert_actions, lemma_delete_all,
    lemma_insert_all, range_slots,
};

verus! {

/// One recorded slot of an event as the store reports it: the day, the tag
/// and the name of the user who holds it.
#[derive(Clone, Debug, PartialEq, Eq)]
pub struct UnavailabilityRow {
    pub day: Day,
    pub time_of_day: TimeOfDay,
    pub name: String,
}

/// The users unavailable in one (day, tag) bucket of an event.
#[derive(Clone, Debug, PartialEq, Eq)]
pub struct UnavailabilityEntry {
    pub day: Day,
    /// The day's `YYYY-MM-DD` label.
    pub label: String,
    pub time_of_day: TimeOfDay,
    /// The names, joined with `,`.
    pub names: String,
}

/// The names of the rows in bucket (`day`, `tag`), in row order.
pub open spec fn names_at(rows: Seq<UnavailabilityRow>, day: int, tag: Seq<char>) -> Seq<Seq<char>>
    decreases rows.len(),
{
    if rows.len() == 0 {
        Seq::empty()
    } else {
        let prev = names_at(rows.drop_last(), day, tag);
        let r = rows.last();
        if r.day.n == day && r.time_of_day@ == tag {
            prev.push(r.name@)
        } else {
            prev
        }
    }
}

/// The names separated by single commas.
pub open spec fn join_names(names: Seq<Seq<char>>) -> Seq<char>
    decreases names.len(),
{
    if names.len() == 0 {
        Seq::empty()
    } else if names.len() == 1 {
        names[0]
    } else {
        join_names(names.drop_last()) + seq![','] + names.last()
    }
}

pub open spec fn in_bucket(r: UnavailabilityRow, day: int, tag: Seq<char>) -> bool {
    r.day.n == day && r.time_of_day@ == tag
}

/// Every name listed in a bucket comes from a row of that bucket.
pub proof fn lemma_names_at_sound(rows: Seq<UnavailabilityRow>, day: int, tag: Seq<char>, j: int)
    requires
        0 <= j < names_at(rows, day, tag).len(),
    ensures
        exists|m: int|
            0 <= m < rows.len() && in_bucket(#[trigger] rows[m], day, tag) && rows[m].name@
                == names_at(rows, day, tag)[j],
    decreases rows.len(),
{
    let init = rows.drop_last();
    if j < names_at(init, day, tag).len() {
        lemma_names_at_sound(init, day, tag, j);
        let m = choose|m: int|
            0 <= m < init.len() && in_bucket(#[trigger] init[m], day, tag) && init[m].name@
                == names_at(init, day, tag)[j];
        assert(rows[m] == init[m]);
    } else {
        assert(in_bucket(rows[rows.len() - 1], day, tag));
    }
}

/// Every row of a bucket has its name listed there.
pub proof fn lemma_names_at_complete(rows: Seq<UnavailabilityRow>, m: int)
    requires
        0 <= m < rows.len(),
    ensures
        names_at(rows, rows[m].day.n as int, rows[m].time_of_day@).contains(rows[m].name@),
    decreases rows.len(),
{
    let day = rows[m].day.n as int;
    let tag = rows[m].time_of_day@;
    let init = rows.drop_last();
    if m == rows.len() - 1 {
        let ns = names_at(rows, day, tag);
        assert(ns[ns.len() - 1] == rows[m].name@);
    } else {
        lemma_names_at_complete(init, m);
        assert(init[m] == rows[m]);
        let prev = names_at(init, day, tag);
        let j = choose|j: int| 0 <= j < prev.len() && prev[j] == rows[m].name@;
        assert(names_at(rows, day, tag)[j] == rows[m].name@);
    }
}

pub open spec fn same_bucket(e: UnavailabilityEntry, day: int, tag: Seq<char>) -> bool {
    e.day.n == day && e.time_of_day@ == tag
}

/// `e` is the entry of its bucket over `rows`: labelled, not empty, and
/// listing the bucket's names.
pub open spec fn entry_of(e: UnavailabilityEntry, rows: Seq<UnavailabilityRow>) -> bool {
    &&& e.label@ == iso_day_label(e.day.n as int)
    &&& names_at(rows, e.day.n as int, e.time_of_day@).len() > 0
    &&& e.names@ == join_names(names_at(rows, e.day.n as int, e.time_of_day@))
}

pub open spec fn distinct_buckets(out: Seq<UnavailabilityEntry>) -> bool {
    forall|i: int, j: int|
        0 <= i < j < out.len() ==> !same_bucket(
            #[trigger] out[i],
            (#[trigger] out[j]).day.n as int,
            out[j].time_of_day@,
        )
}

pub open spec fn covers(out: Seq<UnavailabilityEntry>, rows: Seq<UnavailabilityRow>) -> bool {
    forall|m: int|
        0 <= m < rows.len() ==> exists|i: int|
            0 <= i < out.len() && same_bucket(
                #[trigger] out[i],
                (#[trigger] rows[m]).day.n as int,
                rows[m].time_of_day@,
            )
}

/// The index of the entry of bucket (`day`, `tag`), if there is one.
fn find_bucket(out: &Vec<UnavailabilityEntry>, day: Day, tag: &TimeOfDay) -> (r: Option<usize>)
    ensures
        r matches Some(i) ==> i < out@.len() && same_bucket(out@[i as int], day.n as int, tag@),
        r is None ==> forall|i: int|
            0 <= i < out@.len() ==> !same_bucket(#[trigger] out@[i], day.n as int, tag@),
{
    let mut i: usize = 0;
    while i < out.len()
        invariant
            i <= out@.len(),
            forall|j: int| 0 <= j < i ==> !same_bucket(#[trigger] out@[j], day.n as int, tag@),
        decreases out@.len() - i,
    {
        if out[i].day.n == day.n && out[i].time_of_day.0 == tag.0 {
            return Some(i);
        }
        i = i + 1;
    }
    None
}

proof fn lemma_join_push(names: Seq<Seq<char>>, n: Seq<char>)
    requires
        names.len() > 0,
    ensures
        join_names(names.push(n)) == join_names(names) + seq![','] + n,
{
    assert(names.push(n).drop_last() =~= names);
}

/// Groups the rows of one event by (day, tag): one entry per bucket that
/// holds a row, no two entries for one bucket, each listing the bucket's
/// names in row order, joined with commas, under the day's label.
pub fn get_event_unavailability_details(rows: &Vec<UnavailabilityRow>) -> (out: Vec<UnavailabilityEntry>)
    requires
        forall|m: int| 0 <= m < rows@.len() ==> has_iso_label(#[trigger] rows@[m].day),
    ensures
        distinct_buckets(out@),
        forall|i: int| 0 <= i < out@.len() ==> entry_of(#[trigger] out@[i], rows@),
        covers(out@, rows@),
{
    let mut out: Vec<UnavailabilityEntry> = Vec::new();
    let mut k: usize = 0;
    while k < rows.len()
        invariant
            k <= rows@.len(),
            forall|m: int| 0 <= m < rows@.len() ==> has_iso_label(#[trigger] rows@[m].day),
            distinct_buckets(out@),
            forall|i: int| 0 <= i < out@.len() ==> entry_of(#[trigger] out@[i], rows@.take(k as int)),
            covers(out@, rows@.take(k as int)),
        decreases rows@.len() - k,
    {
        let r = &rows[k];
        let ghost pre = rows@.take(k as int);
        let ghost post = rows@.take(k + 1);
        let ghost old_out = out@;
        proof {
            assert(post.drop_last() =~= pre);
            assert(post.last() == rows@[k as int]);
        }
        match find_bucket(&out, r.day, &r.time_of_day) {
            Some(i) => {
                let mut nm = out[i].names.clone();
                nm.append(",");
                nm.append(r.name.as_str());
                let e = UnavailabilityEntry {
                    day: out[i].day,
                    label: out[i].label.clone(),
                    time_of_day: TimeOfDay(out[i].time_of_day.0.clone()),
                    names: nm,
                };
                out.set(i, e);
                proof {
                    reveal_strlit(",");
                    let d = r.day.n as int;
                    let t = r.time_of_day@;
                    lemma_join_push(names_at(pre, d, t), r.name@);
                    assert(names_at(post, d, t) == names_at(pre, d, t).push(r.name@));
                    assert forall|j: int| 0 <= j < out@.len() implies entry_of(
                        #[trigger] out@[j],
                        post,
                    ) by {
                        if j == i {
                            assert(entry_of(old_out[j], pre));
                            assert(out@[j].day.n == d && out@[j].time_of_day@ == t);
                            assert(out@[j].names@ == old_out[j].names@ + seq![','] + r.name@);
                        } else {
                            assert(old_out[j] == out@[j]);
                            assert(entry_of(old_out[j], pre));
                            if i < j {
                                assert(!same_bucket(old_out[i as int], old_out[j].day.n as int, old_out[j].time_of_day@));
                            } else {
                                assert(!same_bucket(old_out[j], old_out[i as int].day.n as int, old_out[i as int].time_of_day@));
                            }
                        }
                    }
                    assert forall|a: int, b: int| 0 <= a < b < out@.len() implies !same_bucket(
                        #[trigger] out@[a],
                        (#[trigger] out@[b]).day.n as int,
                        out@[b].time_of_day@,
                    ) by {
                        assert(!same_bucket(old_out[a], old_out[b].day.n as int, old_out[b].time_of_day@));
                    }
                    assert forall|m: int| 0 <= m < post.len() implies exists|x: int|
                        0 <= x < out@.len() && same_bucket(
                            #[trigger] out@[x],
                            (#[trigger] post[m]).day.n as int,
                            post[m].time_of_day@,
                        ) by {
                        if m < k {
                            assert(pre[m] == post[m]);
                            let x = choose|x: int|
                                0 <= x < old_out.len() && same_bucket(
                                    #[trigger] old_out[x],
                                    pre[m].day.n as int,
                                    pre[m].time_of_day@,
                                );
                            assert(same_bucket(out@[x], post[m].day.n as int, post[m].time_of_day@));
                        } else {
                            assert(same_bucket(out@[i as int], post[m].day.n as int, post[m].time_of_day@));
                        }
                    }
                }
            },
            None => {
                let label = r.day.label();
                let e = UnavailabilityEntry {
                    day: r.day,
                    label,
                    time_of_day: TimeOfDay(r.time_of_day.0.clone()),
                    names: r.name.clone(),
                };
                out.push(e);
                proof {
                    let d = r.day.n as int;
                    let t = r.time_of_day@;
                    if names_at(pre, d, t).len() > 0 {
                        lemma_names_at_sound(pre, d, t, 0);
                        let m = choose|m: int|
                            0 <= m < pre.len() && in_bucket(#[trigger] pre[m], d, t) && pre[m].name@
                                == names_at(pre, d, t)[0];
                        let x = choose|x: int|
                            0 <= x < old_out.len() && same_bucket(
                                #[trigger] old_out[x],
                                pre[m].day.n as int,
                                pre[m].time_of_day@,
                            );
                        assert(same_bucket(old_out[x], d, t));
                    }
                    assert(names_at(pre, d, t) =~= Seq::<Seq<char>>::empty());
                    assert(names_at(post, d, t) =~= seq![r.name@]);
                    assert forall|j: int| 0 <= j < out@.len() implies entry_of(
                        #[trigger] out@[j],
                        post,
                    ) by {
                        if j < old_out.len() {
                            assert(old_out[j] == out@[j]);
                            assert(entry_of(old_out[j], pre));
                            assert(!same_bucket(old_out[j], d, t));
                        }
                    }
                    assert forall|a: int, b: int| 0 <= a < b < out@.len() implies !same_bucket(
                        #[trigger] out@[a],
                        (#[trigger] out@[b]).day.n as int,
                        out@[b].time_of_day@,
                    ) by {
                        if b < old_out.len() {
                            assert(!same_bucket(old_out[a], old_out[b].day.n as int, old_out[b].time_of_day@));
                        } else {
                            assert(!same_bucket(old_out[a], d, t));
                        }
                    }
                    assert forall|m: int| 0 <= m < post.len() implies exists|x: int|
                        0 <= x < out@.len() && same_bucket(
                            #[trigger] out@[x],
                            (#[trigger] post[m]).day.n as int,
                            post[m].time_of_day@,
                        ) by {
                        if m < k {
                            assert(pre[m] == post[m]);
                            let x = choose|x: int|
                                0 <= x < old_out.len() && same_bucket(
                                    #[trigger] old_out[x],
                                    pre[m].day.n as int,
                                    pre[m].time_of_day@,
                                );
                            assert(same_bucket(out@[x], post[m].day.n as int, post[m].time_of_day@));
                        } else {
                            assert(same_bucket(out@[old_out.len() as int], post[m].day.n as int, post[m].time_of_day@));
                        }
                    }
                }
            },
        }
        k = k + 1;
    }
    proof {
        assert(rows@.take(rows@.len() as int) =~= rows@);
    }
    out
}

/// `rows` is what the store reports for `event_id` while it holds the slots
/// `s`, `names` giving each user's name: one row per slot of the event, and
/// nothing else.
pub open spec fn rows_describe(
    rows: Seq<UnavailabilityRow>,
    s: Set<SlotKey>,
    event_id: int,
    names: Map<int, Seq<char>>,
) -> bool {
    &&& forall|m: int| 0 <= m < rows.len() ==> row_has_slot(#[trigger] rows[m], s, event_id, names)
    &&& forall|k: SlotKey|
        s.contains(k) && k.event_id == event_id && names.contains_key(k.user_id) ==> slot_has_row(
            rows,
            k,
            names,
        )
}

/// Some slot of the event, held by a user of that name, gives the row.
pub open spec fn row_has_slot(
    r: UnavailabilityRow,
    s: Set<SlotKey>,
    event_id: int,
    names: Map<int, Seq<char>>,
) -> bool {
    exists|k: SlotKey|
        #[trigger] s.contains(k) && k.event_id == event_id && names.contains_key(k.user_id) && k.day
            == r.day.n && k.tag == r.time_of_day@ && names[k.user_id] == r.name@
}

/// Some row reports the slot under its user's name.
pub open spec fn slot_has_row(rows: Seq<UnavailabilityRow>, k: SlotKey, names: Map<int, Seq<char>>) -> bool {
    exists|m: int|
        0 <= m < rows.len() && (#[trigger] rows[m]).day.n == k.day && rows[m].time_of_day@ == k.tag
            && rows[m].name@ == names[k.user_id]
}

/// No two users share a name.
pub open spec fn unique_names(names: Map<int, Seq<char>>) -> bool {
    forall|a: int, b: int|
        #![trigger names[a], names[b]]
        names.contains_key(a) && names.contains_key(b) && names[a] == names[b] ==> a == b
}

/// A name listed in a bucket belongs to a recorded slot of that bucket.
pub proof fn lemma_listed_has_slot(
    rows: Seq<UnavailabilityRow>,
    s: Set<SlotKey>,
    event_id: int,
    names: Map<int, Seq<char>>,
    day: int,
    tag: Seq<char>,
    n: Seq<char>,
)
    requires
        rows_describe(rows, s, event_id, names),
        names_at(rows, day, tag).contains(n),
    ensures
        exists|k: SlotKey|
            #[trigger] s.contains(k) && k.event_id == event_id && names.contains_key(k.user_id)
                && k.day == day && k.tag == tag && names[k.user_id] == n,
{
    let ns = names_at(rows, day, tag);
    let j = choose|j: int| 0 <= j < ns.len() && ns[j] == n;
    lemma_names_at_sound(rows, day, tag, j);
    let m = choose|m: int|
        0 <= m < rows.len() && in_bucket(#[trigger] rows[m], day, tag) && rows[m].name@ == ns[j];
    assert(rows[m].day.n == day);
}

/// After adding (`day`, `tag`) for a user, the aggregate of the event lists
/// the user's name in that bucket.
pub proof fn law_add_then_listed(
    s: Set<SlotKey>,
    rows: Seq<UnavailabilityRow>,
    names: Map<int, Seq<char>>,
    event_id: int,
    user_id: int,
    day: int,
    tag: Seq<char>,
)
    requires
        names.contains_key(user_id),
        rows_describe(
            rows,
            apply_all(s, insert_actions(range_slots(event_id, user_id, day, day, seq![tag]))),
            event_id,
            names,
        ),
    ensures
        names_at(rows, day, tag).contains(names[user_id]),
{
    let ks = range_slots(event_id, user_id, day, day, seq![tag]);
    let k0 = SlotKey { event_id, user_id, day, tag };
    assert(range_slots(event_id, user_id, day, day - 1, seq![tag]).len() == 0);
    assert(ks[0] == k0);
    lemma_insert_all(s, ks);
    assert(ks.to_set().contains(k0));
    let t = apply_all(s, insert_actions(ks));
    assert(t.contains(k0));
    let m = choose|m: int|
        0 <= m < rows.len() && (#[trigger] rows[m]).day.n == k0.day && rows[m].time_of_day@ == k0.tag
            && rows[m].name@ == names[k0.user_id];
    lemma_names_at_complete(rows, m);
}

/// After removing (`day`, `tag`) for a user, the aggregate of the event no
/// longer lists the user's name in that bucket.
pub proof fn law_remove_then_unlisted(
    s: Set<SlotKey>,
    rows: Seq<UnavailabilityRow>,
    names: Map<int, Seq<char>>,
    event_id: int,
    user_id: int,
    day: int,
    tag: Seq<char>,
)
    requires
        unique_names(names),
        names.contains_key(user_id),
        rows_describe(
            rows,
            apply_all(s, delete_actions(range_slots(event_id, user_id, day, day, seq![tag]))),
            event_id,
            names,
        ),
    ensures
        !names_at(rows, day, tag).contains(names[user_id]),
{
    let ks = range_slots(event_id, user_id, day, day, seq![tag]);
    let k0 = SlotKey { event_id, user_id, day, tag };
    assert(range_slots(event_id, user_id, day, day - 1, seq![tag]).len() == 0);
    assert(ks[0] == k0);
    lemma_delete_all(s, ks);
    assert(ks.to_set().contains(k0));
    let t = apply_all(s, delete_actions(ks));
    if names_at(rows, day, tag).contains(names[user_id]) {
        lemma_listed_has_slot(rows, t, event_id, names, day, tag, names[user_id]);
        let k = choose|k: SlotKey|
            #[trigger] t.contains(k) && k.event_id == event_id && names.contains_key(k.user_id)
                && k.day == day && k.tag == tag && names[k.user_id] == names[user_id];
        assert(k.user_id == user_id);
        assert(k == k0);
    }
}

/// After clearing a user's slots in an event, the aggregate of the event
/// lists the user's name in no bucket.
pub proof fn law_clear_then_unlisted(
    s: Set<SlotKey>,
    rows: Seq<UnavailabilityRow>,
    names: Map<int, Seq<char>>,
    event_id: int,
    user_id: int,
    day: int,
    tag: Seq<char>,
)
    requires
        unique_names(names),
        names.contains_key(user_id),
        rows_describe(rows, apply(s, SlotAction::Clear { event_id, user_id }), event_id, names),
    ensures
        !names_at(rows, day, tag).contains(names[user_id]),
{
    let t = apply(s, SlotAction::Clear { event_id, user_id });
    if names_at(rows, day, tag).contains(names[user_id]) {
        lemma_listed_has_slot(rows, t, event_id, names, day, tag, names[user_id]);
        let k = choose|k: SlotKey|
            #[trigger] t.contains(k) && k.event_id == event_id && names.contains_key(k.user_id)
                && k.day == day && k.tag == tag && names[k.user_id] == names[user_id];
        assert(k.user_id == user_id);
    }
}

} // verus!
