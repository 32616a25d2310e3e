//! Lists of records as maps from ids to records.
use vstd::prelude::*;

use crate::autopilot::model::{autopilots_view, Autopilot, AutopilotView};
use crate::autopilot::order::{listed_before, listed_before_is_strict_order, newest_first};

verus! {

/// The records of a list by their ids. Where an id is there more than once, its last record
/// counts.
pub open spec fn by_id(s: Seq<AutopilotView>) -> Map<Seq<char>, AutopilotView>
    decreases s.len(),
{
    if s.len() == 0 {
        Map::empty()
    } else {
        by_id(s.drop_last()).insert(s.last().id, s.last())
    }
}

/// Whether no two records of the list share an id.
pub open spec fn ids_distinct(s: Seq<AutopilotView>) -> bool {
    forall|i: int, j: int| 0 <= i < j < s.len() ==> (#[trigger] s[i]).id != (#[trigger] s[j]).id
}

/// Whether the list is in the order of listing.
pub open spec fn newest_first_order(s: Seq<AutopilotView>) -> bool {
    forall|i: int, j: int|
        0 <= i < j < s.len() ==> listed_before(#[trigger] s[i], #[trigger] s[j])
}

/// The map of a list has the ids of the list, and every record under its own id.
pub proof fn by_id_has_ids(s: Seq<AutopilotView>)
    ensures
        forall|id: Seq<char>| #[trigger]
            by_id(s).contains_key(id) <==> exists|i: int| 0 <= i < s.len() && (#[trigger] s[i]).id == id,
        forall|id: Seq<char>| #[trigger] by_id(s).contains_key(id) ==> by_id(s)[id].id == id,
    decreases s.len(),
{
    if s.len() > 0 {
        let rest = s.drop_last();
        by_id_has_ids(rest);
        assert forall|id: Seq<char>| #[trigger] by_id(s).contains_key(id) <==> exists|i: int|
            0 <= i < s.len() && (#[trigger] s[i]).id == id by {
            assert(by_id(rest).contains_key(id) <==> exists|i: int|
                0 <= i < rest.len() && (#[trigger] rest[i]).id == id);
            if by_id(rest).contains_key(id) {
                let i = choose|i: int| 0 <= i < rest.len() && (#[trigger] rest[i]).id == id;
                assert(s[i].id == id);
            }
            if s.last().id == id {
                assert(s[s.len() - 1].id == id);
            }
            if exists|i: int| 0 <= i < s.len() && (#[trigger] s[i]).id == id {
                let i = choose|i: int| 0 <= i < s.len() && (#[trigger] s[i]).id == id;
                if i < rest.len() {
                    assert(rest[i].id == id);
                }
            }
        }
        assert forall|id: Seq<char>| #[trigger] by_id(s).contains_key(id) implies by_id(s)[id].id
            == id by {
            if id != s.last().id {
                assert(by_id(rest).contains_key(id));
            }
        }
    }
}

/// Without repeated ids, each record stands in the map under its id.
pub proof fn by_id_at(s: Seq<AutopilotView>)
    requires
        ids_distinct(s),
    ensures
        forall|i: int| 0 <= i < s.len() ==> by_id(s)[(#[trigger] s[i]).id] == s[i],
        forall|i: int| 0 <= i < s.len() ==> by_id(s).contains_key((#[trigger] s[i]).id),
    decreases s.len(),
{
    by_id_has_ids(s);
    if s.len() > 0 {
        let rest = s.drop_last();
        assert(ids_distinct(rest)) by {
            assert forall|i: int, j: int| 0 <= i < j < rest.len() implies (#[trigger] rest[i]).id
                != (#[trigger] rest[j]).id by {
                assert(s[i].id != s[j].id);
            }
        }
        by_id_at(rest);
        assert forall|i: int| 0 <= i < s.len() implies by_id(s)[(#[trigger] s[i]).id] == s[i] by {
            if i < rest.len() {
                assert(rest[i] == s[i]);
                assert(s[i].id != s[s.len() - 1].id);
            }
        }
    }
}

/// Two lists without repeated ids that hold the same records have the same map.
pub proof fn by_id_of_same_records(s: Seq<AutopilotView>, t: Seq<AutopilotView>)
    requires
        ids_distinct(s),
        ids_distinct(t),
        forall|i: int| 0 <= i < s.len() ==> t.contains(#[trigger] s[i]),
        forall|i: int| 0 <= i < t.len() ==> s.contains(#[trigger] t[i]),
    ensures
        by_id(s) == by_id(t),
{
    by_id_has_ids(s);
    by_id_has_ids(t);
    by_id_at(s);
    by_id_at(t);
    assert forall|id: Seq<char>| by_id(s).contains_key(id) <==> by_id(t).contains_key(id) by {
        if by_id(s).contains_key(id) {
            let i = choose|i: int| 0 <= i < s.len() && (#[trigger] s[i]).id == id;
            let j = choose|j: int| 0 <= j < t.len() && t[j] == s[i];
            assert(t[j].id == id);
        }
        if by_id(t).contains_key(id) {
            let i = choose|i: int| 0 <= i < t.len() && (#[trigger] t[i]).id == id;
            let j = choose|j: int| 0 <= j < s.len() && s[j] == t[i];
            assert(s[j].id == id);
        }
    }
    assert forall|id: Seq<char>| by_id(s).contains_key(id) implies by_id(s)[id] == by_id(t)[id] by {
        let i = choose|i: int| 0 <= i < s.len() && (#[trigger] s[i]).id == id;
        assert(by_id(s)[s[i].id] == s[i]);
        let j = choose|j: int| 0 <= j < t.len() && t[j] == s[i];
        assert(by_id(t)[t[j].id] == t[j]);
    }
    assert(by_id(s) =~= by_id(t));
}

/// Replacing a record by one with the same id changes the map under that id.
pub proof fn by_id_of_update(s: Seq<AutopilotView>, i: int, r: AutopilotView)
    requires
        ids_distinct(s),
        0 <= i < s.len(),
        r.id == s[i].id,
    ensures
        ids_distinct(s.update(i, r)),
        by_id(s.update(i, r)) == by_id(s).insert(r.id, r),
{
    let t = s.update(i, r);
    assert forall|a: int, b: int| 0 <= a < b < t.len() implies (#[trigger] t[a]).id != (
    #[trigger] t[b]).id by {
        assert(s[a].id != s[b].id);
    }
    by_id_has_ids(s);
    by_id_has_ids(t);
    by_id_at(s);
    by_id_at(t);
    let m = by_id(s).insert(r.id, r);
    assert forall|id: Seq<char>| by_id(t).contains_key(id) <==> m.contains_key(id) by {
        if by_id(t).contains_key(id) {
            let k = choose|k: int| 0 <= k < t.len() && (#[trigger] t[k]).id == id;
            assert(s[k].id == id);
        }
        if by_id(s).contains_key(id) {
            let k = choose|k: int| 0 <= k < s.len() && (#[trigger] s[k]).id == id;
            assert(t[k].id == id);
        }
        if id == r.id {
            assert(t[i].id == id);
        }
    }
    assert forall|id: Seq<char>| by_id(t).contains_key(id) implies by_id(t)[id] == m[id] by {
        let k = choose|k: int| 0 <= k < t.len() && (#[trigger] t[k]).id == id;
        assert(by_id(t)[t[k].id] == t[k]);
        if k != i {
            assert(by_id(s)[s[k].id] == s[k]);
            if k < i {
                assert(s[k].id != s[i].id);
            } else {
                assert(s[i].id != s[k].id);
            }
        }
    }
    assert(by_id(t) =~= m);
}

/// Appending a record with a new id adds it to the map.
pub proof fn by_id_of_push(s: Seq<AutopilotView>, r: AutopilotView)
    requires
        ids_distinct(s),
        !by_id(s).contains_key(r.id),
    ensures
        ids_distinct(s.push(r)),
        by_id(s.push(r)) == by_id(s).insert(r.id, r),
{
    let t = s.push(r);
    by_id_has_ids(s);
    assert(t.drop_last() =~= s);
    assert forall|a: int, b: int| 0 <= a < b < t.len() implies (#[trigger] t[a]).id != (
    #[trigger] t[b]).id by {
        assert(s[a].id == t[a].id);
        if b < s.len() {
            assert(s[a].id != s[b].id);
        }
    }
}

/// Taking a record out of a list takes its id out of the map.
pub proof fn by_id_of_remove(s: Seq<AutopilotView>, i: int)
    requires
        ids_distinct(s),
        0 <= i < s.len(),
    ensures
        ids_distinct(s.remove(i)),
        by_id(s.remove(i)) == by_id(s).remove(s[i].id),
{
    let t = s.remove(i);
    let m = by_id(s).remove(s[i].id);
    assert forall|a: int, b: int| 0 <= a < b < t.len() implies (#[trigger] t[a]).id != (
    #[trigger] t[b]).id by {
        let x = if a < i {
            a
        } else {
            a + 1
        };
        let y = if b < i {
            b
        } else {
            b + 1
        };
        assert(s[x].id != s[y].id);
    }
    by_id_has_ids(s);
    by_id_has_ids(t);
    by_id_at(s);
    by_id_at(t);
    assert forall|id: Seq<char>| by_id(t).contains_key(id) <==> m.contains_key(id) by {
        if by_id(t).contains_key(id) {
            let k = choose|k: int| 0 <= k < t.len() && (#[trigger] t[k]).id == id;
            let x = if k < i {
                k
            } else {
                k + 1
            };
            assert(s[x].id == id);
            if x < i {
                assert(s[x].id != s[i].id);
            } else {
                assert(s[i].id != s[x].id);
            }
        }
        if m.contains_key(id) {
            let k = choose|k: int| 0 <= k < s.len() && (#[trigger] s[k]).id == id;
            let x = if k < i {
                k
            } else {
                k - 1
            };
            assert(t[x].id == id);
        }
    }
    assert forall|id: Seq<char>| by_id(t).contains_key(id) implies by_id(t)[id] == m[id] by {
        let k = choose|k: int| 0 <= k < t.len() && (#[trigger] t[k]).id == id;
        assert(by_id(t)[t[k].id] == t[k]);
        let x = if k < i {
            k
        } else {
            k + 1
        };
        assert(by_id(s)[s[x].id] == s[x]);
    }
    assert(by_id(t) =~= m);
}

/// Changing every record by a function that keeps the ids changes every value of the map by it.
pub proof fn by_id_of_map(
    s: Seq<AutopilotView>,
    t: Seq<AutopilotView>,
    f: spec_fn(AutopilotView) -> AutopilotView,
)
    requires
        ids_distinct(s),
        t.len() == s.len(),
        forall|i: int| 0 <= i < s.len() ==> (#[trigger] t[i]) == f(s[i]) && t[i].id == s[i].id,
    ensures
        ids_distinct(t),
        by_id(t) == by_id(s).map_values(f),
{
    assert forall|a: int, b: int| 0 <= a < b < t.len() implies (#[trigger] t[a]).id != (
    #[trigger] t[b]).id by {
        assert(s[a].id != s[b].id);
    }
    by_id_has_ids(s);
    by_id_has_ids(t);
    by_id_at(s);
    by_id_at(t);
    let m = by_id(s).map_values(f);
    assert forall|id: Seq<char>| by_id(t).contains_key(id) <==> m.contains_key(id) by {
        if by_id(t).contains_key(id) {
            let k = choose|k: int| 0 <= k < t.len() && (#[trigger] t[k]).id == id;
            assert(s[k].id == id);
        }
        if by_id(s).contains_key(id) {
            let k = choose|k: int| 0 <= k < s.len() && (#[trigger] s[k]).id == id;
            assert(t[k].id == id);
        }
    }
    assert forall|id: Seq<char>| by_id(t).contains_key(id) implies by_id(t)[id] == m[id] by {
        let k = choose|k: int| 0 <= k < t.len() && (#[trigger] t[k]).id == id;
        assert(by_id(t)[t[k].id] == t[k]);
        assert(by_id(s)[s[k].id] == s[k]);
    }
    assert(by_id(t) =~= m);
}

// ── Sorting ─────────────────────────────────────────────────────────────────

fn insert_sorted(list: &mut Vec<Autopilot>, r: Autopilot)
    requires
        newest_first_order(autopilots_view(old(list)@)),
        ids_distinct(autopilots_view(old(list)@)),
        !by_id(autopilots_view(old(list)@)).contains_key(r@.id),
    ensures
        newest_first_order(autopilots_view(final(list)@)),
        ids_distinct(autopilots_view(final(list)@)),
        by_id(autopilots_view(final(list)@)) == by_id(autopilots_view(old(list)@)).insert(
            r@.id,
            r@,
        ),
        final(list)@.len() == old(list)@.len() + 1,
{
    let ghost s = autopilots_view(list@);
    let ghost rv = r@;
    proof {
        by_id_has_ids(s);
    }
    let mut i: usize = 0;
    while i < list.len() && newest_first(&list[i], &r)
        invariant
            i <= list@.len(),
            s == autopilots_view(list@),
            rv == r@,
            forall|k: int| 0 <= k < i ==> listed_before(#[trigger] s[k], rv),
        ensures
            i <= list@.len(),
            forall|k: int| 0 <= k < i ==> listed_before(#[trigger] s[k], rv),
            i < list@.len() ==> !listed_before(s[i as int], rv),
        decreases list@.len() - i,
    {
        i = i + 1;
    }
    list.insert(i, r);
    proof {
        let t = autopilots_view(list@);
        assert(t =~= s.insert(i as int, rv));
        assert forall|k: int| i <= k < s.len() implies listed_before(rv, #[trigger] s[k]) by {
            listed_before_is_strict_order(rv, s[i as int], s[k]);
            assert(s[i as int].id != rv.id);
            if k > i {
                assert(listed_before(s[i as int], s[k]));
            }
        }
        assert forall|a: int, b: int| 0 <= a < b < t.len() implies listed_before(
            #[trigger] t[a],
            #[trigger] t[b],
        ) && t[a].id != t[b].id by {
            let x = if a < i {
                a
            } else {
                a - 1
            };
            let y = if b < i {
                b
            } else {
                b - 1
            };
            if a == i {
                assert(t[b] == s[y]);
            } else if b == i {
                assert(t[a] == s[x]);
            } else {
                assert(t[a] == s[x]);
                assert(t[b] == s[y]);
                assert(listed_before(s[x], s[y]));
                assert(s[x].id != s[y].id);
            }
        }
        by_id_of_push(s, rv);
        let u = s.push(rv);
        assert forall|k: int| 0 <= k < t.len() implies u.contains(#[trigger] t[k]) by {
            if k < i {
                assert(u[k] == t[k]);
            } else if k == i {
                assert(u[s.len() as int] == t[k]);
            } else {
                assert(u[k - 1] == t[k]);
            }
        }
        assert forall|k: int| 0 <= k < u.len() implies t.contains(#[trigger] u[k]) by {
            if k == s.len() {
                assert(t[i as int] == u[k]);
            } else if k < i {
                assert(t[k] == u[k]);
            } else {
                assert(t[k + 1] == u[k]);
            }
        }
        by_id_of_same_records(t, u);
    }
}

/// The records in the order of listing.
pub fn sorted_records(records: &Vec<Autopilot>) -> (r: Vec<Autopilot>)
    requires
        ids_distinct(autopilots_view(records@)),
    ensures
        newest_first_order(autopilots_view(r@)),
        ids_distinct(autopilots_view(r@)),
        by_id(autopilots_view(r@)) == by_id(autopilots_view(records@)),
        r@.len() == records@.len(),
{
    let ghost s = autopilots_view(records@);
    let mut out: Vec<Autopilot> = Vec::new();
    let mut i: usize = 0;
    assert(s.take(0) =~= Seq::empty());
    assert(autopilots_view(out@) =~= Seq::empty());
    while i < records.len()
        invariant
            i <= records@.len(),
            s == autopilots_view(records@),
            ids_distinct(s),
            newest_first_order(autopilots_view(out@)),
            ids_distinct(autopilots_view(out@)),
            by_id(autopilots_view(out@)) == by_id(s.take(i as int)),
            out@.len() == i,
        decreases records@.len() - i,
    {
        proof {
            let rest = s.take(i as int);
            assert(s.take(i as int + 1).drop_last() =~= rest);
            by_id_has_ids(rest);
            if by_id(rest).contains_key(s[i as int].id) {
                let k = choose|k: int|
                    0 <= k < rest.len() && (#[trigger] rest[k]).id == s[i as int].id;
                assert(s[k].id != s[i as int].id);
            }
        }
        insert_sorted(&mut out, records[i].clone());
        i = i + 1;
    }
    assert(s.take(s.len() as int) =~= s);
    out
}

} // verus!
