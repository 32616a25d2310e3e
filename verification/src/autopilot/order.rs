//! The order in which records are listed: newest first.
use vstd::prelude::*;

use crate::autopilot::model::{Autopilot, AutopilotView};
use crate::text::chars_of;

verus! {

/// Whether `a` comes before `b` in the order of their characters.
pub open spec fn text_before(a: Seq<char>, b: Seq<char>) -> bool
    decreases a.len(),
{
    if b.len() == 0 {
        false
    } else if a.len() == 0 {
        true
    } else if a[0] != b[0] {
        a[0] < b[0]
    } else {
        text_before(a.subrange(1, a.len() as int), b.subrange(1, b.len() as int))
    }
}

/// Whether `a` is listed before `b`: it was created later, or at the same time with an id that
/// comes first.
pub open spec fn listed_before(a: AutopilotView, b: AutopilotView) -> bool {
    a.created_at > b.created_at || (a.created_at == b.created_at && text_before(a.id, b.id))
}

proof fn lemma_text_before_transitive(a: Seq<char>, b: Seq<char>, c: Seq<char>)
    requires
        text_before(a, b),
        text_before(b, c),
    ensures
        text_before(a, c),
    decreases a.len(),
{
    if a.len() > 0 && a[0] == b[0] && b[0] == c[0] {
        lemma_text_before_transitive(
            a.subrange(1, a.len() as int),
            b.subrange(1, b.len() as int),
            c.subrange(1, c.len() as int),
        );
    }
}

proof fn lemma_text_before_total(a: Seq<char>, b: Seq<char>)
    ensures
        text_before(a, b) || text_before(b, a) || a == b,
        !(text_before(a, b) && text_before(b, a)),
        a == b ==> !text_before(a, b),
    decreases a.len(),
{
    if a.len() == 0 || b.len() == 0 {
        if a.len() == 0 && b.len() == 0 {
            assert(a =~= b);
        }
    } else if a[0] == b[0] {
        let x = a.subrange(1, a.len() as int);
        let y = b.subrange(1, b.len() as int);
        lemma_text_before_total(x, y);
        if x == y {
            assert(a =~= seq![a[0]] + x);
            assert(b =~= seq![b[0]] + y);
        }
    }
}

/// The order is strict: of two records with different ids exactly one is listed first, and the
/// order carries over from one pair to the next.
pub proof fn listed_before_is_strict_order(a: AutopilotView, b: AutopilotView, c: AutopilotView)
    ensures
        !listed_before(a, a),
        !(listed_before(a, b) && listed_before(b, a)),
        a.id != b.id ==> listed_before(a, b) || listed_before(b, a),
        listed_before(a, b) && listed_before(b, c) ==> listed_before(a, c),
{
    lemma_text_before_total(a.id, a.id);
    lemma_text_before_total(a.id, b.id);
    if text_before(a.id, b.id) && text_before(b.id, c.id) {
        lemma_text_before_transitive(a.id, b.id, c.id);
    }
}

/// Whether the characters of `a` come before those of `b`.
pub fn text_less(a: &str, b: &str) -> (r: bool)
    ensures
        r == text_before(a@, b@),
{
    let x: Vec<char> = chars_of(a);
    let y: Vec<char> = chars_of(b);
    let mut i: usize = 0;
    assert(x@.subrange(0, x@.len() as int) =~= x@);
    assert(y@.subrange(0, y@.len() as int) =~= y@);
    while i < x.len() && i < y.len()
        invariant
            i <= x@.len(),
            i <= y@.len(),
            text_before(x@, y@) == text_before(
                x@.subrange(i as int, x@.len() as int),
                y@.subrange(i as int, y@.len() as int),
            ),
            x@ == a@,
            y@ == b@,
        decreases x@.len() - i,
    {
        let ghost xs = x@.subrange(i as int, x@.len() as int);
        let ghost ys = y@.subrange(i as int, y@.len() as int);
        if x[i] != y[i] {
            assert(xs[0] == x@[i as int]);
            assert(ys[0] == y@[i as int]);
            return x[i] < y[i];
        }
        assert(xs.subrange(1, xs.len() as int) =~= x@.subrange(i as int + 1, x@.len() as int));
        assert(ys.subrange(1, ys.len() as int) =~= y@.subrange(i as int + 1, y@.len() as int));
        i = i + 1;
    }
    i < y.len()
}

/// Whether `a` is listed before `b`.
pub fn newest_first(a: &Autopilot, b: &Autopilot) -> (r: bool)
    ensures
        r == listed_before(a@, b@),
{
    a.created_at > b.created_at || (a.created_at == b.created_at && text_less(
        a.id.as_str(),
        b.id.as_str(),
    ))
}

} // verus!
