//! Reading the fields of a request.
use vstd::prelude::*;

use crate::autopilot::model::WorkType;
use crate::json::{items, Json, JsonView};
use crate::text::{owned, str_eq, texts};

verus! {

/// The text under a key, empty where there is none.
pub open spec fn text_or_empty(v: JsonView, key: Seq<char>) -> Seq<char> {
    match v.text_at(key) {
        Some(s) => s,
        None => Seq::empty(),
    }
}

/// The number under a key, where it is at most `max`.
pub open spec fn number_up_to(v: JsonView, key: Seq<char>, max: u32) -> Option<u32> {
    match v.unsigned_at(key) {
        Some(n) => if n <= max {
            Some(n as u32)
        } else {
            None
        },
        None => None,
    }
}

/// The text under a key, empty where there is none.
pub fn str_field(v: &Json, key: &str) -> (r: String)
    ensures
        r@ == text_or_empty(v@, key@),
{
    match v.str_at(key) {
        Some(s) => owned(s),
        None => String::new(),
    }
}

/// The number under a key, where it is at most `max`. A missing, misplaced or too large value
/// gives none, so that it falls back to a default instead of being kept.
pub fn u32_field_in_range(v: &Json, key: &str, max: u32) -> (r: Option<u32>)
    ensures
        r == number_up_to(v@, key@, max),
{
    match v.u64_at(key) {
        Some(n) => if n <= max as u64 {
            Some(n as u32)
        } else {
            None
        },
        None => None,
    }
}

// ── Boards ──────────────────────────────────────────────────────────────────

/// The texts of an array, `None` where an item is no text.
pub open spec fn all_texts(v: Seq<JsonView>) -> Option<Seq<Seq<char>>> {
    if forall|i: int| 0 <= i < v.len() ==> (#[trigger] v[i]) is Text {
        Some(Seq::new(v.len(), |i: int| v[i]->Text_0))
    } else {
        None
    }
}

/// The boards that a value names: a text is one board, an array of texts several, null none. Any
/// other value names no boards at all.
pub open spec fn boards_of(v: JsonView) -> Option<Seq<Seq<char>>> {
    match v {
        JsonView::Text(s) => Some(seq![s]),
        JsonView::Array(a) => all_texts(a),
        JsonView::Null => Some(Seq::empty()),
        _ => None,
    }
}

/// Reads the boards of a target, in the form of one text or of an array of texts.
pub fn string_or_vec(v: &Json) -> (r: Option<Vec<String>>)
    ensures
        match r {
            Some(boards) => boards_of(v@) == Some(texts(boards@)),
            None => boards_of(v@) is None,
        },
{
    proof {
        crate::json::view_of_parts(*v);
    }
    match v {
        Json::Text(s) => {
            let mut out: Vec<String> = Vec::new();
            out.push(s.clone());
            assert(texts(out@) =~= seq![s@]);
            Some(out)
        },
        Json::Null => {
            let out: Vec<String> = Vec::new();
            assert(texts(out@) =~= Seq::empty());
            Some(out)
        },
        Json::Array(a) => {
            let ghost view = items(a@);
            let mut out: Vec<String> = Vec::new();
            let mut i: usize = 0;
            while i < a.len()
                invariant
                    i <= a@.len(),
                    view == items(a@),
                    v@ == JsonView::Array(view),
                    out@.len() == i,
                    forall|k: int|
                        0 <= k < i ==> (#[trigger] view[k]) is Text && view[k]->Text_0
                            == out@[k]@,
                decreases a@.len() - i,
            {
                match a[i].as_str() {
                    Some(s) => {
                        assert(view[i as int] == JsonView::Text(s@));
                        out.push(owned(s));
                    },
                    None => {
                        assert(!(view[i as int] is Text));
                        return None;
                    },
                }
                i = i + 1;
            }
            assert(all_texts(view)->0 =~= texts(out@));
            Some(out)
        },
        _ => None,
    }
}

// ── Work types ──────────────────────────────────────────────────────────────

/// The work type that a name stands for.
pub open spec fn work_type_named(s: Seq<char>) -> Option<WorkType> {
    if s == "remote"@ {
        Some(WorkType::Remote)
    } else if s == "hybrid"@ {
        Some(WorkType::Hybrid)
    } else if s == "on-site"@ {
        Some(WorkType::OnSite)
    } else {
        None
    }
}

/// The work types that names stand for, in their order, without the names that stand for none.
pub open spec fn work_types_named(names: Seq<Seq<char>>) -> Seq<WorkType>
    decreases names.len(),
{
    if names.len() == 0 {
        Seq::empty()
    } else {
        let done = work_types_named(names.drop_last());
        match work_type_named(names.last()) {
            Some(w) => done.push(w),
            None => done,
        }
    }
}

impl WorkType {
    /// Reads the name of a work type.
    pub fn parse(s: &str) -> (r: Option<WorkType>)
        ensures
            r == work_type_named(s@),
    {
        if str_eq(s, "remote") {
            Some(WorkType::Remote)
        } else if str_eq(s, "hybrid") {
            Some(WorkType::Hybrid)
        } else if str_eq(s, "on-site") {
            Some(WorkType::OnSite)
        } else {
            None
        }
    }

    /// The name of a work type.
    pub fn name(&self) -> (r: &'static str)
        ensures
            work_type_named(r@) == Some(*self),
    {
        proof {
            reveal_strlit("remote");
            reveal_strlit("hybrid");
            reveal_strlit("on-site");
            assert("remote"@[0] == 'r');
            assert("hybrid"@[0] == 'h');
            assert("on-site"@[0] == 'o');
        }
        match self {
            WorkType::Remote => "remote",
            WorkType::Hybrid => "hybrid",
            WorkType::OnSite => "on-site",
        }
    }
}

/// Reads a list of work types. A name that stands for none is left out rather than making the
/// whole list unreadable.
pub fn parse_work_types_lenient(names: &Vec<String>) -> (r: Vec<WorkType>)
    ensures
        r@ == work_types_named(texts(names@)),
{
    let ghost view = texts(names@);
    let mut out: Vec<WorkType> = Vec::new();
    let mut i: usize = 0;
    assert(view.take(0) =~= Seq::empty());
    while i < names.len()
        invariant
            i <= names@.len(),
            view == texts(names@),
            out@ == work_types_named(view.take(i as int)),
        decreases names@.len() - i,
    {
        assert(view.take(i as int + 1).drop_last() =~= view.take(i as int));
        assert(view.take(i as int + 1).last() == names@[i as int]@);
        if let Some(w) = WorkType::parse(names[i].as_str()) {
            out.push(w);
        }
        i = i + 1;
    }
    assert(view.take(view.len() as int) =~= view);
    out
}

/// The names of a work type list read back as the same list.
pub proof fn work_type_names_read_back(w: Seq<WorkType>, names: Seq<Seq<char>>)
    requires
        w.len() == names.len(),
        forall|i: int| 0 <= i < w.len() ==> work_type_named(#[trigger] names[i]) == Some(w[i]),
    ensures
        work_types_named(names) == w,
    decreases w.len(),
{
    if w.len() > 0 {
        work_type_names_read_back(w.drop_last(), names.drop_last());
        assert(w =~= w.drop_last().push(w.last()));
        assert(names[names.len() - 1] == names.last());
    } else {
        assert(work_types_named(names) =~= w);
    }
}

} // verus!
