//! Why a run may have come up short, in words.
use vstd::prelude::*;
use vstd::string::StringExecFns;

use crate::autopilot::model::{summaries_view, BoardScrapeSummary, SummaryView};
use crate::text::{occurs, occurs_at};

verus! {

/// Why a board came up short: that it failed counts first, then that it was skipped, then that
/// it returned only a part.
pub open spec fn board_reason(s: SummaryView) -> Option<Seq<char>> {
    if s.error is Some {
        s.error
    } else if s.skipped is Some {
        s.skipped
    } else {
        s.truncated
    }
}

/// A board that came up short, and why.
pub struct BoardReason {
    pub board: String,
    pub reason: String,
}

/// A board and a reason as values.
pub struct ReasonView {
    pub board: Seq<char>,
    pub reason: Seq<char>,
}

impl View for BoardReason {
    type V = ReasonView;

    open spec fn view(&self) -> ReasonView {
        ReasonView { board: self.board@, reason: self.reason@ }
    }
}

/// The reasons of a list as values.
pub open spec fn reasons_view(v: Seq<BoardReason>) -> Seq<ReasonView> {
    Seq::new(v.len(), |i: int| v[i]@)
}

/// The boards that came up short, in their order.
pub open spec fn short_boards(summaries: Seq<SummaryView>) -> Seq<ReasonView>
    decreases summaries.len(),
{
    if summaries.len() == 0 {
        Seq::empty()
    } else {
        let done = short_boards(summaries.drop_last());
        match board_reason(summaries.last()) {
            Some(reason) => done.push(ReasonView { board: summaries.last().board, reason }),
            None => done,
        }
    }
}

/// The reasons in one line: each board, a colon and its reason, with semicolons in between.
pub open spec fn reasons_line(reasons: Seq<ReasonView>) -> Seq<char>
    decreases reasons.len(),
{
    if reasons.len() == 0 {
        Seq::empty()
    } else {
        let last = reasons.last();
        let before = reasons_line(reasons.drop_last());
        (if reasons.len() == 1 {
            before
        } else {
            before + "; "@
        }) + last.board + ": "@ + last.reason
    }
}

/// The boards that came up short.
pub fn collect_reasons(summaries: &[BoardScrapeSummary]) -> (r: Vec<BoardReason>)
    ensures
        reasons_view(r@) == short_boards(summaries_view(summaries@)),
{
    let ghost view = summaries_view(summaries@);
    let mut out: Vec<BoardReason> = Vec::new();
    let mut i: usize = 0;
    assert(view.take(0) =~= Seq::empty());
    assert(reasons_view(out@) =~= Seq::empty());
    while i < summaries.len()
        invariant
            i <= summaries@.len(),
            view == summaries_view(summaries@),
            reasons_view(out@) == short_boards(view.take(i as int)),
        decreases summaries@.len() - i,
    {
        let s: &BoardScrapeSummary = &summaries[i];
        let ghost before = reasons_view(out@);
        proof {
            assert(view.take(i as int + 1).drop_last() =~= view.take(i as int));
            assert(view.take(i as int + 1).last() == s@);
        }
        let reason: &Option<String> = if s.error.is_some() {
            &s.error
        } else if s.skipped.is_some() {
            &s.skipped
        } else {
            &s.truncated
        };
        if let Some(text) = reason {
            out.push(BoardReason { board: s.board.clone(), reason: text.clone() });
            assert(reasons_view(out@) =~= before.push(
                ReasonView { board: s@.board, reason: text@ },
            ));
        }
        i = i + 1;
    }
    assert(view.take(view.len() as int) =~= view);
    out
}

/// The reasons in one line.
pub fn join_reasons(reasons: &Vec<BoardReason>) -> (r: String)
    ensures
        r@ == reasons_line(reasons_view(reasons@)),
{
    let ghost view = reasons_view(reasons@);
    let mut out = String::new();
    let mut i: usize = 0;
    assert(view.take(0) =~= Seq::empty());
    while i < reasons.len()
        invariant
            i <= reasons@.len(),
            view == reasons_view(reasons@),
            out@ == reasons_line(view.take(i as int)),
        decreases reasons@.len() - i,
    {
        assert(view.take(i as int + 1).drop_last() =~= view.take(i as int));
        if i > 0 {
            out.append("; ");
        }
        out.append(reasons[i].board.as_str());
        out.append(": ");
        out.append(reasons[i].reason.as_str());
        i = i + 1;
    }
    assert(view.take(view.len() as int) =~= view);
    out
}

/// Whether the reasons of `cleaned` are what `sanitize` made of those of `raw`, board by board.
pub open spec fn cleaned_by<F: Fn(&str) -> String>(
    sanitize: F,
    raw: Seq<ReasonView>,
    cleaned: Seq<ReasonView>,
) -> bool {
    &&& cleaned.len() == raw.len()
    &&& forall|i: int|
        0 <= i < raw.len() ==> (#[trigger] cleaned[i]).board == raw[i].board && exists|
            text: &str,
            out: String,
        | #[trigger]
            sanitize.ensures((text,), out) && text@ == raw[i].reason && out@ == cleaned[i].reason
}

/// Why a run may have come up short: the boards that did, each with its reason as `sanitize`
/// lets it through. Empty where no board came up short.
pub fn scrape_diagnostics<F: Fn(&str) -> String>(
    summaries: &[BoardScrapeSummary],
    sanitize: &F,
) -> (r: String)
    requires
        forall|text: &str| sanitize.requires((text,)),
    ensures
        exists|cleaned: Seq<ReasonView>| #[trigger]
            cleaned_by(*sanitize, short_boards(summaries_view(summaries@)), cleaned) && r@
                == reasons_line(cleaned),
{
    let raw: Vec<BoardReason> = collect_reasons(summaries);
    let mut cleaned: Vec<BoardReason> = Vec::new();
    let mut i: usize = 0;
    while i < raw.len()
        invariant
            i <= raw@.len(),
            cleaned@.len() == i,
            forall|text: &str| sanitize.requires((text,)),
            forall|k: int|
                0 <= k < i ==> (#[trigger] cleaned@[k])@.board == raw@[k]@.board && exists|
                    text: &str,
                    out: String,
                | #[trigger]
                    sanitize.ensures((text,), out) && text@ == raw@[k]@.reason && out@
                        == cleaned@[k]@.reason,
        decreases raw@.len() - i,
    {
        let text: &str = raw[i].reason.as_str();
        let out: String = sanitize(text);
        assert(sanitize.ensures((text,), out));
        cleaned.push(BoardReason { board: raw[i].board.clone(), reason: out });
        i = i + 1;
    }
    assert(cleaned_by(*sanitize, reasons_view(raw@), reasons_view(cleaned@)));
    join_reasons(&cleaned)
}

/// The line is empty exactly where no board came up short.
pub proof fn line_is_empty_without_reasons(reasons: Seq<ReasonView>)
    ensures
        reasons_line(reasons).len() == 0 <==> reasons.len() == 0,
{
    reveal_strlit(": ");
    if reasons.len() > 0 {
        assert(": "@.len() == 2);
    }
}

/// A board is named exactly where it failed, was skipped or returned only a part, with what it
/// says of that: the failure before all else, and the missing part only where there is nothing
/// else. The boards keep their order. `r` is where they stand.
pub proof fn every_short_board_is_named(summaries: Seq<SummaryView>) -> (r: Seq<int>)
    ensures
        r.len() == short_boards(summaries).len(),
        forall|j: int, k: int| 0 <= j < k < r.len() ==> #[trigger] r[j] < #[trigger] r[k],
        forall|k: int|
            0 <= k < r.len() ==> {
                let named = short_boards(summaries)[k];
                let s = summaries[#[trigger] r[k]];
                &&& 0 <= r[k] < summaries.len()
                &&& named.board == s.board
                &&& s.error is Some ==> named.reason == s.error->0
                &&& s.error is None && s.skipped is Some ==> named.reason == s.skipped->0
                &&& s.error is None && s.skipped is None ==> s.truncated == Some(named.reason)
            },
        forall|i: int|
            0 <= i < summaries.len() ==> ((#[trigger] summaries[i]).error is Some
                || summaries[i].skipped is Some || summaries[i].truncated is Some <==> r.contains(
                i,
            )),
    decreases summaries.len(),
{
    if summaries.len() == 0 {
        Seq::empty()
    } else {
        let rest = summaries.drop_last();
        let n = summaries.len() - 1;
        let before = every_short_board_is_named(rest);
        let s = summaries[n];
        let short = s.error is Some || s.skipped is Some || s.truncated is Some;
        let r = if short {
            before.push(n)
        } else {
            before
        };
        assert forall|k: int| 0 <= k < r.len() implies {
            let named = short_boards(summaries)[k];
            let s = summaries[#[trigger] r[k]];
            &&& 0 <= r[k] < summaries.len()
            &&& named.board == s.board
            &&& s.error is Some ==> named.reason == s.error->0
            &&& s.error is None && s.skipped is Some ==> named.reason == s.skipped->0
            &&& s.error is None && s.skipped is None ==> s.truncated == Some(named.reason)
        } by {
            if k < before.len() {
                assert(r[k] == before[k]);
                assert(rest[before[k]] == summaries[before[k]]);
            }
        }
        assert forall|j: int, k: int| 0 <= j < k < r.len() implies #[trigger] r[j]
            < #[trigger] r[k] by {
            assert(r[j] == before[j]);
            if k < before.len() {
                assert(r[k] == before[k]);
            }
        }
        assert forall|i: int| 0 <= i < summaries.len() implies ((#[trigger] summaries[i]).error is Some
            || summaries[i].skipped is Some || summaries[i].truncated is Some <==> r.contains(
            i,
        )) by {
            if i < n {
                assert(rest[i] == summaries[i]);
                if before.contains(i) {
                    let k = choose|k: int| 0 <= k < before.len() && before[k] == i;
                    assert(r[k] == i);
                }
                if r.contains(i) {
                    let k = choose|k: int| 0 <= k < r.len() && r[k] == i;
                    assert(before[k] == i);
                }
            } else if short {
                assert(r[before.len() as int] == n);
            } else if r.contains(n) {
                let k = choose|k: int| 0 <= k < before.len() && before[k] == n;
                assert(0 <= before[k] < rest.len());
            }
        }
        r
    }
}

/// The line holds every reason behind the name of its board.
pub proof fn line_holds_every_reason(reasons: Seq<ReasonView>, i: int)
    requires
        0 <= i < reasons.len(),
    ensures
        occurs(reasons_line(reasons), reasons[i].board + ": "@ + reasons[i].reason),
    decreases reasons.len(),
{
    let rest = reasons.drop_last();
    let before = reasons_line(rest);
    let line = reasons_line(reasons);
    let part = reasons[i].board + ": "@ + reasons[i].reason;
    if i < rest.len() {
        line_holds_every_reason(rest, i);
        let at = choose|at: int| occurs_at(before, part, at);
        assert(line.subrange(at, at + part.len()) =~= before.subrange(at, at + part.len()));
        assert(occurs_at(line, part, at));
    } else {
        let at = line.len() - part.len();
        assert(line.subrange(at, at + part.len()) =~= part);
        assert(occurs_at(line, part, at));
    }
}

/// A line grows by one reason at its end, behind a semicolon where it is not the first.
pub proof fn line_grows_at_its_end(reasons: Seq<ReasonView>, more: ReasonView)
    ensures
        reasons.len() == 0 ==> reasons_line(reasons.push(more)) == more.board + ": "@
            + more.reason,
        reasons.len() > 0 ==> reasons_line(reasons.push(more)) == reasons_line(reasons) + "; "@
            + more.board + ": "@ + more.reason,
{
    let all = reasons.push(more);
    assert(all.drop_last() =~= reasons);
    if reasons.len() == 0 {
        assert(reasons_line(reasons) =~= Seq::empty());
        assert(Seq::<char>::empty() + more.board + ": "@ + more.reason =~= more.board + ": "@
            + more.reason);
    }
}

/// What is said of a value of [`BoardReason`] is said of its own fields, each by its name.
pub proof fn reason_shows_its_own_fields(x: &BoardReason)
    ensures
        x@.board == x.board@,
        x@.reason == x.reason@,
{
}

} // verus!
