//! What the boards' summaries say of a run.
use vstd::prelude::*;

use crate::autopilot::model::{
    summaries_view, Autopilot, AutopilotView, BoardScrapeSummary, RunStatus, SummaryView,
};

verus! {

/// Whether a board did its work: it neither failed nor was it skipped.
pub open spec fn board_succeeded(s: SummaryView) -> bool {
    s.error is None && s.skipped is None
}

/// Whether a board failed or returned only a part.
pub open spec fn board_incomplete(s: SummaryView) -> bool {
    s.error is Some || s.truncated is Some
}

/// How a run with these summaries went. A run in which no board did its work has failed; one in
/// which some did is complete, with errors where a board failed or returned only a part. A
/// skipped board does not count against a run, and a run without boards is complete.
pub open spec fn run_status_of(summaries: Seq<SummaryView>) -> RunStatus {
    if summaries.len() == 0 {
        RunStatus::Completed
    } else if !exists|i: int| 0 <= i < summaries.len() && board_succeeded(#[trigger] summaries[i]) {
        RunStatus::Failed
    } else if exists|i: int| 0 <= i < summaries.len() && board_incomplete(#[trigger] summaries[i]) {
        RunStatus::CompletedWithErrors
    } else {
        RunStatus::Completed
    }
}

/// How a run went, from the summaries of its boards.
pub fn derive_run_status(summaries: &[BoardScrapeSummary]) -> (r: RunStatus)
    ensures
        r == run_status_of(summaries_view(summaries@)),
{
    let ghost view = summaries_view(summaries@);
    if summaries.len() == 0 {
        return RunStatus::Completed;
    }
    let mut succeeded: bool = false;
    let mut incomplete: bool = false;
    let mut i: usize = 0;
    while i < summaries.len()
        invariant
            i <= summaries@.len(),
            view == summaries_view(summaries@),
            succeeded == exists|k: int| 0 <= k < i && board_succeeded(#[trigger] view[k]),
            incomplete == exists|k: int| 0 <= k < i && board_incomplete(#[trigger] view[k]),
        decreases summaries@.len() - i,
    {
        let s: &BoardScrapeSummary = &summaries[i];
        let good: bool = s.error.is_none() && s.skipped.is_none();
        let partial: bool = s.error.is_some() || s.truncated.is_some();
        proof {
            assert(view[i as int] == s@);
            if good {
                assert(board_succeeded(view[i as int]));
            }
            if partial {
                assert(board_incomplete(view[i as int]));
            }
        }
        succeeded = succeeded || good;
        incomplete = incomplete || partial;
        i = i + 1;
    }
    if !succeeded {
        RunStatus::Failed
    } else if incomplete {
        RunStatus::CompletedWithErrors
    } else {
        RunStatus::Completed
    }
}

// ── The verdict on a board's health is never kept ───────────────────────────

/// Summaries without the verdicts on the boards' health.
pub open spec fn without_health(summaries: Seq<SummaryView>) -> Seq<SummaryView> {
    Seq::new(summaries.len(), |i: int| SummaryView { health: None, ..summaries[i] })
}

/// A record without the verdicts on the boards' health.
pub open spec fn stripped(ap: AutopilotView) -> AutopilotView {
    AutopilotView { last_run_summaries: without_health(ap.last_run_summaries), ..ap }
}

/// Removes the verdicts from summaries.
pub fn strip_summaries(summaries: &mut Vec<BoardScrapeSummary>)
    ensures
        summaries_view(final(summaries)@) == without_health(summaries_view(old(summaries)@)),
{
    let ghost start = summaries_view(summaries@);
    let mut i: usize = 0;
    while i < summaries.len()
        invariant
            i <= summaries@.len(),
            summaries@.len() == start.len(),
            forall|k: int|
                0 <= k < i ==> (#[trigger] summaries@[k])@ == (SummaryView {
                    health: None,
                    ..start[k]
                }),
            forall|k: int| i <= k < start.len() ==> (#[trigger] summaries@[k])@ == start[k],
        decreases summaries@.len() - i,
    {
        summaries[i].health = None;
        i = i + 1;
    }
    assert(summaries_view(summaries@) =~= without_health(start));
}

/// Removes the verdicts from records.
pub fn strip_board_health(records: &mut Vec<Autopilot>)
    ensures
        final(records)@.len() == old(records)@.len(),
        forall|i: int|
            0 <= i < old(records)@.len() ==> (#[trigger] final(records)@[i])@ == stripped(
                old(records)@[i]@,
            ),
{
    let ghost start = records@;
    let mut i: usize = 0;
    while i < records.len()
        invariant
            i <= records@.len(),
            records@.len() == start.len(),
            forall|k: int| 0 <= k < i ==> (#[trigger] records@[k])@ == stripped(start[k]@),
            forall|k: int| i <= k < start.len() ==> (#[trigger] records@[k]) == start[k],
        decreases records@.len() - i,
    {
        strip_summaries(&mut records[i].last_run_summaries);
        assert(records@[i as int]@ =~= stripped(start[i as int]@));
        i = i + 1;
    }
}

/// A stripped record has no verdict left, and keeps the rest of every summary.
pub proof fn stripped_has_no_health(ap: AutopilotView)
    ensures
        forall|i: int|
            0 <= i < stripped(ap).last_run_summaries.len() ==> (
            #[trigger] stripped(ap).last_run_summaries[i]).health is None,
        stripped(ap).last_run_summaries.len() == ap.last_run_summaries.len(),
        stripped(stripped(ap)) == stripped(ap),
{
    assert(stripped(stripped(ap)).last_run_summaries =~= stripped(ap).last_run_summaries);
}

} // verus!
