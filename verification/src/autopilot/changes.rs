//! What the operations on records do to each field.
use vstd::prelude::*;

use crate::agent_read::contents::automation_says_what_it_has;
use crate::agent_read::projection::{automation_value, status_text};
use crate::autopilot::cluster::{
    annotated, assignments_view, cluster_inputs, new_keys, AssignmentView, ClusterAssignment,
    ClusterInput,
};
use crate::autopilot::fields::{boards_of, number_up_to, work_type_named, work_types_named};
use crate::autopilot::merge::merged_by;
use crate::autopilot::model::{
    Autopilot, AutopilotStatus, AutopilotView, FilterView, FoundJobView, RunStatus, SummaryView,
    TargetView, TrustAssessment, TrustView, WorkType,
};
use crate::autopilot::order::{listed_before, text_before};
use crate::autopilot::records::by_id;
use crate::autopilot::relax::relaxed;
use crate::autopilot::requests::{created, patched};
use crate::autopilot::status::{run_status_of, stripped};
use crate::autopilot::store::{
    after_run, all_set_flags, corrected, job_corrected, readable, reconciled, record_corrected,
    run_merged, set_flags, with_bare_run_status, with_last_run, with_record, with_run_status,
    with_status,
};
use crate::json::JsonView;
use crate::text::white;

verus! {

// ── Requests ────────────────────────────────────────────────────────────────

/// The text that a request has under a key, where there is one.
pub open spec fn asked_text(request: JsonView, key: Seq<char>) -> Option<Seq<char>> {
    match request.get(key) {
        Some(JsonView::Text(s)) => Some(s),
        _ => None,
    }
}

/// The number that a request has under a key, where it is a whole number from zero to `max`.
pub open spec fn asked_number(request: JsonView, key: Seq<char>, max: int) -> Option<u32> {
    match request.get(key) {
        Some(JsonView::Int(n)) => if 0 <= n <= max {
            Some(n as u32)
        } else {
            None
        },
        _ => None,
    }
}

/// What was asked for where something was, and the other where nothing was.
pub open spec fn asked_or<T>(asked: Option<T>, otherwise: T) -> T {
    match asked {
        Some(x) => x,
        None => otherwise,
    }
}

/// The wire name of a status.
pub open spec fn name_of_status(s: AutopilotStatus) -> Seq<char> {
    match s {
        AutopilotStatus::Active => "active"@,
        AutopilotStatus::Paused => "paused"@,
        AutopilotStatus::Archived => "archived"@,
    }
}

proof fn lemma_status_names()
    ensures
        "active"@ != "paused"@,
        "active"@ != "archived"@,
        "paused"@ != "archived"@,
{
    reveal_strlit("active");
    reveal_strlit("paused");
    reveal_strlit("archived");
    assert("active"@[0] == 'a' && "active"@.len() == 6);
    assert("paused"@[0] == 'p' && "paused"@.len() == 6);
    assert("archived"@[0] == 'a' && "archived"@.len() == 8);
}

/// Naming a status and reading its name are inverse: a patch whose text under `status` is the wire
/// name of a status leaves a record with that status, and the record then shows that name.
pub proof fn status_names_read_back(
    ap: AutopilotView,
    patch: JsonView,
    target: Option<TargetView>,
    filter: Option<FilterView>,
    now: u64,
    s: AutopilotStatus,
)
    requires
        patch.get("status"@) == Some(JsonView::Text(name_of_status(s))),
    ensures
        patched(ap, patch, target, filter, now).status == s,
        automation_value(patched(ap, patch, target, filter, now)).get("status"@) == patch.get(
            "status"@,
        ),
        status_text(s) == name_of_status(s),
{
    lemma_status_names();
    automation_says_what_it_has(patched(ap, patch, target, filter, now));
}

/// A patch pauses a record only by the name `paused`, archives it only by the name `archived`, and
/// makes it active by any other text; without a text the status stays.
pub proof fn status_follows_its_name(
    ap: AutopilotView,
    patch: JsonView,
    target: Option<TargetView>,
    filter: Option<FilterView>,
    now: u64,
)
    ensures
        ({
            let after = patched(ap, patch, target, filter, now);
            match asked_text(patch, "status"@) {
                None => after.status == ap.status,
                Some(name) => {
                    &&& after.status == AutopilotStatus::Paused <==> name == "paused"@
                    &&& after.status == AutopilotStatus::Archived <==> name == "archived"@
                    &&& after.status == AutopilotStatus::Active <==> name != "paused"@ && name
                        != "archived"@
                },
            }
        }),
{
    lemma_status_names();
}

/// A patch sets each field that it names, and leaves each that it does not. A time out of range
/// clears the time. Switching the notes off clears what the notes were written with, unless the
/// patch sets it.
pub proof fn patch_sets_what_it_names(
    ap: AutopilotView,
    patch: JsonView,
    target: Option<TargetView>,
    filter: Option<FilterView>,
    now: u64,
)
    ensures
        ({
            let after = patched(ap, patch, target, filter, now);
            let off = patch.get("assistant"@) == Some(JsonView::Bool(false));
            &&& after.name == asked_or(asked_text(patch, "name"@), ap.name)
            &&& after.schedule == asked_or(asked_text(patch, "schedule"@), ap.schedule)
            &&& after.target == asked_or(target, ap.target)
            &&& after.filter == asked_or(filter, ap.filter)
            &&& patch.get("scheduleHour"@) is None ==> after.schedule_hour == ap.schedule_hour
            &&& patch.get("scheduleHour"@) is Some ==> after.schedule_hour == asked_number(
                patch,
                "scheduleHour"@,
                23,
            )
            &&& patch.get("scheduleMinute"@) is None ==> after.schedule_minute
                == ap.schedule_minute
            &&& patch.get("scheduleMinute"@) is Some ==> after.schedule_minute == asked_number(
                patch,
                "scheduleMinute"@,
                59,
            )
            &&& asked_text(patch, "resumeText"@) is Some ==> after.resume_text == asked_text(
                patch,
                "resumeText"@,
            )
            &&& asked_text(patch, "resumeText"@) is None ==> after.resume_text == ap.resume_text
            &&& asked_text(patch, "coverLetter"@) is Some ==> after.cover_letter == asked_text(
                patch,
                "coverLetter"@,
            )
            &&& asked_text(patch, "coverLetter"@) is None ==> after.cover_letter
                == ap.cover_letter
            &&& after.assistant == (match patch.get("assistant"@) {
                Some(JsonView::Bool(b)) => b,
                _ => ap.assistant,
            })
            &&& after.assistant_provider == (match asked_text(patch, "assistantProvider"@) {
                Some(s) => Some(s),
                None => if off {
                    None
                } else {
                    ap.assistant_provider
                },
            })
            &&& after.assistant_model == (match asked_text(patch, "assistantModel"@) {
                Some(s) => Some(s),
                None => if off {
                    None
                } else {
                    ap.assistant_model
                },
            })
            &&& after.assistant_base_url == (match asked_text(patch, "assistantBaseUrl"@) {
                Some(s) => Some(s),
                None => if off {
                    None
                } else {
                    ap.assistant_base_url
                },
            })
            &&& after.updated_at == now
        }),
{
}

/// A record is created with what the request says under each name, active and without runs. A
/// text that the request does not have is empty or missing, and a time out of range is missing. A
/// record without a target searches nothing, on one page, for the best three; without a filter it
/// keeps every posting.
pub proof fn created_record_has_what_was_asked(
    input: JsonView,
    target: Option<TargetView>,
    filter: Option<FilterView>,
    id: Seq<char>,
    now: u64,
)
    ensures
        ({
            let ap = created(input, target, filter, id, now);
            &&& ap.id == id
            &&& ap.created_at == now
            &&& ap.updated_at == now
            &&& ap.status == AutopilotStatus::Active
            &&& ap.name == asked_or(asked_text(input, "name"@), Seq::empty())
            &&& ap.schedule == asked_or(asked_text(input, "schedule"@), Seq::empty())
            &&& ap.schedule_hour == asked_number(input, "scheduleHour"@, 23)
            &&& ap.schedule_minute == asked_number(input, "scheduleMinute"@, 59)
            &&& ap.resume_text == asked_text(input, "resumeText"@)
            &&& ap.cover_letter == asked_text(input, "coverLetter"@)
            &&& ap.assistant <==> input.get("assistant"@) == Some(JsonView::Bool(true))
            &&& ap.assistant_provider == asked_text(input, "assistantProvider"@)
            &&& ap.assistant_model == asked_text(input, "assistantModel"@)
            &&& ap.assistant_base_url == asked_text(input, "assistantBaseUrl"@)
            &&& target is Some ==> ap.target == target->0
            &&& target is None ==> {
                &&& ap.target.boards.len() == 0
                &&& ap.target.query.len() == 0
                &&& ap.target.location is None
                &&& ap.target.country_code is None
                &&& ap.target.work_types is None
                &&& ap.target.pages == 1
                &&& ap.target.date_filter is None
                &&& ap.target.top_n == 3
                &&& ap.target.watched_companies_only is None
            }
            &&& filter is Some ==> ap.filter == filter->0
            &&& filter is None ==> {
                &&& ap.filter.min_match_score == "0.0"@
                &&& ap.filter.keywords is None
                &&& ap.filter.exclude_keywords is None
            }
            &&& ap.total_found == 0
            &&& ap.total_applied == 0
            &&& ap.found_jobs.len() == 0
            &&& ap.run_status is None
            &&& ap.last_run_summaries.len() == 0
            &&& ap.last_run_at is None
        }),
{
}

/// A number is read exactly where a whole number from zero to the largest stands under the key.
pub proof fn numbers_in_range_are_read(v: JsonView, key: Seq<char>, max: u32, n: u32)
    ensures
        number_up_to(v, key, max) == Some(n) <==> v.get(key) == Some(JsonView::Int(n as int)) && n
            <= max,
{
}

/// A text names one board, a list of texts each of its items in order, null none; a list with
/// anything else in it, or any other value, names no boards at all.
pub proof fn boards_are_read_in_order(v: JsonView)
    ensures
        match v {
            JsonView::Text(s) => boards_of(v) == Some(seq![s]),
            JsonView::Null => boards_of(v) == Some(Seq::<Seq<char>>::empty()),
            JsonView::Array(items) => match boards_of(v) {
                Some(boards) => boards.len() == items.len() && forall|i: int|
                    0 <= i < items.len() ==> #[trigger] items[i] == JsonView::Text(boards[i]),
                None => exists|i: int| 0 <= i < items.len() && !((#[trigger] items[i]) is Text),
            },
            _ => boards_of(v) is None,
        },
{
}

/// A work type has exactly one name.
pub proof fn work_types_have_one_name(s: Seq<char>)
    ensures
        work_type_named(s) == Some(WorkType::Remote) <==> s == "remote"@,
        work_type_named(s) == Some(WorkType::Hybrid) <==> s == "hybrid"@,
        work_type_named(s) == Some(WorkType::OnSite) <==> s == "on-site"@,
        work_type_named(s) is None <==> s != "remote"@ && s != "hybrid"@ && s != "on-site"@,
{
    reveal_strlit("remote");
    reveal_strlit("hybrid");
    reveal_strlit("on-site");
    assert("remote"@[0] == 'r');
    assert("hybrid"@[0] == 'h');
    assert("on-site"@[0] == 'o');
}

/// The work types of a list of names are those of the names that stand for one, in their order.
/// `r` is where these stand.
pub proof fn known_work_types_are_kept(names: Seq<Seq<char>>) -> (r: Seq<int>)
    ensures
        r.len() == work_types_named(names).len(),
        forall|j: int, k: int| 0 <= j < k < r.len() ==> #[trigger] r[j] < #[trigger] r[k],
        forall|k: int|
            0 <= k < r.len() ==> 0 <= #[trigger] r[k] < names.len() && work_type_named(names[r[k]])
                == Some(work_types_named(names)[k]),
        forall|i: int|
            0 <= i < names.len() && work_type_named(#[trigger] names[i]) is Some ==> r.contains(i),
    decreases names.len(),
{
    if names.len() == 0 {
        Seq::empty()
    } else {
        let rest = names.drop_last();
        let n = names.len() - 1;
        let before = known_work_types_are_kept(rest);
        let known = work_type_named(names[n]) is Some;
        let r = if known {
            before.push(n)
        } else {
            before
        };
        assert forall|k: int| 0 <= k < r.len() implies 0 <= #[trigger] r[k] < names.len()
            && work_type_named(names[r[k]]) == Some(work_types_named(names)[k]) by {
            if k < before.len() {
                assert(r[k] == before[k]);
                assert(rest[before[k]] == names[before[k]]);
            }
        }
        assert forall|j: int, k: int| 0 <= j < k < r.len() implies #[trigger] r[j]
            < #[trigger] r[k] by {
            assert(r[j] == before[j]);
            if k < before.len() {
                assert(r[k] == before[k]);
            }
        }
        assert forall|i: int|
            0 <= i < names.len() && work_type_named(#[trigger] names[i]) is Some implies r.contains(
            i,
        ) by {
            if i < n {
                assert(rest[i] == names[i]);
                let k = choose|k: int| 0 <= k < before.len() && before[k] == i;
                assert(r[k] == i);
            } else {
                assert(r[before.len() as int] == n);
            }
        }
        r
    }
}

// ── Runs ────────────────────────────────────────────────────────────────────

/// A run has failed exactly where it had boards and each of them failed or was skipped. Otherwise
/// it is complete, with errors exactly where a board failed or returned only a part. A run is never
/// left in progress or interrupted by its summaries.
pub proof fn outcome_follows_the_boards(summaries: Seq<SummaryView>)
    ensures
        ({
            let none_worked = summaries.len() > 0 && forall|i: int|
                0 <= i < summaries.len() ==> (#[trigger] summaries[i]).error is Some
                    || summaries[i].skipped is Some;
            let some_short = exists|i: int|
                0 <= i < summaries.len() && ((#[trigger] summaries[i]).error is Some
                    || summaries[i].truncated is Some);
            &&& run_status_of(summaries) == RunStatus::Failed <==> none_worked
            &&& run_status_of(summaries) == RunStatus::CompletedWithErrors <==> !none_worked
                && some_short
            &&& run_status_of(summaries) == RunStatus::Completed <==> !none_worked && !some_short
        }),
{
    if summaries.len() > 0 && exists|i: int|
        0 <= i < summaries.len() && (#[trigger] summaries[i]).error is None
            && summaries[i].skipped is None {
        let i = choose|i: int|
            0 <= i < summaries.len() && (#[trigger] summaries[i]).error is None
                && summaries[i].skipped is None;
        assert(crate::autopilot::status::board_succeeded(summaries[i]));
    }
    if exists|i: int|
        0 <= i < summaries.len() && ((#[trigger] summaries[i]).error is Some
            || summaries[i].truncated is Some) {
        let i = choose|i: int|
            0 <= i < summaries.len() && ((#[trigger] summaries[i]).error is Some
                || summaries[i].truncated is Some);
        assert(crate::autopilot::status::board_incomplete(summaries[i]));
    }
}

/// A run leaves its counts, its jobs, its outcome and its time, and summaries that say what the
/// run's summaries say; nothing that a user sets is touched.
pub proof fn run_leaves_what_it_found(
    ap: AutopilotView,
    total_found: u32,
    total_applied: u32,
    jobs: Seq<FoundJobView>,
    summaries: Seq<SummaryView>,
    now: u64,
)
    ensures
        ({
            let after = after_run(ap, total_found, total_applied, jobs, summaries, now);
            &&& after.total_found == total_found
            &&& after.total_applied == total_applied
            &&& after.found_jobs == jobs
            &&& after.run_status == Some(run_status_of(summaries))
            &&& after.last_run_at == Some(now)
            &&& after.updated_at == now
            &&& after.last_run_summaries.len() == summaries.len()
            &&& forall|i: int|
                0 <= i < summaries.len() ==> same_but_health(
                    #[trigger] after.last_run_summaries[i],
                    summaries[i],
                )
            &&& same_settings(after, ap)
        }),
{
}

/// Whether two summaries say the same but for the health of the board.
pub open spec fn same_but_health(a: SummaryView, b: SummaryView) -> bool {
    &&& a.board == b.board
    &&& a.count == b.count
    &&& a.error == b.error
    &&& a.skipped == b.skipped
    &&& a.truncated == b.truncated
    &&& a.notes == b.notes
}

/// Whether two records agree in who they are and in all that a user sets.
pub open spec fn same_settings(a: AutopilotView, b: AutopilotView) -> bool {
    &&& a.id == b.id
    &&& a.name == b.name
    &&& a.status == b.status
    &&& a.target == b.target
    &&& a.filter == b.filter
    &&& a.schedule == b.schedule
    &&& a.schedule_hour == b.schedule_hour
    &&& a.schedule_minute == b.schedule_minute
    &&& a.resume_text == b.resume_text
    &&& a.cover_letter == b.cover_letter
    &&& a.assistant == b.assistant
    &&& a.assistant_provider == b.assistant_provider
    &&& a.assistant_model == b.assistant_model
    &&& a.assistant_base_url == b.assistant_base_url
    &&& a.created_at == b.created_at
}

/// Whether two records agree in what their runs have found.
pub open spec fn same_finds(a: AutopilotView, b: AutopilotView) -> bool {
    &&& a.total_found == b.total_found
    &&& a.total_applied == b.total_applied
    &&& a.found_jobs == b.found_jobs
}

/// Setting a status sets that status; setting an outcome sets that outcome, and takes the
/// summaries along only where a run starts or ends without any; marking a run sets its time. Each
/// leaves the rest of the record, and says when it was.
pub proof fn each_mark_sets_its_field(
    ap: AutopilotView,
    status: AutopilotStatus,
    outcome: RunStatus,
    now: u64,
)
    ensures
        ({
            let a = with_status(ap, status, now);
            &&& a.status == status
            &&& a.updated_at == now
            &&& same_settings(AutopilotView { status: ap.status, ..a }, ap)
            &&& same_finds(a, ap)
            &&& a.run_status == ap.run_status
            &&& a.last_run_summaries == ap.last_run_summaries
            &&& a.last_run_at == ap.last_run_at
        }),
        ({
            let a = with_run_status(ap, outcome, now);
            &&& a.run_status == Some(outcome)
            &&& a.updated_at == now
            &&& same_settings(a, ap)
            &&& same_finds(a, ap)
            &&& a.last_run_summaries == ap.last_run_summaries
            &&& a.last_run_at == ap.last_run_at
        }),
        ({
            let a = with_bare_run_status(ap, outcome, now);
            &&& a.run_status == Some(outcome)
            &&& a.updated_at == now
            &&& same_settings(a, ap)
            &&& same_finds(a, ap)
            &&& a.last_run_summaries.len() == 0
            &&& a.last_run_at == ap.last_run_at
        }),
        ({
            let a = with_last_run(ap, now);
            &&& a.last_run_at == Some(now)
            &&& a.updated_at == now
            &&& same_settings(a, ap)
            &&& same_finds(a, ap)
            &&& a.run_status == ap.run_status
            &&& a.last_run_summaries == ap.last_run_summaries
        }),
{
}

/// The sweep at the start turns a run in progress into an interrupted one, at that time, and
/// leaves every record whose run is not in progress as it is.
pub proof fn sweep_interrupts_what_is_in_progress(ap: AutopilotView, now: u64)
    ensures
        ap.run_status == Some(RunStatus::InProgress) ==> {
            let a = reconciled(ap, now);
            &&& a.run_status == Some(RunStatus::Interrupted)
            &&& a.updated_at == now
            &&& same_settings(a, ap)
            &&& same_finds(a, ap)
            &&& a.last_run_summaries == ap.last_run_summaries
            &&& a.last_run_at == ap.last_run_at
        },
        ap.run_status != Some(RunStatus::InProgress) ==> reconciled(ap, now) == ap,
{
}

/// Taking the verdicts on the boards' health out of a record leaves all else in it.
pub proof fn stripping_takes_only_the_health(ap: AutopilotView)
    ensures
        same_settings(stripped(ap), ap),
        same_finds(stripped(ap), ap),
        stripped(ap).run_status == ap.run_status,
        stripped(ap).last_run_at == ap.last_run_at,
        stripped(ap).updated_at == ap.updated_at,
        stripped(ap).last_run_summaries.len() == ap.last_run_summaries.len(),
        forall|i: int|
            0 <= i < ap.last_run_summaries.len() ==> same_but_health(
                #[trigger] stripped(ap).last_run_summaries[i],
                ap.last_run_summaries[i],
            ) && stripped(ap).last_run_summaries[i].health is None,
{
}

/// Loosening takes out the score of fifty and the date of one day that used to be filled in, each
/// where it stands, and the keywords where either stood. A record that has neither stays as it is,
/// and nothing else in a record changes.
pub proof fn loosening_takes_out_what_was_filled_in(ap: AutopilotView)
    ensures
        ({
            let a = relaxed(ap);
            let score = ap.filter.min_match_score == "50.0"@;
            let date = ap.target.date_filter == Some("24h"@);
            &&& score ==> a.filter.min_match_score == "0.0"@
            &&& !score ==> a.filter.min_match_score == ap.filter.min_match_score
            &&& date ==> a.target.date_filter is None
            &&& !date ==> a.target.date_filter == ap.target.date_filter
            &&& score || date ==> a.filter.keywords is None
            &&& !score && !date ==> a == ap
            &&& a.filter.exclude_keywords == ap.filter.exclude_keywords
            &&& a.target == (TargetView { date_filter: a.target.date_filter, ..ap.target })
            &&& a == (AutopilotView { target: a.target, filter: a.filter, ..ap })
        }),
{
    if ap.filter.min_match_score != "50.0"@ && ap.target.date_filter != Some("24h"@) {
        assert(relaxed(ap) =~= ap);
    }
}

/// A change of one record reaches that record alone, and makes none where there is none.
pub proof fn change_reaches_one_record(
    store: Map<Seq<char>, AutopilotView>,
    id: Seq<char>,
    ap: AutopilotView,
    other: Seq<char>,
)
    ensures
        with_record(store, id, ap).dom() == store.dom(),
        store.contains_key(id) ==> with_record(store, id, ap)[id] == ap,
        other != id && store.contains_key(other) ==> with_record(store, id, ap)[other]
            == store[other],
        !store.contains_key(id) ==> with_record(store, id, ap) == store,
{
    if store.contains_key(id) {
        assert(store.insert(id, ap).dom() =~= store.dom());
    }
}

/// Of several records with one id the last counts.
pub proof fn last_record_of_an_id_counts(s: Seq<AutopilotView>, i: int)
    requires
        0 <= i < s.len(),
        forall|k: int| i < k < s.len() ==> (#[trigger] s[k]).id != s[i].id,
    ensures
        by_id(s).contains_key(s[i].id),
        by_id(s)[s[i].id] == s[i],
    decreases s.len(),
{
    let rest = s.drop_last();
    if i < rest.len() {
        assert(rest[i] == s[i]);
        assert forall|k: int| i < k < rest.len() implies (#[trigger] rest[k]).id != rest[i].id by {
            assert(rest[k] == s[k]);
        }
        last_record_of_an_id_counts(rest, i);
        assert(s[s.len() - 1].id != s[i].id);
    }
}

/// What can be read of a list of records are the rows that are there, in their order. `r` is where
/// they stand.
pub proof fn readable_rows_are_kept(rows: Seq<Option<Autopilot>>) -> (r: Seq<int>)
    ensures
        r.len() == readable(rows).len(),
        forall|j: int, k: int| 0 <= j < k < r.len() ==> #[trigger] r[j] < #[trigger] r[k],
        forall|k: int|
            0 <= k < r.len() ==> 0 <= #[trigger] r[k] < rows.len() && rows[r[k]] is Some
                && rows[r[k]]->0@ == readable(rows)[k],
        forall|i: int| 0 <= i < rows.len() && (#[trigger] rows[i]) is Some ==> r.contains(i),
    decreases rows.len(),
{
    if rows.len() == 0 {
        Seq::empty()
    } else {
        let rest = rows.drop_last();
        let n = rows.len() - 1;
        let before = readable_rows_are_kept(rest);
        let r = if rows[n] is Some {
            before.push(n)
        } else {
            before
        };
        assert forall|k: int| 0 <= k < r.len() implies 0 <= #[trigger] r[k] < rows.len()
            && rows[r[k]] is Some && rows[r[k]]->0@ == readable(rows)[k] by {
            if k < before.len() {
                assert(r[k] == before[k]);
                assert(rest[before[k]] == rows[before[k]]);
            }
        }
        assert forall|j: int, k: int| 0 <= j < k < r.len() implies #[trigger] r[j]
            < #[trigger] r[k] by {
            assert(r[j] == before[j]);
            if k < before.len() {
                assert(r[k] == before[k]);
            }
        }
        assert forall|i: int| 0 <= i < rows.len() && (#[trigger] rows[i]) is Some implies r.contains(
            i,
        ) by {
            if i < n {
                assert(rest[i] == rows[i]);
                let k = choose|k: int| 0 <= k < before.len() && before[k] == i;
                assert(r[k] == i);
            } else {
                assert(r[before.len() as int] == n);
            }
        }
        r
    }
}

// ── Order ───────────────────────────────────────────────────────────────────

/// A text comes before another exactly where it is a shorter beginning of it, or has the smaller
/// character at the first place where they differ.
pub proof fn texts_are_ordered_by_their_first_difference(a: Seq<char>, b: Seq<char>)
    ensures
        text_before(a, b) <==> exists|n: int| #[trigger] differs_first_at(a, b, n),
    decreases a.len(),
{
    if a.len() > 0 && b.len() > 0 && a[0] == b[0] {
        let x = a.subrange(1, a.len() as int);
        let y = b.subrange(1, b.len() as int);
        texts_are_ordered_by_their_first_difference(x, y);
        if text_before(x, y) {
            let n = choose|n: int| #[trigger] differs_first_at(x, y, n);
            assert forall|i: int| 0 <= i < n + 1 implies #[trigger] a[i] == b[i] by {
                if i > 0 {
                    assert(x[i - 1] == y[i - 1]);
                }
            }
            assert(differs_first_at(a, b, n + 1));
        }
        if exists|n: int| #[trigger] differs_first_at(a, b, n) {
            let n = choose|n: int| #[trigger] differs_first_at(a, b, n);
            assert forall|i: int| 0 <= i < n - 1 implies #[trigger] x[i] == y[i] by {
                assert(a[i + 1] == b[i + 1]);
            }
            assert(differs_first_at(x, y, n - 1));
        }
    } else {
        if text_before(a, b) {
            assert(differs_first_at(a, b, 0));
        }
        if exists|n: int| #[trigger] differs_first_at(a, b, n) {
            let n = choose|n: int| #[trigger] differs_first_at(a, b, n);
            if n > 0 {
                assert(a[0] == b[0]);
            }
        }
    }
}

/// Whether the texts agree up to `n`, and there the first one ends or has the smaller character.
pub open spec fn differs_first_at(a: Seq<char>, b: Seq<char>, n: int) -> bool {
    &&& 0 <= n <= a.len()
    &&& n < b.len()
    &&& forall|i: int| 0 <= i < n ==> #[trigger] a[i] == b[i]
    &&& n == a.len() || a[n] < b[n]
}

/// The record that was created later is listed first; of two that were created at once, the one
/// whose id comes first.
pub proof fn later_records_are_listed_first(a: AutopilotView, b: AutopilotView)
    ensures
        a.created_at > b.created_at ==> listed_before(a, b) && !listed_before(b, a),
        a.created_at == b.created_at ==> (listed_before(a, b) <==> exists|n: int| #[trigger]
            differs_first_at(a.id, b.id, n)),
{
    texts_are_ordered_by_their_first_difference(a.id, b.id);
}

// ── Groups ──────────────────────────────────────────────────────────────────

/// The grouping sees of each job its own key, texts, address, board and time, and whether its
/// description has a character that is no white space.
pub proof fn grouping_sees_each_job(jobs: Seq<FoundJobView>, keys: Seq<Seq<char>>, i: int)
    requires
        jobs.len() == keys.len(),
        0 <= i < jobs.len(),
    ensures
        cluster_inputs(jobs, keys).len() == jobs.len(),
        ({
            let seen = cluster_inputs(jobs, keys)[i];
            &&& seen.key == keys[i]
            &&& seen.title == jobs[i].title
            &&& seen.company == jobs[i].company
            &&& seen.url == jobs[i].url
            &&& seen.source == jobs[i].board
            &&& seen.seen_at == jobs[i].found_at
            &&& seen.has_description <==> jobs[i].description is Some && exists|k: int|
                0 <= k < jobs[i].description->0.len() && !white(
                    #[trigger] jobs[i].description->0[k],
                )
        }),
{
}

/// A verdict is written on the job at its place: its group, whether it stands for the group, the
/// group's postings and whether an agency posted it. Nothing else of a job changes, and a job
/// without a verdict stays as it is.
pub proof fn verdicts_are_written_in_place(
    jobs: Seq<FoundJobView>,
    verdicts: Seq<AssignmentView>,
    i: int,
)
    requires
        0 <= i < jobs.len(),
    ensures
        annotated(jobs, verdicts).len() == jobs.len(),
        i >= verdicts.len() ==> annotated(jobs, verdicts)[i] == jobs[i],
        i < verdicts.len() ==> {
            let job = annotated(jobs, verdicts)[i];
            &&& job.cluster_id == Some(verdicts[i].cluster_id)
            &&& job.cluster_canonical == verdicts[i].canonical
            &&& job.cluster_members == verdicts[i].members
            &&& job.is_agency == verdicts[i].is_agency
            &&& job == (FoundJobView {
                cluster_id: job.cluster_id,
                cluster_canonical: job.cluster_canonical,
                cluster_members: job.cluster_members,
                is_agency: job.is_agency,
                ..jobs[i]
            })
        },
{
}

/// A key counts as new exactly where a job of it is new, and no key counts twice.
pub proof fn keys_of_new_jobs_are_new(jobs: Seq<FoundJobView>, keys: Seq<Seq<char>>)
    requires
        jobs.len() == keys.len(),
    ensures
        new_keys(jobs, keys).no_duplicates(),
        forall|key: Seq<char>| #[trigger]
            new_keys(jobs, keys).contains(key) <==> exists|i: int|
                0 <= i < jobs.len() && (#[trigger] jobs[i]).is_new && keys[i] == key,
    decreases jobs.len(),
{
    if jobs.len() > 0 {
        let rest = jobs.drop_last();
        let rest_keys = keys.drop_last();
        let n = jobs.len() - 1;
        keys_of_new_jobs_are_new(rest, rest_keys);
        let done = new_keys(rest, rest_keys);
        let all = new_keys(jobs, keys);
        assert forall|key: Seq<char>| #[trigger] all.contains(key) <==> exists|i: int|
            0 <= i < jobs.len() && (#[trigger] jobs[i]).is_new && keys[i] == key by {
            if done.contains(key) {
                let i = choose|i: int|
                    0 <= i < rest.len() && (#[trigger] rest[i]).is_new && rest_keys[i] == key;
                assert(jobs[i].is_new && keys[i] == key);
                let k = choose|k: int| 0 <= k < done.len() && done[k] == key;
                assert(all[k] == key);
            }
            if all.contains(key) && !done.contains(key) {
                let k = choose|k: int| 0 <= k < all.len() && all[k] == key;
                if k < done.len() {
                    assert(done[k] == key);
                }
                assert(jobs[n].is_new && keys[n] == key);
            }
            if exists|i: int| 0 <= i < jobs.len() && (#[trigger] jobs[i]).is_new && keys[i] == key {
                let i = choose|i: int|
                    0 <= i < jobs.len() && (#[trigger] jobs[i]).is_new && keys[i] == key;
                if i < n {
                    assert(rest[i].is_new && rest_keys[i] == key);
                    assert(done.contains(key));
                } else if !done.contains(key) {
                    assert(all[done.len() as int] == key);
                }
            }
        }
    }
}

/// What a run leaves are the rows of the merge, in their order, and only what the grouping says of
/// them is written on them.
pub proof fn run_leaves_merged_rows<
    F: Fn(&str, &str, &str) -> String,
    G: Fn(&Vec<ClusterInput>) -> Vec<ClusterAssignment>,
    H: Fn(&Vec<ClusterAssignment>, &Vec<String>) -> u32,
>(
    identify: F,
    assign: G,
    count_new: H,
    existing: Seq<FoundJobView>,
    incoming: Seq<FoundJobView>,
    jobs: Seq<FoundJobView>,
    count: u32,
) -> (rows: Seq<FoundJobView>)
    requires
        run_merged(identify, assign, count_new, existing, incoming, jobs, count),
    ensures
        merged_by(identify, existing, incoming, rows),
        jobs.len() == rows.len(),
        forall|k: int|
            0 <= k < rows.len() ==> (#[trigger] jobs[k]) == (FoundJobView {
                cluster_id: jobs[k].cluster_id,
                cluster_canonical: jobs[k].cluster_canonical,
                cluster_members: jobs[k].cluster_members,
                is_agency: jobs[k].is_agency,
                ..rows[k]
            }),
{
    let (rows, keys, verdicts, fresh) = choose|
        rows: Seq<FoundJobView>,
        keys: Seq<Seq<char>>,
        verdicts: Vec<ClusterAssignment>,
        fresh: Vec<String>,
    |
        #![trigger crate::autopilot::cluster::assigned_by(identify, assign, rows, keys, verdicts), count_new.ensures((&verdicts, &fresh), count)]
        {
            &&& merged_by(identify, existing, incoming, rows)
            &&& crate::autopilot::cluster::assigned_by(identify, assign, rows, keys, verdicts)
            &&& jobs == annotated(rows, assignments_view(verdicts@))
            &&& crate::text::texts(fresh@) == new_keys(rows, keys)
            &&& count_new.ensures((&verdicts, &fresh), count)
        };
    rows
}

// ── Corrections ─────────────────────────────────────────────────────────────

/// A correction gives a job the description and the trust, and leaves all else.
pub proof fn correction_sets_description_and_trust(
    job: FoundJobView,
    description: Seq<char>,
    trust: TrustView,
)
    ensures
        ({
            let after = corrected(job, description, trust);
            &&& after.description == Some(description)
            &&& after.trust == Some(trust)
            &&& after == (FoundJobView {
                description: after.description,
                trust: after.trust,
                ..job
            })
        }),
{
}

/// A job is corrected exactly where its address, as `normalize` writes it, is the wanted one; it
/// then has the new description, and otherwise stays as it is.
pub proof fn correction_reaches_the_address<
    N: Fn(&str) -> String,
    A: Fn(&str, &str, &str) -> TrustAssessment,
>(
    normalize: N,
    assess: A,
    before: FoundJobView,
    after: FoundJobView,
    url: Seq<char>,
    description: Seq<char>,
    hit: bool,
    said: Seq<char>,
)
    requires
        job_corrected(normalize, assess, before, after, url, description, hit),
        forall|u: &str, address: String|
            u@ == before.url && #[trigger] normalize.ensures((u,), address) ==> address@ == said,
    ensures
        hit <==> said == url,
        said == url ==> after.description == Some(description) && after.trust is Some && after == (
        FoundJobView { description: after.description, trust: after.trust, ..before }),
        said == url ==> exists|u: &str, company: &str, text: &str, trust: TrustAssessment|
            u@ == before.url && company@ == before.company && text@ == description && after.trust
                == Some(trust@) && #[trigger] assess.ensures((u, company, text), trust),
        said != url ==> after == before,
{
}

/// A correction changes of a record its jobs alone, and the time of its change where a job was
/// corrected.
pub proof fn correction_keeps_the_record<
    N: Fn(&str) -> String,
    A: Fn(&str, &str, &str) -> TrustAssessment,
>(
    normalize: N,
    assess: A,
    before: AutopilotView,
    after: AutopilotView,
    url: Seq<char>,
    description: Seq<char>,
    hits: Seq<bool>,
    now: u64,
)
    requires
        record_corrected(normalize, assess, before, after, url, description, hits, now),
    ensures
        same_settings(after, before),
        after.total_found == before.total_found,
        after.total_applied == before.total_applied,
        after.run_status == before.run_status,
        after.last_run_summaries == before.last_run_summaries,
        after.last_run_at == before.last_run_at,
        after.found_jobs.len() == before.found_jobs.len(),
        (exists|i: int| 0 <= i < hits.len() && #[trigger] hits[i]) ==> after.updated_at == now,
        (forall|i: int| 0 <= i < hits.len() ==> !#[trigger] hits[i]) ==> after == before,
{
    flags_are_counted(hits);
    if forall|i: int| 0 <= i < hits.len() ==> !#[trigger] hits[i] {
        assert forall|i: int| 0 <= i < hits.len() implies #[trigger] after.found_jobs[i]
            == before.found_jobs[i] by {
            assert(!hits[i]);
        }
        assert(after.found_jobs =~= before.found_jobs);
        assert(after =~= before);
    }
}

/// Flags are counted: none where none is set, some where one is, never more than there are, and
/// one more for each that is set.
pub proof fn flags_are_counted(hits: Seq<bool>)
    ensures
        set_flags(hits) <= hits.len(),
        set_flags(hits) == 0 <==> forall|i: int| 0 <= i < hits.len() ==> !#[trigger] hits[i],
        set_flags(hits) == hits.len() <==> forall|i: int| 0 <= i < hits.len() ==> #[trigger] hits[i],
        set_flags(hits.push(true)) == set_flags(hits) + 1,
        set_flags(hits.push(false)) == set_flags(hits),
    decreases hits.len(),
{
    assert(hits.push(true).drop_last() =~= hits);
    assert(hits.push(false).drop_last() =~= hits);
    if hits.len() > 0 {
        let rest = hits.drop_last();
        let n = hits.len() - 1;
        flags_are_counted(rest);
        if set_flags(hits) == 0 {
            assert forall|i: int| 0 <= i < hits.len() implies !#[trigger] hits[i] by {
                if i < n {
                    assert(!rest[i]);
                }
            }
        }
        if forall|i: int| 0 <= i < hits.len() ==> !#[trigger] hits[i] {
            assert forall|i: int| 0 <= i < rest.len() implies !#[trigger] rest[i] by {
                assert(!hits[i]);
            }
            assert(!hits[n]);
        }
        if set_flags(hits) == hits.len() {
            assert forall|i: int| 0 <= i < hits.len() implies #[trigger] hits[i] by {
                if i < n {
                    assert(rest[i]);
                }
            }
        }
        if forall|i: int| 0 <= i < hits.len() ==> #[trigger] hits[i] {
            assert forall|i: int| 0 <= i < rest.len() implies #[trigger] rest[i] by {
                assert(hits[i]);
            }
            assert(hits[n]);
        }
    }
}

/// The flags of several lists are counted list by list.
pub proof fn flags_of_all_lists_are_counted(hits: Seq<Seq<bool>>, more: Seq<bool>)
    ensures
        all_set_flags(Seq::<Seq<bool>>::empty()) == 0,
        all_set_flags(hits.push(more)) == all_set_flags(hits) + set_flags(more),
{
    assert(hits.push(more).drop_last() =~= hits);
}

/// Whether a count is what `count_new` says of the verdicts on these jobs and of the keys of those
/// that are new: the grouping was asked about every job, by its key, and each verdict is written on
/// its job.
pub open spec fn counted_by<
    F: Fn(&str, &str, &str) -> String,
    G: Fn(&Vec<ClusterInput>) -> Vec<ClusterAssignment>,
    H: Fn(&Vec<ClusterAssignment>, &Vec<String>) -> u32,
>(
    identify: F,
    assign: G,
    count_new: H,
    jobs: Seq<FoundJobView>,
    keys: Seq<Seq<char>>,
    inputs: Vec<ClusterInput>,
    verdicts: Vec<ClusterAssignment>,
    fresh: Vec<String>,
    count: u32,
) -> bool {
    &&& count_new.ensures((&verdicts, &fresh), count)
    &&& assign.ensures((&inputs,), verdicts)
    &&& keys.len() == jobs.len()
    &&& inputs@.len() == jobs.len()
    &&& forall|k: int|
        0 <= k < jobs.len() ==> (#[trigger] inputs@[k]).key@ == keys[k] && inputs@[k].url@
            == jobs[k].url && inputs@[k].title@ == jobs[k].title && inputs@[k].company@
            == jobs[k].company && inputs@[k].seen_at == jobs[k].found_at
    &&& forall|k: int|
        0 <= k < jobs.len() ==> #[trigger] keyed_as(
            identify,
            jobs[k].url,
            jobs[k].title,
            jobs[k].company,
            keys[k],
        )
    &&& forall|k: int|
        0 <= k < jobs.len() && k < verdicts@.len() ==> (#[trigger] jobs[k]).cluster_id == Some(
            verdicts@[k].cluster_id@,
        ) && jobs[k].cluster_canonical == verdicts@[k].canonical && jobs[k].is_agency
            == verdicts@[k].is_agency
    &&& forall|key: Seq<char>|
        #[trigger] crate::text::texts(fresh@).contains(key) <==> exists|k: int|
            0 <= k < jobs.len() && (#[trigger] jobs[k]).is_new && keys[k] == key
    &&& crate::text::texts(fresh@).no_duplicates()
}

/// Whether a key is what `identify` says of an address, a title and a company.
pub open spec fn keyed_as<F: Fn(&str, &str, &str) -> String>(
    identify: F,
    url: Seq<char>,
    title: Seq<char>,
    company: Seq<char>,
    key: Seq<char>,
) -> bool {
    exists|u: &str, t: &str, c: &str, r: String|
        u@ == url && t@ == title && c@ == company && r@ == key && #[trigger] identify.ensures(
            (u, t, c),
            r,
        )
}

/// What a run counts is what `count_new` says of the grouping of the merged jobs and of the keys
/// of those that are new.
pub proof fn run_counts_its_new_jobs<
    F: Fn(&str, &str, &str) -> String,
    G: Fn(&Vec<ClusterInput>) -> Vec<ClusterAssignment>,
    H: Fn(&Vec<ClusterAssignment>, &Vec<String>) -> u32,
>(
    identify: F,
    assign: G,
    count_new: H,
    existing: Seq<FoundJobView>,
    incoming: Seq<FoundJobView>,
    jobs: Seq<FoundJobView>,
    count: u32,
)
    requires
        run_merged(identify, assign, count_new, existing, incoming, jobs, count),
    ensures
        exists|
            keys: Seq<Seq<char>>,
            inputs: Vec<ClusterInput>,
            verdicts: Vec<ClusterAssignment>,
            fresh: Vec<String>,
        | #[trigger]
            counted_by(
                identify,
                assign,
                count_new,
                jobs,
                keys,
                inputs,
                verdicts,
                fresh,
                count,
            ),
{
    let (rows, keys, verdicts, fresh) = choose|
        rows: Seq<FoundJobView>,
        keys: Seq<Seq<char>>,
        verdicts: Vec<ClusterAssignment>,
        fresh: Vec<String>,
    |
        #![trigger crate::autopilot::cluster::assigned_by(identify, assign, rows, keys, verdicts), count_new.ensures((&verdicts, &fresh), count)]
        {
            &&& merged_by(identify, existing, incoming, rows)
            &&& crate::autopilot::cluster::assigned_by(identify, assign, rows, keys, verdicts)
            &&& jobs == annotated(rows, assignments_view(verdicts@))
            &&& crate::text::texts(fresh@) == new_keys(rows, keys)
            &&& count_new.ensures((&verdicts, &fresh), count)
        };
    let inputs = choose|inputs: Vec<ClusterInput>|
        crate::autopilot::cluster::inputs_view(inputs@) == cluster_inputs(rows, keys)
            && #[trigger] assign.ensures((&inputs,), verdicts);
    let seen = crate::autopilot::cluster::inputs_view(inputs@);
    assert(seen.len() == inputs@.len());
    assert forall|k: int| 0 <= k < jobs.len() implies (#[trigger] inputs@[k]).key@ == keys[k]
        && inputs@[k].url@ == jobs[k].url && inputs@[k].title@ == jobs[k].title
        && inputs@[k].company@ == jobs[k].company && inputs@[k].seen_at == jobs[k].found_at by {
        grouping_sees_each_job(rows, keys, k);
        verdicts_are_written_in_place(rows, assignments_view(verdicts@), k);
        assert(seen[k] == inputs@[k]@);
    }
    assert forall|k: int| 0 <= k < jobs.len() implies #[trigger] keyed_as(
        identify,
        jobs[k].url,
        jobs[k].title,
        jobs[k].company,
        keys[k],
    ) by {
        verdicts_are_written_in_place(rows, assignments_view(verdicts@), k);
        assert(crate::autopilot::merge::identified_as(identify, rows[k], keys[k]));
    }
    assert forall|k: int| 0 <= k < jobs.len() && k < verdicts@.len() implies (
    #[trigger] jobs[k]).cluster_id == Some(verdicts@[k].cluster_id@) && jobs[k].cluster_canonical
        == verdicts@[k].canonical && jobs[k].is_agency == verdicts@[k].is_agency by {
        verdicts_are_written_in_place(rows, assignments_view(verdicts@), k);
        assert(assignments_view(verdicts@)[k] == verdicts@[k]@);
    }
    keys_of_new_jobs_are_new(rows, keys);
    assert forall|key: Seq<char>|
        #[trigger] crate::text::texts(fresh@).contains(key) <==> exists|k: int|
            0 <= k < jobs.len() && (#[trigger] jobs[k]).is_new && keys[k] == key by {
        assert(crate::text::texts(fresh@).contains(key) <==> new_keys(rows, keys).contains(key));
        if new_keys(rows, keys).contains(key) {
            let k = choose|k: int| 0 <= k < rows.len() && (#[trigger] rows[k]).is_new && keys[k] == key;
            verdicts_are_written_in_place(rows, assignments_view(verdicts@), k);
            assert(jobs[k].is_new);
        }
        if exists|k: int| 0 <= k < jobs.len() && (#[trigger] jobs[k]).is_new && keys[k] == key {
            let k = choose|k: int| 0 <= k < jobs.len() && (#[trigger] jobs[k]).is_new && keys[k] == key;
            verdicts_are_written_in_place(rows, assignments_view(verdicts@), k);
            assert(rows[k].is_new);
        }
    }
    assert(counted_by(identify, assign, count_new, jobs, keys, inputs, verdicts, fresh, count));
}

} // verus!
