//! What the functions on records hand back, in the fields of what they take and give.
use vstd::prelude::*;

use crate::autopilot::changes::{
    asked_number, asked_or, asked_text, boards_are_read_in_order, change_reaches_one_record,
    correction_reaches_the_address, created_record_has_what_was_asked, differs_first_at,
    each_mark_sets_its_field, flags_are_counted, grouping_sees_each_job, keys_of_new_jobs_are_new,
    last_record_of_an_id_counts, later_records_are_listed_first,
    loosening_takes_out_what_was_filled_in, name_of_status, outcome_follows_the_boards,
    patch_sets_what_it_names, run_leaves_merged_rows, run_leaves_what_it_found, same_but_health,
    same_settings, status_names_read_back, stripping_takes_only_the_health,
    verdicts_are_written_in_place, work_types_have_one_name,
};
use crate::autopilot::cluster::{
    annotate_jobs, assignments_view, found_job_cluster_inputs, inputs_view, new_job_keys,
    ClusterAssignment, ClusterInput,
};
use crate::autopilot::fields::{string_or_vec, u32_field_in_range};
use crate::autopilot::merge::{
    first_of, given_or, longest_of, merge_adds_new_jobs_as_they_were_found, merge_found_jobs,
    merge_goes_by_what_identify_says, merge_keyed_jobs, merge_leaves_jobs_that_were_not_found,
    merge_takes_over_what_the_run_knows, merged, merged_by, says_something,
};
use crate::autopilot::model::{
    autopilots_view, jobs_view, opt_texts, opt_trust, summaries_view, Autopilot, AutopilotFilter,
    AutopilotStatus, AutopilotTarget, AutopilotView, BoardScrapeSummary, FoundJob, FoundJobView,
    RunStatus, TrustAssessment, WorkType,
};
use crate::autopilot::records::{by_id, by_id_at, by_id_has_ids};
use crate::autopilot::relax::relax_legacy_filters;
use crate::autopilot::requests::{apply_patch, new_record};
use crate::autopilot::status::{derive_run_status, strip_board_health};
use crate::autopilot::store::{
    correct_descriptions, needs_write, record_corrected, run_merged, set_flags, AutopilotStore,
};
use crate::json::{opt_real, Json, JsonView};
use crate::text::{opt_text, texts};

verus! {

// ── Merging ─────────────────────────────────────────────────────────────────

/// A known job that a run found again has, in each field, what the run knows, and keeps what the
/// run does not know. `first` is where the run found it first, `best` where with the longest
/// description.
pub proof fn merging_refreshes_a_known_job(
    existing: &Vec<FoundJob>,
    known: &Vec<String>,
    jobs: &Vec<FoundJob>,
    keys: &Vec<String>,
    r: Vec<FoundJob>,
    i: int,
    first: int,
    best: int,
)
    requires
        call_ensures(merge_keyed_jobs, (existing, known, jobs, keys), r),
        existing@.len() == known@.len(),
        jobs@.len() == keys@.len(),
        0 <= i < existing@.len(),
        first_of(texts(keys@), known@[i]@, first),
        longest_of(jobs_view(jobs@), texts(keys@), known@[i]@, best),
    ensures
        r@.len() >= existing@.len(),
        ({
            let row = r@[r@.len() - existing@.len() + i];
            let was = existing@[i];
            let inc = jobs@[first];
            let text = opt_text(jobs@[best].description);
            &&& row.title@ == inc.title@
            &&& row.company@ == inc.company@
            &&& opt_text(row.location) == given_or(
                opt_text(inc.location),
                opt_text(was.location),
            )
            &&& opt_text(row.board) == given_or(opt_text(inc.board), opt_text(was.board))
            &&& row.posted_at == given_or(inc.posted_at, was.posted_at)
            &&& opt_real(row.salary_min) == given_or(
                opt_real(inc.salary_min),
                opt_real(was.salary_min),
            )
            &&& opt_real(row.salary_max) == given_or(
                opt_real(inc.salary_max),
                opt_real(was.salary_max),
            )
            &&& opt_text(row.salary_currency) == given_or(
                opt_text(inc.salary_currency),
                opt_text(was.salary_currency),
            )
            &&& opt_trust(row.trust) == given_or(opt_trust(inc.trust), opt_trust(was.trust))
            &&& opt_real(row.score) == given_or(opt_real(inc.score), opt_real(was.score))
            &&& inc.score is Some ==> row.score_provisional == inc.score_provisional
                && row.score_source == inc.score_source
            &&& inc.score is None ==> row.score_provisional == was.score_provisional
                && row.score_source == was.score_source
            &&& says_something(text) ==> opt_text(row.description) == text
            &&& !says_something(text) ==> opt_text(row.description) == opt_text(was.description)
            &&& !row.is_new
            &&& row.url@ == was.url@
            &&& row.found_at == was.found_at
            &&& row.applied == was.applied
            &&& opt_text(row.assistant_notes) == opt_text(was.assistant_notes)
            &&& opt_text(row.cluster_id) == opt_text(was.cluster_id)
            &&& row.cluster_canonical == was.cluster_canonical
            &&& row.is_agency == was.is_agency
        }),
{
    let e = jobs_view(existing@);
    let k = texts(known@);
    let j = jobs_view(jobs@);
    let ks = texts(keys@);
    let all = jobs_view(r@);
    assert(k[i] == known@[i]@);
    merge_takes_over_what_the_run_knows(e, k, j, ks, i, first, best);
    crate::autopilot::merge::merge_keeps_known_jobs(e, k, j, ks, i);
    let at = r@.len() - existing@.len() + i;
    assert(all[at] == r@[at]@);
    assert(e[i] == existing@[i]@);
    assert(j[first] == jobs@[first]@);
    assert(j[best] == jobs@[best]@);
}

/// A known job that a run did not find again has every field as it was, and is no longer new.
pub proof fn merging_leaves_other_known_jobs(
    existing: &Vec<FoundJob>,
    known: &Vec<String>,
    jobs: &Vec<FoundJob>,
    keys: &Vec<String>,
    r: Vec<FoundJob>,
    i: int,
)
    requires
        call_ensures(merge_keyed_jobs, (existing, known, jobs, keys), r),
        existing@.len() == known@.len(),
        jobs@.len() == keys@.len(),
        0 <= i < existing@.len(),
        forall|k: int| 0 <= k < keys@.len() ==> (#[trigger] keys@[k])@ != known@[i]@,
    ensures
        r@.len() >= existing@.len(),
        r@[r@.len() - existing@.len() + i]@ == (FoundJobView {
            is_new: false,
            ..existing@[i]@
        }),
{
    let e = jobs_view(existing@);
    let k = texts(known@);
    let j = jobs_view(jobs@);
    let ks = texts(keys@);
    assert(k[i] == known@[i]@);
    if ks.contains(k[i]) {
        let x = choose|x: int| 0 <= x < ks.len() && ks[x] == k[i];
        assert(keys@[x]@ != known@[i]@);
    }
    merge_leaves_jobs_that_were_not_found(e, k, j, ks, i);
    crate::autopilot::merge::merge_keeps_known_jobs(e, k, j, ks, i);
    let at = r@.len() - existing@.len() + i;
    assert(jobs_view(r@)[at] == r@[at]@);
    assert(e[i] == existing@[i]@);
}

/// A job that is not known yet stands above the known ones as the run found it first, with the
/// longest description of its finds, new and not applied to.
pub proof fn merging_adds_new_jobs(
    existing: &Vec<FoundJob>,
    known: &Vec<String>,
    jobs: &Vec<FoundJob>,
    keys: &Vec<String>,
    r: Vec<FoundJob>,
    first: int,
    best: int,
)
    requires
        call_ensures(merge_keyed_jobs, (existing, known, jobs, keys), r),
        existing@.len() == known@.len(),
        jobs@.len() == keys@.len(),
        0 <= first < jobs@.len(),
        forall|k: int| 0 <= k < known@.len() ==> (#[trigger] known@[k])@ != keys@[first]@,
        first_of(texts(keys@), keys@[first]@, first),
        longest_of(jobs_view(jobs@), texts(keys@), keys@[first]@, best),
    ensures
        exists|row: int|
            0 <= row < r@.len() - existing@.len() && (#[trigger] r@[row])@ == (FoundJobView {
                description: opt_text(jobs@[best].description),
                is_new: true,
                applied: false,
                ..jobs@[first]@
            }),
{
    let e = jobs_view(existing@);
    let k = texts(known@);
    let j = jobs_view(jobs@);
    let ks = texts(keys@);
    assert(ks[first] == keys@[first]@);
    if k.contains(ks[first]) {
        let x = choose|x: int| 0 <= x < k.len() && k[x] == ks[first];
        assert(known@[x]@ != keys@[first]@);
    }
    merge_adds_new_jobs_as_they_were_found(e, k, j, ks, first, best);
    let all = merged(e, k, j, ks);
    let row = choose|row: int|
        0 <= row < all.len() - e.len() && #[trigger] all[row] == (FoundJobView {
            description: j[best].description,
            is_new: true,
            applied: false,
            ..j[first]
        });
    assert(jobs_view(r@)[row] == r@[row]@);
    assert(j[first] == jobs@[first]@);
    assert(j[best] == jobs@[best]@);
}

/// Where `identify` says one thing of an address, a title and a company, which `key` names, the
/// merge of a run goes by that key of each job, old and new.
pub proof fn merging_goes_by_what_identify_says<F: Fn(&str, &str, &str) -> String>(
    existing: &Vec<FoundJob>,
    incoming: Vec<FoundJob>,
    identify: &F,
    r: Vec<FoundJob>,
    key: spec_fn(Seq<char>, Seq<char>, Seq<char>) -> Seq<char>,
)
    requires
        call_ensures(merge_found_jobs::<F>, (existing, incoming, identify), r),
        forall|url: &str, title: &str, company: &str, out: String|
            #[trigger] identify.ensures((url, title, company), out) ==> out@ == key(
                url@,
                title@,
                company@,
            ),
    ensures
        jobs_view(r@) == merged(
            jobs_view(existing@),
            Seq::new(
                existing@.len(),
                |i: int| key(existing@[i].url@, existing@[i].title@, existing@[i].company@),
            ),
            jobs_view(incoming@),
            Seq::new(
                incoming@.len(),
                |i: int| key(incoming@[i].url@, incoming@[i].title@, incoming@[i].company@),
            ),
        ),
{
    let e = jobs_view(existing@);
    let n = jobs_view(incoming@);
    merge_goes_by_what_identify_says(*identify, e, n, jobs_view(r@), key);
    assert(Seq::new(e.len(), |i: int| key(e[i].url, e[i].title, e[i].company)) =~= Seq::new(
        existing@.len(),
        |i: int| key(existing@[i].url@, existing@[i].title@, existing@[i].company@),
    ));
    assert(Seq::new(n.len(), |i: int| key(n[i].url, n[i].title, n[i].company)) =~= Seq::new(
        incoming@.len(),
        |i: int| key(incoming@[i].url@, incoming@[i].title@, incoming@[i].company@),
    ));
}

// ── Requests ────────────────────────────────────────────────────────────────

/// A patch that names a status by its wire name leaves the record with that status.
pub proof fn patching_sets_the_named_status(
    ap: &mut Autopilot,
    patch: &Json,
    target: Option<AutopilotTarget>,
    filter: Option<AutopilotFilter>,
    now: u64,
    s: AutopilotStatus,
)
    requires
        call_ensures(apply_patch, (ap, patch, target, filter, now), ()),
        patch@.get("status"@) == Some(JsonView::Text(name_of_status(s))),
    ensures
        final(ap).status == s,
{
    status_names_read_back(
        old(ap)@,
        patch@,
        crate::autopilot::requests::opt_target(target),
        crate::autopilot::requests::opt_filter(filter),
        now,
        s,
    );
}

/// A patch sets in a record each field that it names and leaves the others.
pub proof fn patching_sets_what_is_named(
    ap: &mut Autopilot,
    patch: &Json,
    target: Option<AutopilotTarget>,
    filter: Option<AutopilotFilter>,
    now: u64,
)
    requires
        call_ensures(apply_patch, (ap, patch, target, filter, now), ()),
    ensures
        final(ap).id@ == old(ap).id@,
        final(ap).name@ == asked_or(asked_text(patch@, "name"@), old(ap).name@),
        final(ap).schedule@ == asked_or(asked_text(patch@, "schedule"@), old(ap).schedule@),
        asked_text(patch@, "status"@) is None ==> final(ap).status == old(ap).status,
        target is Some ==> final(ap).target@ == target->0@,
        target is None ==> final(ap).target@ == old(ap).target@,
        filter is Some ==> final(ap).filter@ == filter->0@,
        filter is None ==> final(ap).filter@ == old(ap).filter@,
        patch@.get("scheduleHour"@) is None ==> final(ap).schedule_hour == old(ap).schedule_hour,
        patch@.get("scheduleHour"@) is Some ==> final(ap).schedule_hour == asked_number(
            patch@,
            "scheduleHour"@,
            23,
        ),
        patch@.get("scheduleMinute"@) is None ==> final(ap).schedule_minute
            == old(ap).schedule_minute,
        patch@.get("scheduleMinute"@) is Some ==> final(ap).schedule_minute == asked_number(
            patch@,
            "scheduleMinute"@,
            59,
        ),
        opt_text(final(ap).resume_text) == given_or(
            asked_text(patch@, "resumeText"@),
            opt_text(old(ap).resume_text),
        ),
        opt_text(final(ap).cover_letter) == given_or(
            asked_text(patch@, "coverLetter"@),
            opt_text(old(ap).cover_letter),
        ),
        patch@.get("assistant"@) != Some(JsonView::Bool(false)) ==> {
            &&& opt_text(final(ap).assistant_provider) == given_or(
                asked_text(patch@, "assistantProvider"@),
                opt_text(old(ap).assistant_provider),
            )
            &&& opt_text(final(ap).assistant_model) == given_or(
                asked_text(patch@, "assistantModel"@),
                opt_text(old(ap).assistant_model),
            )
            &&& opt_text(final(ap).assistant_base_url) == given_or(
                asked_text(patch@, "assistantBaseUrl"@),
                opt_text(old(ap).assistant_base_url),
            )
        },
        patch@.get("assistant"@) == Some(JsonView::Bool(true)) ==> final(ap).assistant,
        patch@.get("assistant"@) == Some(JsonView::Bool(false)) ==> !final(ap).assistant,
        final(ap).updated_at == now,
        final(ap).created_at == old(ap).created_at,
        final(ap).total_found == old(ap).total_found,
        final(ap).total_applied == old(ap).total_applied,
        final(ap).run_status == old(ap).run_status,
        final(ap).last_run_at == old(ap).last_run_at,
{
    patch_sets_what_it_names(
        old(ap)@,
        patch@,
        crate::autopilot::requests::opt_target(target),
        crate::autopilot::requests::opt_filter(filter),
        now,
    );
}

/// A record is created with what the request says.
pub proof fn creating_takes_what_was_asked(
    input: &Json,
    target: Option<AutopilotTarget>,
    filter: Option<AutopilotFilter>,
    id: String,
    now: u64,
    r: Autopilot,
)
    requires
        call_ensures(new_record, (input, target, filter, id, now), r),
    ensures
        r.id@ == id@,
        r.created_at == now,
        r.updated_at == now,
        r.status == AutopilotStatus::Active,
        r.name@ == asked_or(asked_text(input@, "name"@), Seq::empty()),
        r.schedule@ == asked_or(asked_text(input@, "schedule"@), Seq::empty()),
        r.schedule_hour == asked_number(input@, "scheduleHour"@, 23),
        r.schedule_minute == asked_number(input@, "scheduleMinute"@, 59),
        opt_text(r.resume_text) == asked_text(input@, "resumeText"@),
        opt_text(r.cover_letter) == asked_text(input@, "coverLetter"@),
        r.assistant <==> input@.get("assistant"@) == Some(JsonView::Bool(true)),
        opt_text(r.assistant_provider) == asked_text(input@, "assistantProvider"@),
        opt_text(r.assistant_model) == asked_text(input@, "assistantModel"@),
        opt_text(r.assistant_base_url) == asked_text(input@, "assistantBaseUrl"@),
        target is Some ==> r.target@ == target->0@,
        target is None ==> r.target.pages == 1 && r.target.top_n == 3 && r.target.boards@.len() == 0
            && r.target.query@.len() == 0 && r.target.location is None
            && r.target.date_filter is None,
        filter is Some ==> r.filter@ == filter->0@,
        filter is None ==> r.filter.min_match_score@ == "0.0"@ && r.filter.keywords is None
            && r.filter.exclude_keywords is None,
        r.total_found == 0,
        r.total_applied == 0,
        r.found_jobs@.len() == 0,
        r.run_status is None,
        r.last_run_at is None,
        r.last_run_summaries@.len() == 0,
{
    created_record_has_what_was_asked(
        input@,
        crate::autopilot::requests::opt_target(target),
        crate::autopilot::requests::opt_filter(filter),
        id@,
        now,
    );
    assert(jobs_view(r.found_jobs@).len() == r.found_jobs@.len());
    assert(summaries_view(r.last_run_summaries@).len() == r.last_run_summaries@.len());
    assert(texts(r.target.boards@).len() == r.target.boards@.len());
}

/// A whole number from zero to the largest is read, and nothing else.
pub proof fn numbers_are_read_in_range(v: &Json, key: &str, max: u32, r: Option<u32>)
    requires
        call_ensures(u32_field_in_range, (v, key, max), r),
    ensures
        r == asked_number(v@, key@, max as int),
{
}

/// A text names one board, a list of texts its items in order, and null none.
pub proof fn boards_are_read_as_written(v: &Json, r: Option<Vec<String>>)
    requires
        call_ensures(string_or_vec, (v,), r),
    ensures
        v@ matches JsonView::Text(s) ==> (r matches Some(b) && b@.len() == 1 && b@[0]@ == s),
        v@ is Null ==> (r matches Some(b) && b@.len() == 0),
        v@ matches JsonView::Array(items) ==> r matches Some(b) ==> b@.len() == items.len()
            && forall|i: int|
            0 <= i < items.len() ==> #[trigger] items[i] == JsonView::Text(b@[i]@),
{
    boards_are_read_in_order(v@);
    if let Some(b) = r {
        assert(texts(b@).len() == b@.len());
        assert forall|i: int| 0 <= i < b@.len() implies texts(b@)[i] == (#[trigger] b@[i])@ by {}
        match v@ {
            JsonView::Text(s) => {
                assert(texts(b@) == seq![s]);
                assert(texts(b@)[0] == b@[0]@);
            },
            JsonView::Array(items) => {
                assert forall|i: int| 0 <= i < items.len() implies #[trigger] items[i]
                    == JsonView::Text(b@[i]@) by {
                    assert(texts(b@)[i] == b@[i]@);
                }
            },
            _ => {},
        }
    }
}

/// Each work type has the name that it is read by.
pub proof fn work_types_are_named(w: &WorkType, name: &'static str, s: &str, r: Option<WorkType>)
    requires
        call_ensures(WorkType::name, (w,), name),
        call_ensures(WorkType::parse, (s,), r),
    ensures
        *w is Remote <==> name@ == "remote"@,
        *w is Hybrid <==> name@ == "hybrid"@,
        *w is OnSite <==> name@ == "on-site"@,
        s@ == name@ ==> r == Some(*w),
{
    work_types_have_one_name(name@);
    work_types_have_one_name(s@);
}

// ── Runs ────────────────────────────────────────────────────────────────────

/// The outcome of a run follows what its boards report.
pub proof fn outcome_is_derived_from_the_boards(summaries: &[BoardScrapeSummary], r: RunStatus)
    requires
        call_ensures(derive_run_status, (summaries,), r),
    ensures
        ({
            let none_worked = summaries@.len() > 0 && forall|i: int|
                0 <= i < summaries@.len() ==> (#[trigger] summaries@[i]).error is Some
                    || summaries@[i].skipped is Some;
            let some_short = exists|i: int|
                0 <= i < summaries@.len() && ((#[trigger] summaries@[i]).error is Some
                    || summaries@[i].truncated is Some);
            &&& r == RunStatus::Failed <==> none_worked
            &&& r == RunStatus::CompletedWithErrors <==> !none_worked && some_short
            &&& r == RunStatus::Completed <==> !none_worked && !some_short
        }),
{
    let v = summaries_view(summaries@);
    outcome_follows_the_boards(v);
    assert forall|i: int| 0 <= i < v.len() implies ((#[trigger] v[i]).error is Some
        <==> summaries@[i].error is Some) && (v[i].skipped is Some <==> summaries@[i].skipped is Some)
        && (v[i].truncated is Some <==> summaries@[i].truncated is Some) by {
        assert(v[i] == summaries@[i]@);
    }
    if summaries@.len() > 0 && forall|i: int|
        0 <= i < summaries@.len() ==> (#[trigger] summaries@[i]).error is Some
            || summaries@[i].skipped is Some {
        assert forall|i: int| 0 <= i < v.len() implies (#[trigger] v[i]).error is Some
            || v[i].skipped is Some by {
            assert(summaries@[i].error is Some || summaries@[i].skipped is Some);
        }
    }
    if summaries@.len() > 0 && forall|i: int|
        0 <= i < v.len() ==> (#[trigger] v[i]).error is Some || v[i].skipped is Some {
        assert forall|i: int| 0 <= i < summaries@.len() implies (
        #[trigger] summaries@[i]).error is Some || summaries@[i].skipped is Some by {
            assert(v[i].error is Some || v[i].skipped is Some);
        }
    }
    if exists|i: int|
        0 <= i < summaries@.len() && ((#[trigger] summaries@[i]).error is Some
            || summaries@[i].truncated is Some) {
        let i = choose|i: int|
            0 <= i < summaries@.len() && ((#[trigger] summaries@[i]).error is Some
                || summaries@[i].truncated is Some);
        assert(v[i].error is Some || v[i].truncated is Some);
    }
    if exists|i: int| 0 <= i < v.len() && ((#[trigger] v[i]).error is Some || v[i].truncated is Some) {
        let i = choose|i: int|
            0 <= i < v.len() && ((#[trigger] v[i]).error is Some || v[i].truncated is Some);
        assert(summaries@[i].error is Some || summaries@[i].truncated is Some);
    }
}

/// Loosening a record takes out what used to be filled in.
pub proof fn loosening_changes_only_old_filters(ap: &mut Autopilot)
    requires
        call_ensures(relax_legacy_filters, (ap,), ()),
    ensures
        ({
            let score = old(ap).filter.min_match_score@ == "50.0"@;
            let date = opt_text(old(ap).target.date_filter) == Some("24h"@);
            &&& score ==> final(ap).filter.min_match_score@ == "0.0"@
            &&& !score ==> final(ap).filter.min_match_score@ == old(ap).filter.min_match_score@
            &&& date ==> final(ap).target.date_filter is None
            &&& !date ==> opt_text(final(ap).target.date_filter) == opt_text(
                old(ap).target.date_filter,
            )
            &&& score || date ==> final(ap).filter.keywords is None
            &&& !score && !date ==> final(ap)@ == old(ap)@
            &&& opt_texts(final(ap).filter.exclude_keywords) == opt_texts(
                old(ap).filter.exclude_keywords,
            )
            &&& final(ap).target.query@ == old(ap).target.query@
            &&& final(ap).target.pages == old(ap).target.pages
            &&& final(ap).target.top_n == old(ap).target.top_n
            &&& final(ap).status == old(ap).status
            &&& final(ap).updated_at == old(ap).updated_at
        }),
{
    loosening_takes_out_what_was_filled_in(old(ap)@);
}

/// Taking out the verdicts on the boards' health leaves every record in its place.
pub proof fn stripping_leaves_all_else(records: &mut Vec<Autopilot>, i: int)
    requires
        call_ensures(strip_board_health, (records,), ()),
        0 <= i < old(records)@.len(),
    ensures
        final(records)@.len() == old(records)@.len(),
        same_settings(final(records)@[i]@, old(records)@[i]@),
        final(records)@[i].run_status == old(records)@[i].run_status,
        final(records)@[i].last_run_summaries@.len() == old(records)@[i].last_run_summaries@.len(),
        forall|k: int|
            0 <= k < old(records)@[i].last_run_summaries@.len() ==> (
            #[trigger] final(records)@[i].last_run_summaries@[k]).health is None && same_but_health(
                final(records)@[i].last_run_summaries@[k]@,
                old(records)@[i].last_run_summaries@[k]@,
            ),
{
    let a = final(records)@[i];
    let b = old(records)@[i];
    stripping_takes_only_the_health(b@);
    assert(a@ == crate::autopilot::status::stripped(b@));
    assert(summaries_view(a.last_run_summaries@).len() == a.last_run_summaries@.len());
    assert(summaries_view(b.last_run_summaries@).len() == b.last_run_summaries@.len());
    assert forall|k: int| 0 <= k < b.last_run_summaries@.len() implies (
    #[trigger] a.last_run_summaries@[k]).health is None && same_but_health(
        a.last_run_summaries@[k]@,
        b.last_run_summaries@[k]@,
    ) by {
        assert(summaries_view(a.last_run_summaries@)[k] == a.last_run_summaries@[k]@);
        assert(summaries_view(b.last_run_summaries@)[k] == b.last_run_summaries@[k]@);
        assert(a@.last_run_summaries[k] == a.last_run_summaries@[k]@);
    }
}

/// What the grouping is given of a job is what the job has.
pub proof fn grouping_is_given_each_job(
    jobs: &Vec<FoundJob>,
    keys: &Vec<String>,
    r: Vec<ClusterInput>,
    i: int,
)
    requires
        call_ensures(found_job_cluster_inputs, (jobs, keys), r),
        jobs@.len() == keys@.len(),
        0 <= i < jobs@.len(),
    ensures
        r@.len() == jobs@.len(),
        r@[i].key@ == keys@[i]@,
        r@[i].title@ == jobs@[i].title@,
        r@[i].company@ == jobs@[i].company@,
        r@[i].url@ == jobs@[i].url@,
        opt_text(r@[i].source) == opt_text(jobs@[i].board),
        r@[i].seen_at == jobs@[i].found_at,
        r@[i].has_description <==> says_something(opt_text(jobs@[i].description)),
{
    grouping_sees_each_job(jobs_view(jobs@), texts(keys@), i);
    assert(inputs_view(r@).len() == r@.len());
    assert(inputs_view(r@)[i] == r@[i]@);
    assert(jobs_view(jobs@)[i] == jobs@[i]@);
    assert(texts(keys@)[i] == keys@[i]@);
}

/// The verdict of the grouping on a job is written on that job.
pub proof fn verdicts_reach_their_job(
    jobs: &mut Vec<FoundJob>,
    verdicts: &Vec<ClusterAssignment>,
    i: int,
)
    requires
        call_ensures(annotate_jobs, (jobs, verdicts), ()),
        0 <= i < old(jobs)@.len(),
    ensures
        final(jobs)@.len() == old(jobs)@.len(),
        i >= verdicts@.len() ==> final(jobs)@[i]@ == old(jobs)@[i]@,
        i < verdicts@.len() ==> {
            let job = final(jobs)@[i];
            let was = old(jobs)@[i];
            &&& opt_text(job.cluster_id) == Some(verdicts@[i].cluster_id@)
            &&& job.cluster_canonical == verdicts@[i].canonical
            &&& job.is_agency == verdicts@[i].is_agency
            &&& job.title@ == was.title@
            &&& job.company@ == was.company@
            &&& job.url@ == was.url@
            &&& job.is_new == was.is_new
            &&& opt_real(job.score) == opt_real(was.score)
        },
{
    verdicts_are_written_in_place(jobs_view(old(jobs)@), assignments_view(verdicts@), i);
    assert(jobs_view(final(jobs)@).len() == final(jobs)@.len());
    assert(jobs_view(final(jobs)@)[i] == final(jobs)@[i]@);
    assert(jobs_view(old(jobs)@)[i] == old(jobs)@[i]@);
    assert(assignments_view(verdicts@).len() == verdicts@.len());
    if i < verdicts@.len() {
        assert(assignments_view(verdicts@)[i] == verdicts@[i]@);
    }
}

/// The keys of the new jobs are those of the jobs that are new.
pub proof fn new_keys_are_those_of_new_jobs(
    jobs: &Vec<FoundJob>,
    keys: &Vec<String>,
    r: Vec<String>,
    key: Seq<char>,
)
    requires
        call_ensures(new_job_keys, (jobs, keys), r),
        jobs@.len() == keys@.len(),
    ensures
        texts(r@).no_duplicates(),
        texts(r@).contains(key) <==> exists|i: int|
            0 <= i < jobs@.len() && (#[trigger] jobs@[i]).is_new && keys@[i]@ == key,
{
    let j = jobs_view(jobs@);
    let ks = texts(keys@);
    keys_of_new_jobs_are_new(j, ks);
    if texts(r@).contains(key) {
        let i = choose|i: int| 0 <= i < j.len() && (#[trigger] j[i]).is_new && ks[i] == key;
        assert(jobs@[i].is_new && keys@[i]@ == key);
    }
    if exists|i: int| 0 <= i < jobs@.len() && (#[trigger] jobs@[i]).is_new && keys@[i]@ == key {
        let i = choose|i: int|
            0 <= i < jobs@.len() && (#[trigger] jobs@[i]).is_new && keys@[i]@ == key;
        assert(j[i].is_new && ks[i] == key);
    }
}

// ── The store ───────────────────────────────────────────────────────────────

/// The list of a store has every record once, the latest first and records of one time in the
/// order of their ids.
pub proof fn listing_shows_every_record_newest_first(
    store: &AutopilotStore,
    r: Vec<Autopilot>,
    i: int,
    j: int,
    id: Seq<char>,
)
    requires
        call_ensures(AutopilotStore::list, (store,), r),
        0 <= i < j < r@.len(),
    ensures
        r@[i].created_at >= r@[j].created_at,
        r@[i].created_at == r@[j].created_at ==> exists|n: int| #[trigger]
            differs_first_at(r@[i].id@, r@[j].id@, n),
        r@[i].id@ != r@[j].id@,
        store@.contains_key(r@[i].id@),
        store@[r@[i].id@] == r@[i]@,
        store@.contains_key(id) <==> exists|k: int| 0 <= k < r@.len() && (#[trigger] r@[k]).id@ == id,
{
    let v = autopilots_view(r@);
    assert(v[i] == r@[i]@ && v[j] == r@[j]@);
    assert(crate::autopilot::order::listed_before(v[i], v[j]));
    later_records_are_listed_first(v[i], v[j]);
    by_id_has_ids(v);
    by_id_at(v);
    assert(store@.contains_key(v[i].id)) by {
        assert(by_id(v).contains_key(v[i].id));
    }
    if store@.contains_key(id) {
        let k = choose|k: int| 0 <= k < v.len() && (#[trigger] v[k]).id == id;
        assert(r@[k].id@ == id);
    }
    if exists|k: int| 0 <= k < r@.len() && (#[trigger] r@[k]).id@ == id {
        let k = choose|k: int| 0 <= k < r@.len() && (#[trigger] r@[k]).id@ == id;
        assert(v[k].id == id);
    }
}

/// A record that was created is in the store under its id, beside all others.
pub proof fn creating_adds_one_record(
    store: &mut AutopilotStore,
    input: &Json,
    target: Option<AutopilotTarget>,
    filter: Option<AutopilotFilter>,
    id: String,
    now: u64,
    r: Autopilot,
    other: Seq<char>,
)
    requires
        call_ensures(AutopilotStore::create_with_id, (store, input, target, filter, id, now), r),
    ensures
        final(store)@.contains_key(id@),
        final(store)@[id@] == r@,
        r.id@ == id@,
        r.status == AutopilotStatus::Active,
        r.name@ == asked_or(asked_text(input@, "name"@), Seq::empty()),
        r.created_at == now,
        other != id@ ==> (final(store)@.contains_key(other) <==> old(store)@.contains_key(other)),
        other != id@ && old(store)@.contains_key(other) ==> final(store)@[other]
            == old(store)@[other],
{
    created_record_has_what_was_asked(
        input@,
        crate::autopilot::requests::opt_target(target),
        crate::autopilot::requests::opt_filter(filter),
        id@,
        now,
    );
}

/// An update changes the record that it names, by what it names, and no other; without such a
/// record it changes nothing and hands nothing back.
pub proof fn updating_changes_one_record(
    store: &mut AutopilotStore,
    id: &str,
    patch: &Json,
    target: Option<AutopilotTarget>,
    filter: Option<AutopilotFilter>,
    now: u64,
    r: Option<Autopilot>,
    other: Seq<char>,
    s: AutopilotStatus,
)
    requires
        call_ensures(AutopilotStore::update, (store, id, patch, target, filter, now), r),
    ensures
        r is Some <==> old(store)@.contains_key(id@),
        r is None ==> final(store)@ == old(store)@,
        r is Some ==> {
            &&& final(store)@[id@] == r->0@
            &&& r->0.updated_at == now
            &&& r->0.name@ == asked_or(asked_text(patch@, "name"@), old(store)@[id@].name)
            &&& patch@.get("status"@) == Some(JsonView::Text(name_of_status(s))) ==> r->0.status
                == s
            &&& asked_text(patch@, "status"@) is None ==> r->0.status == old(store)@[id@].status
        },
        final(store)@.dom() == old(store)@.dom(),
        other != id@ && old(store)@.contains_key(other) ==> final(store)@[other]
            == old(store)@[other],
{
    let t = crate::autopilot::requests::opt_target(target);
    let f = crate::autopilot::requests::opt_filter(filter);
    if r is Some {
        patch_sets_what_it_names(old(store)@[id@], patch@, t, f, now);
        if patch@.get("status"@) == Some(JsonView::Text(name_of_status(s))) {
            status_names_read_back(old(store)@[id@], patch@, t, f, now, s);
        }
        assert(old(store)@.insert(id@, r->0@).dom() =~= old(store)@.dom());
    }
}

/// A record that was removed is gone, and no other is.
pub proof fn removing_takes_one_record(store: &mut AutopilotStore, id: &str, other: Seq<char>)
    requires
        call_ensures(AutopilotStore::remove, (store, id), ()),
    ensures
        !final(store)@.contains_key(id@),
        other != id@ ==> (final(store)@.contains_key(other) <==> old(store)@.contains_key(other)),
        other != id@ && old(store)@.contains_key(other) ==> final(store)@[other]
            == old(store)@[other],
{
}

/// Setting a status sets it on the record that is named, and on no other.
pub proof fn status_is_set_on_one_record(
    store: &mut AutopilotStore,
    id: &str,
    status: AutopilotStatus,
    now: u64,
    other: Seq<char>,
)
    requires
        call_ensures(AutopilotStore::set_status, (store, id, status, now), ()),
    ensures
        final(store)@.dom() == old(store)@.dom(),
        old(store)@.contains_key(id@) ==> final(store)@[id@] == (AutopilotView {
            status,
            updated_at: now,
            ..old(store)@[id@]
        }),
        other != id@ && old(store)@.contains_key(other) ==> final(store)@[other]
            == old(store)@[other],
{
    let ap = crate::autopilot::store::with_status(old(store)@[id@], status, now);
    change_reaches_one_record(old(store)@, id@, ap, other);
    each_mark_sets_its_field(old(store)@[id@], status, RunStatus::Failed, now);
}

/// Setting an outcome sets it on the record that is named, and on no other; it leaves the
/// summaries of the run before.
pub proof fn outcome_is_set_on_one_record(
    store: &mut AutopilotStore,
    id: &str,
    status: RunStatus,
    now: u64,
    other: Seq<char>,
)
    requires
        call_ensures(AutopilotStore::set_run_status, (store, id, status, now), ()),
    ensures
        final(store)@.dom() == old(store)@.dom(),
        old(store)@.contains_key(id@) ==> final(store)@[id@] == (AutopilotView {
            run_status: Some(status),
            updated_at: now,
            ..old(store)@[id@]
        }),
        other != id@ && old(store)@.contains_key(other) ==> final(store)@[other]
            == old(store)@[other],
{
    let ap = crate::autopilot::store::with_run_status(old(store)@[id@], status, now);
    change_reaches_one_record(old(store)@, id@, ap, other);
}

/// Setting an outcome without summaries sets it on the record that is named, and on no other, and
/// leaves no summary of the run before.
pub proof fn bare_outcome_clears_summaries(
    store: &mut AutopilotStore,
    id: &str,
    status: RunStatus,
    now: u64,
    other: Seq<char>,
)
    requires
        call_ensures(
            AutopilotStore::set_run_status_clearing_summaries,
            (store, id, status, now),
            (),
        ),
    ensures
        final(store)@.dom() == old(store)@.dom(),
        old(store)@.contains_key(id@) ==> final(store)@[id@] == (AutopilotView {
            run_status: Some(status),
            last_run_summaries: Seq::empty(),
            updated_at: now,
            ..old(store)@[id@]
        }),
        other != id@ && old(store)@.contains_key(other) ==> final(store)@[other]
            == old(store)@[other],
{
    let ap = crate::autopilot::store::with_bare_run_status(old(store)@[id@], status, now);
    change_reaches_one_record(old(store)@, id@, ap, other);
}

/// A run that ends before it has summaries has failed, and leaves none.
pub proof fn run_without_summaries_has_failed(
    store: &mut AutopilotStore,
    id: &str,
    now: u64,
    other: Seq<char>,
)
    requires
        call_ensures(AutopilotStore::fail_run_without_summaries, (store, id, now), ()),
    ensures
        final(store)@.dom() == old(store)@.dom(),
        old(store)@.contains_key(id@) ==> final(store)@[id@] == (AutopilotView {
            run_status: Some(RunStatus::Failed),
            last_run_summaries: Seq::empty(),
            updated_at: now,
            ..old(store)@[id@]
        }),
        other != id@ && old(store)@.contains_key(other) ==> final(store)@[other]
            == old(store)@[other],
{
    let ap = crate::autopilot::store::with_bare_run_status(
        old(store)@[id@],
        RunStatus::Failed,
        now,
    );
    change_reaches_one_record(old(store)@, id@, ap, other);
}

/// Stamping a run sets its time on the record that is named, and on no other.
pub proof fn run_is_stamped_on_one_record(
    store: &mut AutopilotStore,
    id: &str,
    now: u64,
    other: Seq<char>,
)
    requires
        call_ensures(AutopilotStore::stamp_last_run, (store, id, now), ()),
    ensures
        final(store)@.dom() == old(store)@.dom(),
        old(store)@.contains_key(id@) ==> final(store)@[id@] == (AutopilotView {
            last_run_at: Some(now),
            updated_at: now,
            ..old(store)@[id@]
        }),
        other != id@ && old(store)@.contains_key(other) ==> final(store)@[other]
            == old(store)@[other],
{
    let ap = crate::autopilot::store::with_last_run(old(store)@[id@], now);
    change_reaches_one_record(old(store)@, id@, ap, other);
}

/// The sweep at the start interrupts every run in progress, names those, and leaves all others.
pub proof fn sweep_names_what_it_interrupts(
    store: &mut AutopilotStore,
    now: u64,
    r: Vec<String>,
    id: Seq<char>,
)
    requires
        call_ensures(AutopilotStore::mark_interrupted_runs, (store, now), r),
    ensures
        final(store)@.dom() == old(store)@.dom(),
        texts(r@).contains(id) <==> old(store)@.contains_key(id) && old(store)@[id].run_status
            == Some(RunStatus::InProgress),
        old(store)@.contains_key(id) ==> final(store)@[id] == (if texts(r@).contains(id) {
            AutopilotView {
                run_status: Some(RunStatus::Interrupted),
                updated_at: now,
                ..old(store)@[id]
            }
        } else {
            old(store)@[id]
        }),
{
    assert(final(store)@.dom() =~= old(store)@.dom());
}

/// A run is recorded on the record that is named: its counts, its outcome, its time and its
/// summaries, and its jobs as the merge of those before with those that it found. Nothing is
/// recorded where there is no such record.
pub proof fn run_is_recorded_on_one_record<
    F: Fn(&str, &str, &str) -> String,
    G: Fn(&Vec<ClusterInput>) -> Vec<ClusterAssignment>,
    H: Fn(&Vec<ClusterAssignment>, &Vec<String>) -> u32,
>(
    store: &mut AutopilotStore,
    id: &str,
    total_found: u32,
    total_applied: u32,
    found_jobs: Vec<FoundJob>,
    summaries: Vec<BoardScrapeSummary>,
    identify: &F,
    assign: &G,
    count_new: &H,
    now: u64,
    r: u32,
    other: Seq<char>,
)
    requires
        call_ensures(
            AutopilotStore::record_run::<F, G, H>,
            (
                store,
                id,
                total_found,
                total_applied,
                found_jobs,
                summaries,
                identify,
                assign,
                count_new,
                now,
            ),
            r,
        ),
    ensures
        final(store)@.dom() == old(store)@.dom(),
        other != id@ && old(store)@.contains_key(other) ==> final(store)@[other]
            == old(store)@[other],
        !old(store)@.contains_key(id@) ==> r == 0,
        old(store)@.contains_key(id@) ==> {
            let after = final(store)@[id@];
            let before = old(store)@[id@];
            &&& after.total_found == total_found
            &&& after.total_applied == total_applied
            &&& after.last_run_at == Some(now)
            &&& after.updated_at == now
            &&& after.run_status == Some(
                crate::autopilot::status::run_status_of(summaries_view(summaries@)),
            )
            &&& after.last_run_summaries.len() == summaries@.len()
            &&& forall|i: int|
                0 <= i < summaries@.len() ==> same_but_health(
                    #[trigger] after.last_run_summaries[i],
                    summaries@[i]@,
                )
            &&& same_settings(after, before)
            &&& exists|rows: Seq<FoundJobView>| #[trigger]
                merged_by(*identify, before.found_jobs, jobs_view(found_jobs@), rows)
                    && same_but_groups(after.found_jobs, rows)
        },
{
    if old(store)@.contains_key(id@) {
        let before = old(store)@[id@];
        let jobs = choose|jobs: Seq<FoundJobView>| #[trigger]
            run_merged(
                *identify,
                *assign,
                *count_new,
                before.found_jobs,
                jobs_view(found_jobs@),
                jobs,
                r,
            ) && final(store)@ == old(store)@.insert(
                id@,
                crate::autopilot::store::after_run(
                    before,
                    total_found,
                    total_applied,
                    jobs,
                    summaries_view(summaries@),
                    now,
                ),
            );
        run_leaves_what_it_found(
            before,
            total_found,
            total_applied,
            jobs,
            summaries_view(summaries@),
            now,
        );
        assert(final(store)@.dom() =~= old(store)@.dom());
        let rows = run_leaves_merged_rows(
            *identify,
            *assign,
            *count_new,
            before.found_jobs,
            jobs_view(found_jobs@),
            jobs,
            r,
        );
        assert(summaries_view(summaries@).len() == summaries@.len());
        assert forall|i: int| 0 <= i < summaries@.len() implies same_but_health(
            #[trigger] final(store)@[id@].last_run_summaries[i],
            summaries@[i]@,
        ) by {
            assert(summaries_view(summaries@)[i] == summaries@[i]@);
        }
        assert(same_but_groups(final(store)@[id@].found_jobs, rows));
    }
}

/// Whether two lists have the same jobs but for what the grouping says of them.
pub open spec fn same_but_groups(a: Seq<FoundJobView>, b: Seq<FoundJobView>) -> bool {
    &&& a.len() == b.len()
    &&& forall|k: int|
        0 <= k < a.len() ==> (#[trigger] a[k]) == (FoundJobView {
            cluster_id: a[k].cluster_id,
            cluster_canonical: a[k].cluster_canonical,
            cluster_members: a[k].cluster_members,
            is_agency: a[k].is_agency,
            ..b[k]
        })
}

/// A backup that is restored leaves of several records with one id the last, without the verdicts
/// on the boards' health, and counts all records that were in it.
pub proof fn restoring_keeps_the_last_of_an_id(
    store: &mut AutopilotStore,
    items: Vec<Autopilot>,
    r: usize,
    i: int,
)
    requires
        call_ensures(AutopilotStore::import, (store, items), r),
        0 <= i < items@.len(),
        forall|k: int| i < k < items@.len() ==> (#[trigger] items@[k]).id@ != items@[i].id@,
    ensures
        r == items@.len(),
        final(store)@.contains_key(items@[i].id@),
        same_settings(final(store)@[items@[i].id@], items@[i]@),
        final(store)@[items@[i].id@].found_jobs == items@[i]@.found_jobs,
        forall|k: int|
            0 <= k < items@[i].last_run_summaries@.len() ==> (
            #[trigger] final(store)@[items@[i].id@].last_run_summaries[k]).health is None,
{
    let f = |ap: AutopilotView| crate::autopilot::status::stripped(ap);
    let v = autopilots_view(items@).map_values(f);
    assert forall|k: int| 0 <= k < v.len() implies (#[trigger] v[k]).id == items@[k].id@ by {
        stripping_takes_only_the_health(items@[k]@);
    }
    assert forall|k: int| i < k < v.len() implies (#[trigger] v[k]).id != v[i].id by {
        assert(items@[k].id@ != items@[i].id@);
    }
    last_record_of_an_id_counts(v, i);
    stripping_takes_only_the_health(items@[i]@);
    let b = items@[i]@;
    assert(v[i] == crate::autopilot::status::stripped(b));
    assert(final(store)@[items@[i].id@] == v[i]);
    assert(b.last_run_summaries.len() == items@[i].last_run_summaries@.len());
}

/// A correction gives the description to every job of the record with the wanted address, counts
/// those, and leaves the others.
pub proof fn correcting_reaches_the_jobs_of_an_address<
    N: Fn(&str) -> String,
    A: Fn(&str, &str, &str) -> TrustAssessment,
>(
    ap: &mut Autopilot,
    url: &str,
    description: &str,
    normalize: &N,
    assess: &A,
    now: u64,
    r: usize,
    i: int,
    said: Seq<char>,
)
    requires
        call_ensures(
            correct_descriptions::<N, A>,
            (ap, url, description, normalize, assess, now),
            r,
        ),
        0 <= i < old(ap).found_jobs@.len(),
        forall|u: &str, address: String|
            u@ == old(ap).found_jobs@[i].url@ && #[trigger] normalize.ensures((u,), address)
                ==> address@ == said,
    ensures
        final(ap).found_jobs@.len() == old(ap).found_jobs@.len(),
        said == url@ ==> opt_text(final(ap).found_jobs@[i].description) == Some(description@)
            && final(ap).found_jobs@[i].trust is Some && r > 0 && final(ap).updated_at == now,
        said != url@ ==> final(ap).found_jobs@[i]@ == old(ap).found_jobs@[i]@,
        r == 0 ==> final(ap)@ == old(ap)@,
        r <= old(ap).found_jobs@.len(),
{
    let hits = choose|hits: Seq<bool>| #[trigger]
        record_corrected(
            *normalize,
            *assess,
            old(ap)@,
            final(ap)@,
            url@,
            description@,
            hits,
            now,
        ) && r == set_flags(hits);
    flags_are_counted(hits);
    crate::autopilot::changes::correction_keeps_the_record(
        *normalize,
        *assess,
        old(ap)@,
        final(ap)@,
        url@,
        description@,
        hits,
        now,
    );
    assert(jobs_view(old(ap).found_jobs@).len() == old(ap).found_jobs@.len());
    assert(jobs_view(final(ap).found_jobs@).len() == final(ap).found_jobs@.len());
    assert(old(ap)@.found_jobs[i] == old(ap).found_jobs@[i]@);
    assert(final(ap)@.found_jobs[i] == final(ap).found_jobs@[i]@);
    correction_reaches_the_address(
        *normalize,
        *assess,
        old(ap)@.found_jobs[i],
        final(ap)@.found_jobs[i],
        url@,
        description@,
        hits[i],
        said,
    );
    if said == url@ {
        assert(hits[i]);
    }
}

/// A text is written exactly where something else, or nothing readable, is there.
pub proof fn only_changes_are_written(on_disk: Option<&str>, text: &str, r: bool)
    requires
        call_ensures(needs_write, (on_disk, text), r),
    ensures
        r <==> on_disk is None || on_disk->0@ != text@,
{
}

/// The record of an id is handed out as it is, and nothing where there is none.
pub proof fn getting_hands_out_the_record(store: &AutopilotStore, id: &str, r: Option<Autopilot>)
    requires
        call_ensures(AutopilotStore::get, (store, id), r),
    ensures
        r is Some <==> store@.contains_key(id@),
        r matches Some(ap) ==> ap@ == store@[id@],
{
}

/// A record that is created with a new id is in the store under it, beside all others.
pub proof fn creating_under_a_new_id_adds_one_record(
    store: &mut AutopilotStore,
    input: &Json,
    target: Option<AutopilotTarget>,
    filter: Option<AutopilotFilter>,
    now: u64,
    r: Autopilot,
    other: Seq<char>,
)
    requires
        call_ensures(AutopilotStore::create, (store, input, target, filter, now), r),
    ensures
        r.id@.len() == 36,
        final(store)@.contains_key(r.id@),
        final(store)@[r.id@] == r@,
        r.status == AutopilotStatus::Active,
        r.name@ == asked_or(asked_text(input@, "name"@), Seq::empty()),
        r.schedule_hour == asked_number(input@, "scheduleHour"@, 23),
        r.schedule_minute == asked_number(input@, "scheduleMinute"@, 59),
        r.created_at == now,
        other != r.id@ ==> (final(store)@.contains_key(other) <==> old(store)@.contains_key(other)),
        other != r.id@ && old(store)@.contains_key(other) ==> final(store)@[other]
            == old(store)@[other],
{
    created_record_has_what_was_asked(
        input@,
        crate::autopilot::requests::opt_target(target),
        crate::autopilot::requests::opt_filter(filter),
        r@.id,
        now,
    );
}

/// Clearing a store leaves no record, and a new store has none.
pub proof fn cleared_stores_are_empty(store: &mut AutopilotStore, new: AutopilotStore, id: Seq<char>)
    requires
        call_ensures(AutopilotStore::clear_all, (store,), ()),
        call_ensures(AutopilotStore::new, (), new),
    ensures
        !final(store)@.contains_key(id),
        !new@.contains_key(id),
{
}

/// Replacing all records leaves those that were given, of several with one id the last.
pub proof fn replacing_keeps_the_last_of_an_id(
    store: &mut AutopilotStore,
    items: Vec<Autopilot>,
    i: int,
)
    requires
        call_ensures(AutopilotStore::replace_all, (store, items), ()),
        0 <= i < items@.len(),
        forall|k: int| i < k < items@.len() ==> (#[trigger] items@[k]).id@ != items@[i].id@,
    ensures
        final(store)@.contains_key(items@[i].id@),
        final(store)@[items@[i].id@] == items@[i]@,
{
    let v = autopilots_view(items@);
    assert forall|k: int| i < k < v.len() implies (#[trigger] v[k]).id != v[i].id by {
        assert(items@[k].id@ != items@[i].id@);
    }
    last_record_of_an_id_counts(v, i);
}

/// A backup has every record of the store once, with all but the verdicts on the boards' health.
pub proof fn backups_have_every_record(
    store: &AutopilotStore,
    r: Vec<Autopilot>,
    i: int,
    id: Seq<char>,
)
    requires
        call_ensures(AutopilotStore::export, (store,), r),
        0 <= i < r@.len(),
    ensures
        store@.contains_key(r@[i].id@),
        same_settings(r@[i]@, store@[r@[i].id@]),
        r@[i]@.found_jobs == store@[r@[i].id@].found_jobs,
        r@[i].run_status == store@[r@[i].id@].run_status,
        forall|k: int|
            0 <= k < r@[i].last_run_summaries@.len() ==> (
            #[trigger] r@[i]@.last_run_summaries[k]).health is None,
        store@.contains_key(id) ==> exists|k: int|
            0 <= k < r@.len() && (#[trigger] r@[k]).id@ == id,
{
    let v = autopilots_view(r@);
    let f = |ap: AutopilotView| crate::autopilot::status::stripped(ap);
    by_id_has_ids(v);
    by_id_at(v);
    assert(v[i] == r@[i]@);
    assert(by_id(v).contains_key(v[i].id));
    assert(store@.map_values(f).contains_key(v[i].id));
    stripping_takes_only_the_health(store@[v[i].id]);
    assert(v[i] == crate::autopilot::status::stripped(store@[v[i].id]));
    assert(v[i].last_run_summaries.len() == r@[i].last_run_summaries@.len());
    if store@.contains_key(id) {
        assert(store@.map_values(f).contains_key(id));
        assert(by_id(v).contains_key(id));
        let k = choose|k: int| 0 <= k < v.len() && (#[trigger] v[k]).id == id;
        assert(r@[k].id@ == id);
    }
}

/// Loosening the filters of a store happens once: where it is marked as done nothing changes, and
/// otherwise every record is loosened and what the store then is gets written.
pub proof fn filters_are_loosened_once<P: Fn(&AutopilotStore) -> bool>(
    store: &mut AutopilotStore,
    marked: bool,
    persist: &P,
    r: bool,
    id: Seq<char>,
)
    requires
        call_ensures(AutopilotStore::relax_legacy_filters_once::<P>, (store, marked, persist), r),
    ensures
        marked ==> !r && final(store)@ == old(store)@,
        !marked && old(store)@.contains_key(id) ==> final(store)@.contains_key(id) && {
            let a = final(store)@[id];
            let b = old(store)@[id];
            let score = b.filter.min_match_score == "50.0"@;
            let date = b.target.date_filter == Some("24h"@);
            &&& score ==> a.filter.min_match_score == "0.0"@
            &&& date ==> a.target.date_filter is None
            &&& score || date ==> a.filter.keywords is None
            &&& !score && !date ==> a == b
        },
{
    if old(store)@.contains_key(id) {
        loosening_takes_out_what_was_filled_in(old(store)@[id]);
    }
}

/// Grouping a record's jobs anew writes what the grouping says on them and changes nothing else
/// but the time of the change.
pub proof fn regrouping_changes_only_groups<
    F: Fn(&str, &str, &str) -> String,
    G: Fn(&Vec<ClusterInput>) -> Vec<ClusterAssignment>,
>(
    store: &mut AutopilotStore,
    id: &str,
    identify: &F,
    assign: &G,
    now: u64,
    other: Seq<char>,
)
    requires
        call_ensures(
            AutopilotStore::recompute_record_clusters::<F, G>,
            (store, id, identify, assign, now),
            (),
        ),
    ensures
        final(store)@.dom() == old(store)@.dom(),
        other != id@ && old(store)@.contains_key(other) ==> final(store)@[other]
            == old(store)@[other],
        old(store)@.contains_key(id@) ==> same_but_groups(
            final(store)@[id@].found_jobs,
            old(store)@[id@].found_jobs,
        ) && final(store)@[id@] == (AutopilotView {
            found_jobs: final(store)@[id@].found_jobs,
            updated_at: now,
            ..old(store)@[id@]
        }),
{
    if old(store)@.contains_key(id@) {
        let jobs = old(store)@[id@].found_jobs;
        let (keys, verdicts) = choose|keys: Seq<Seq<char>>, verdicts: Vec<ClusterAssignment>|
            #![trigger crate::autopilot::cluster::assigned_by(*identify, *assign, jobs, keys, verdicts)]
            crate::autopilot::cluster::assigned_by(*identify, *assign, jobs, keys, verdicts)
                && final(store)@ == old(store)@.insert(
                id@,
                AutopilotView {
                    found_jobs: crate::autopilot::cluster::annotated(
                        jobs,
                        assignments_view(verdicts@),
                    ),
                    updated_at: now,
                    ..old(store)@[id@]
                },
            );
        assert(final(store)@.dom() =~= old(store)@.dom());
        let after = final(store)@[id@].found_jobs;
        assert forall|k: int| 0 <= k < after.len() implies (#[trigger] after[k]) == (FoundJobView {
            cluster_id: after[k].cluster_id,
            cluster_canonical: after[k].cluster_canonical,
            cluster_members: after[k].cluster_members,
            is_agency: after[k].is_agency,
            ..jobs[k]
        }) by {
            verdicts_are_written_in_place(jobs, assignments_view(verdicts@), k);
        }
    } else {
        assert(final(store)@.dom() =~= old(store)@.dom());
    }
}

/// What the store can read of a file are the rows that are there, of several with one id the last,
/// without the verdicts on the boards' health.
pub proof fn loading_keeps_readable_rows(rows: &Vec<Option<Autopilot>>, r: AutopilotStore, i: int)
    requires
        call_ensures(AutopilotStore::load, (rows,), r),
        0 <= i < rows@.len(),
        rows@[i] is Some,
        forall|k: int|
            i < k < rows@.len() && (#[trigger] rows@[k]) is Some ==> rows@[k]->0.id@
                != rows@[i]->0.id@,
    ensures
        r@.contains_key(rows@[i]->0.id@),
        same_settings(r@[rows@[i]->0.id@], rows@[i]->0@),
        r@[rows@[i]->0.id@].found_jobs == rows@[i]->0@.found_jobs,
{
    let places = crate::autopilot::changes::readable_rows_are_kept(rows@);
    let read = crate::autopilot::store::readable(rows@);
    let f = |ap: AutopilotView| crate::autopilot::status::stripped(ap);
    let v = read.map_values(f);
    let m = choose|m: int| 0 <= m < places.len() && places[m] == i;
    assert(read[m] == rows@[i]->0@);
    stripping_takes_only_the_health(read[m]);
    assert(v[m] == crate::autopilot::status::stripped(read[m]));
    assert forall|k: int| m < k < v.len() implies (#[trigger] v[k]).id != v[m].id by {
        let x = places[k];
        assert(places[m] < places[k]);
        assert(rows@[x] is Some && rows@[x]->0@ == read[k]);
        stripping_takes_only_the_health(read[k]);
        assert(v[k] == crate::autopilot::status::stripped(read[k]));
        assert(rows@[x]->0.id@ != rows@[i]->0.id@);
    }
    last_record_of_an_id_counts(v, m);
}

/// A description that is corrected everywhere is corrected in every record, and what comes back is
/// how often, or the largest number where it was oftener.
pub proof fn correcting_everywhere_reaches_every_record<
    N: Fn(&str) -> String,
    A: Fn(&str, &str, &str) -> TrustAssessment,
>(
    store: &mut AutopilotStore,
    url: &str,
    description: &str,
    normalize: &N,
    assess: &A,
    now: u64,
    r: u32,
    i: int,
    j: int,
    said: Seq<char>,
)
    requires
        call_ensures(
            AutopilotStore::update_found_job_descriptions::<N, A>,
            (store, url, description, normalize, assess, now),
            r,
        ),
        0 <= i < old(store).rows().len(),
        0 <= j < old(store).rows()[i]@.found_jobs.len(),
        forall|u: &str, address: String|
            u@ == old(store).rows()[i]@.found_jobs[j].url && #[trigger] normalize.ensures(
                (u,),
                address,
            ) ==> address@ == said,
    ensures
        final(store).rows().len() == old(store).rows().len(),
        same_settings(final(store).rows()[i]@, old(store).rows()[i]@),
        said == url@ ==> final(store).rows()[i]@.found_jobs[j].description == Some(description@),
        said != url@ ==> final(store).rows()[i]@.found_jobs[j]
            == old(store).rows()[i]@.found_jobs[j],
{
    let hits = choose|hits: Seq<Seq<bool>>|
        #![trigger crate::autopilot::store::all_set_flags(hits)]
        {
            &&& hits.len() == old(store).rows().len()
            &&& forall|i: int|
                0 <= i < hits.len() ==> record_corrected(
                    *normalize,
                    *assess,
                    old(store).rows()[i]@,
                    final(store).rows()[i]@,
                    url@,
                    description@,
                    #[trigger] hits[i],
                    now,
                )
            &&& r == if crate::autopilot::store::all_set_flags(hits) > u32::MAX {
                u32::MAX as nat
            } else {
                crate::autopilot::store::all_set_flags(hits)
            }
        };
    let h = hits[i];
    let before = old(store).rows()[i]@;
    let after = final(store).rows()[i]@;
    assert(record_corrected(*normalize, *assess, before, after, url@, description@, h, now));
    crate::autopilot::changes::correction_keeps_the_record(
        *normalize,
        *assess,
        before,
        after,
        url@,
        description@,
        h,
        now,
    );
    assert(after.found_jobs[j] == after.found_jobs[j]);
    correction_reaches_the_address(
        *normalize,
        *assess,
        before.found_jobs[j],
        after.found_jobs[j],
        url@,
        description@,
        h[j],
        said,
    );
}

/// What a correction counts are the jobs whose address comes to the wanted one, where `normalize`
/// makes one thing of an address, which `key` names.
pub proof fn correcting_counts_the_jobs_of_an_address<
    N: Fn(&str) -> String,
    A: Fn(&str, &str, &str) -> TrustAssessment,
>(
    ap: &mut Autopilot,
    url: &str,
    description: &str,
    normalize: &N,
    assess: &A,
    now: u64,
    r: usize,
    key: spec_fn(Seq<char>) -> Seq<char>,
)
    requires
        call_ensures(
            correct_descriptions::<N, A>,
            (ap, url, description, normalize, assess, now),
            r,
        ),
        forall|u: &str, address: String|
            #[trigger] normalize.ensures((u,), address) ==> address@ == key(u@),
    ensures
        r == set_flags(
            Seq::new(
                old(ap).found_jobs@.len(),
                |i: int| key(old(ap).found_jobs@[i].url@) == url@,
            ),
        ),
{
    let hits = choose|hits: Seq<bool>| #[trigger]
        record_corrected(
            *normalize,
            *assess,
            old(ap)@,
            final(ap)@,
            url@,
            description@,
            hits,
            now,
        ) && r == set_flags(hits);
    let wanted = Seq::new(
        old(ap).found_jobs@.len(),
        |i: int| key(old(ap).found_jobs@[i].url@) == url@,
    );
    assert(jobs_view(old(ap).found_jobs@).len() == old(ap).found_jobs@.len());
    assert forall|i: int| 0 <= i < hits.len() implies #[trigger] hits[i] == wanted[i] by {
        assert(old(ap)@.found_jobs[i] == old(ap).found_jobs@[i]@);
        assert(final(ap)@.found_jobs[i] == final(ap)@.found_jobs[i]);
        correction_reaches_the_address(
            *normalize,
            *assess,
            old(ap)@.found_jobs[i],
            final(ap)@.found_jobs[i],
            url@,
            description@,
            hits[i],
            key(old(ap).found_jobs@[i].url@),
        );
    }
    assert(hits =~= wanted);
}

} // verus!
