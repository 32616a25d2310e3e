//! What the functions that answer an agent hand back, in the fields of what they take.
use vstd::prelude::*;

use crate::agent_read::asking::{
    cursor_is_an_offset, first_readable_rows_come_back, match_texts_are_fenced_for_themselves,
    matches_limit_is_what_was_asked, page_holds_the_jobs_from_the_offset,
    page_limit_is_what_was_asked, pages_are_as_long_as_fits,
};
use crate::agent_read::best_matches::{
    best_matches_limit, clamp_best_matches_limit, matches_value, reported_total, returned_rows,
    row_shown, rows_shown, sources_view, AgentBestMatch,
};
use crate::agent_read::contents::{
    automation_says_what_it_has, automations_are_listed_in_order, job_says_what_it_has,
    match_says_what_it_has, matches_say_what_they_are, said_number,
    said_signed, said_text, says_members, says_sources, says_texts, says_trust,
    slice_says_what_it_has,
};
use crate::agent_read::found_jobs::{
    clamp_found_jobs_limit, first_with_id, page_bytes, parse_found_jobs_cursor, resolve_found_jobs,
    trim_to_byte_budget,
};
use crate::agent_read::projection::{
    job_json, job_value, plain_texts, project_automation, resolve_automations, score_source_name,
    shown_as, slice_json, status_name, Shown, ShownView,
};
use crate::agent_read::query::{
    agent_result_reply, all_jobs, best_matches_resource, first_at, is_costly, normalized_as,
    normalized_otherwise, origin_refused_reply, resolve_job, result_frame, throttled_reply,
};
use crate::autopilot::model::{
    autopilots_view, jobs_view, members_view, opt_trust, Autopilot, AutopilotStatus, FoundJob,
    RunStatus, ScoreSource,
};
use crate::decimal::decimal;
use crate::error::{AppError, ErrorView};
use crate::json::{items, json_text, opt_real, Json, JsonView};
use crate::text::{opt_text, texts};

verus! {

/// A job on its own says in each field what the job has there.
pub proof fn job_goes_out_as_it_is(job: &FoundJob, shown: &Shown, r: Json)
    requires
        call_ensures(job_json, (job, shown), r),
    ensures
        ({
            &&& r@.get("url"@) == Some(JsonView::Text(job.url@))
            &&& r@.get("title"@) == Some(JsonView::Text(shown.title@))
            &&& r@.get("company"@) == Some(JsonView::Text(shown.company@))
            &&& r@.get("location"@) == said_text(opt_text(shown.location))
            &&& r@.get("description"@) == said_text(opt_text(shown.description))
            &&& r@.get("board"@) == said_text(opt_text(job.board))
            &&& r@.get("salaryMin"@) == said_number(opt_real(job.salary_min))
            &&& r@.get("salaryMax"@) == said_number(opt_real(job.salary_max))
            &&& r@.get("salaryCurrency"@) == said_text(opt_text(job.salary_currency))
            &&& r@.get("score"@) == said_number(opt_real(job.score))
            &&& r@.get("scoreProvisional"@) == Some(JsonView::Bool(job.score_provisional))
            &&& r@.get("scoreSource"@) == Some(
                JsonView::Text(
                    match job.score_source {
                        ScoreSource::Keyword => "keyword"@,
                        ScoreSource::Combined => "combined"@,
                    },
                ),
            )
            &&& r@.get("postedAt"@) == said_signed(job.posted_at)
            &&& r@.get("foundAt"@) == Some(JsonView::Int(job.found_at as int))
            &&& says_trust(r@.get("trust"@), opt_trust(job.trust))
            &&& r@.get("isNew"@) == Some(JsonView::Bool(job.is_new))
            &&& r@.get("applied"@) == Some(JsonView::Bool(job.applied))
            &&& r@.get("isAgency"@) == Some(JsonView::Bool(job.is_agency))
            &&& says_members(r@.get("clusterMembers"@), members_view(job.cluster_members@))
        }),
{
    job_says_what_it_has(job@, shown@);
}

/// A job in a list says in each field what the job has there.
pub proof fn slice_goes_out_as_it_is(job: &FoundJob, shown: &Shown, r: Json)
    requires
        call_ensures(slice_json, (job, shown), r),
    ensures
        ({
            &&& r@.get("url"@) == Some(JsonView::Text(job.url@))
            &&& r@.get("title"@) == Some(JsonView::Text(shown.title@))
            &&& r@.get("company"@) == Some(JsonView::Text(shown.company@))
            &&& r@.get("location"@) == said_text(opt_text(shown.location))
            &&& r@.get("description"@) == said_text(opt_text(shown.description))
            &&& r@.get("board"@) == said_text(opt_text(job.board))
            &&& r@.get("salaryMin"@) == said_number(opt_real(job.salary_min))
            &&& r@.get("salaryMax"@) == said_number(opt_real(job.salary_max))
            &&& r@.get("salaryCurrency"@) == said_text(opt_text(job.salary_currency))
            &&& r@.get("score"@) == said_number(opt_real(job.score))
            &&& r@.get("scoreProvisional"@) == Some(JsonView::Bool(job.score_provisional))
            &&& r@.get("scoreSource"@) == Some(
                JsonView::Text(
                    match job.score_source {
                        ScoreSource::Keyword => "keyword"@,
                        ScoreSource::Combined => "combined"@,
                    },
                ),
            )
            &&& r@.get("postedAt"@) == said_signed(job.posted_at)
            &&& r@.get("foundAt"@) == Some(JsonView::Int(job.found_at as int))
            &&& says_trust(r@.get("trust"@), opt_trust(job.trust))
        }),
{
    slice_says_what_it_has(job@, shown@);
}

/// The texts of a job that are shown are its own.
pub proof fn shown_texts_are_those_of_the_job(job: &FoundJob, r: Shown)
    requires
        call_ensures(Shown::plain, (job,), r),
    ensures
        r.title@ == job.title@,
        r.company@ == job.company@,
        opt_text(r.location) == opt_text(job.location),
        opt_text(r.description) == opt_text(job.description),
{
}

/// The texts of a row of the strongest jobs that are shown are its own.
pub proof fn shown_texts_are_those_of_the_row(row: &AgentBestMatch, r: Shown)
    requires
        call_ensures(AgentBestMatch::shown, (row,), r),
    ensures
        r.title@ == row.title@,
        r.company@ == row.company@,
        opt_text(r.location) == opt_text(row.location),
        r.description is None,
{
}

/// An automation says in each field what the record has there.
pub proof fn automation_goes_out_as_it_is(ap: &Autopilot, r: Json)
    requires
        call_ensures(project_automation, (ap,), r),
    ensures
        r@.get("id"@) == Some(JsonView::Text(ap.id@)),
        r@.get("name"@) == Some(JsonView::Text(ap.name@)),
        r@.get("status"@) == Some(
            JsonView::Text(
                match ap.status {
                    AutopilotStatus::Active => "active"@,
                    AutopilotStatus::Paused => "paused"@,
                    AutopilotStatus::Archived => "archived"@,
                },
            ),
        ),
        r@.get("target"@) is Some,
        says_texts(r@.get("target"@)->0.get("boards"@), texts(ap.target.boards@)),
        r@.get("target"@)->0.get("query"@) == Some(JsonView::Text(ap.target.query@)),
        r@.get("target"@)->0.get("location"@) == said_text(opt_text(ap.target.location)),
        r@.get("totalFound"@) == Some(JsonView::Int(ap.total_found as int)),
        r@.get("totalApplied"@) == Some(JsonView::Int(ap.total_applied as int)),
        r@.get("runStatus"@) == (match ap.run_status {
            None => None,
            Some(RunStatus::InProgress) => Some(JsonView::Text("inProgress"@)),
            Some(RunStatus::Completed) => Some(JsonView::Text("completed"@)),
            Some(RunStatus::CompletedWithErrors) => Some(JsonView::Text("completedWithErrors"@)),
            Some(RunStatus::Failed) => Some(JsonView::Text("failed"@)),
            Some(RunStatus::Interrupted) => Some(JsonView::Text("interrupted"@)),
        }),
        r@.get("lastRunAt"@) == (match ap.last_run_at {
            Some(at) => Some(JsonView::Int(at as int)),
            None => None,
        }),
        r@.get("createdAt"@) == Some(JsonView::Int(ap.created_at as int)),
        r@.get("updatedAt"@) == Some(JsonView::Int(ap.updated_at as int)),
{
    automation_says_what_it_has(ap@);
}

/// A row of the strongest jobs says in each field what it has there.
pub proof fn match_goes_out_as_it_is(m: &AgentBestMatch, shown: &Shown, r: Json)
    requires
        call_ensures(AgentBestMatch::to_json, (m, shown), r),
    ensures
        r@.get("title"@) == Some(JsonView::Text(shown.title@)),
        r@.get("company"@) == Some(JsonView::Text(shown.company@)),
        r@.get("location"@) == said_text(opt_text(shown.location)),
        r@.get("url"@) == Some(JsonView::Text(m.url@)),
        r@.get("board"@) == said_text(opt_text(m.board)),
        r@.get("salaryMin"@) == said_number(opt_real(m.salary_min)),
        r@.get("salaryMax"@) == said_number(opt_real(m.salary_max)),
        r@.get("salaryCurrency"@) == said_text(opt_text(m.salary_currency)),
        r@.get("score"@) == Some(JsonView::Real(m.score@)),
        r@.get("scoreProvisional"@) == Some(JsonView::Bool(m.score_provisional)),
        r@.get("scoreSource"@) == Some(
            JsonView::Text(
                match m.score_source {
                    ScoreSource::Keyword => "keyword"@,
                    ScoreSource::Combined => "combined"@,
                },
            ),
        ),
        r@.get("scoreUrl"@) == said_text(opt_text(m.score_url)),
        r@.get("postedAt"@) == said_signed(m.posted_at),
        r@.get("foundAt"@) == Some(JsonView::Int(m.found_at as int)),
        r@.get("applied"@) == Some(JsonView::Bool(m.applied)),
        r@.get("isAgency"@) == Some(JsonView::Bool(m.is_agency)),
        says_trust(r@.get("trust"@), opt_trust(m.trust)),
        says_sources(r@.get("sources"@), sources_view(m.sources@)),
{
    match_says_what_it_has(m@, shown@);
}

/// A limit in range is taken as it is asked for, a larger one is cut, and where none is asked for
/// there is one.
pub proof fn limits_are_taken_as_asked(payload: &Json, a: usize, b: usize)
    requires
        call_ensures(clamp_best_matches_limit, (payload,), a),
        call_ensures(clamp_found_jobs_limit, (payload,), b),
    ensures
        match payload@.get("limit"@) {
            Some(JsonView::Int(n)) => {
                &&& 0 <= n <= 50 ==> a == n
                &&& 1 <= n <= 50 ==> b == n
                &&& n == 0 ==> b == 25
                &&& 50 < n <= u64::MAX ==> a == 50 && b == 50
            },
            _ => a == 20 && b == 25,
        },
{
    matches_limit_is_what_was_asked(payload@);
    page_limit_is_what_was_asked(payload@);
}

/// A cursor that is the text of a number starts there, a missing one and null at the start, and
/// any other value that is no text is refused.
pub proof fn cursors_are_read_as_offsets(payload: &Json, r: Result<usize, AppError>, n: usize)
    requires
        call_ensures(parse_found_jobs_cursor, (payload,), r),
    ensures
        payload@.get("cursor"@) is None ==> r == Ok::<usize, AppError>(0),
        payload@.get("cursor"@) == Some(JsonView::Null) ==> r == Ok::<usize, AppError>(0),
        payload@.get("cursor"@) == Some(JsonView::Text(decimal(n as nat))) ==> r == Ok::<
            usize,
            AppError,
        >(n),
        payload@.get("cursor"@) is Some && !(payload@.get("cursor"@)->0 is Null) && !(payload@.get(
            "cursor"@,
        )->0 is Text) ==> r is Err,
        r matches Err(e) ==> e@ == ErrorView::Validation(
            "cursor must be a non-negative integer offset"@,
        ),
{
    cursor_is_an_offset(payload@, n as nat);
}

/// The rows that stay on a page are the first ones, and as many as fit in 150,000 bytes; one row
/// stays in any case.
pub proof fn first_rows_stay_on_a_page(rows: Vec<Json>, r: Vec<Json>, i: int)
    requires
        call_ensures(trim_to_byte_budget, (rows,), r),
    ensures
        r@.len() <= rows@.len(),
        rows@.len() > 0 ==> r@.len() > 0,
        0 <= i < r@.len() ==> r@[i]@ == rows@[i]@,
        r@.len() > 1 ==> page_bytes(items(rows@), r@.len()) <= 150_000,
        0 < r@.len() < rows@.len() ==> page_bytes(items(rows@), r@.len() + 1) > 150_000,
{
    pages_are_as_long_as_fits(items(rows@));
    assert(items(r@).len() == r@.len());
    if 0 <= i < r@.len() {
        assert(items(r@)[i] == r@[i]@);
        assert(items(rows@)[i] == rows@[i]@);
    }
}

/// A page of an automation holds the automation's own jobs from the offset on, each as it is.
pub proof fn page_holds_the_jobs_of_its_automation<F: Fn(&str, &str, usize) -> String>(
    records: &[Autopilot],
    id: &str,
    offset: usize,
    limit: usize,
    fence: &F,
    r: Result<Json, AppError>,
    a: int,
    i: int,
)
    requires
        call_ensures(resolve_found_jobs::<F>, (records, id, offset, limit, fence), r),
        0 <= a < records@.len(),
        records@[a].id@ == id@,
        forall|k: int| 0 <= k < a ==> (#[trigger] records@[k]).id@ != id@,
    ensures
        r is Ok,
        r->Ok_0@.get("autopilotId"@) == Some(JsonView::Text(id@)),
        r->Ok_0@.get("autopilotName"@) == Some(JsonView::Text(records@[a].name@)),
        r->Ok_0@.get("total"@) == Some(JsonView::Int(records@[a].found_jobs@.len() as int)),
        match r->Ok_0@.get("jobs"@) {
            Some(JsonView::Array(rows)) => {
                &&& rows.len() <= limit
                &&& limit > 0 && offset < records@[a].found_jobs@.len() ==> rows.len() > 0
                &&& 0 <= i < rows.len() ==> {
                    let job = records@[a].found_jobs@[offset + i];
                    &&& rows[i].get("url"@) == Some(JsonView::Text(job.url@))
                    &&& rows[i].get("board"@) == said_text(opt_text(job.board))
                    &&& rows[i].get("salaryMin"@) == said_number(opt_real(job.salary_min))
                    &&& rows[i].get("salaryMax"@) == said_number(opt_real(job.salary_max))
                    &&& rows[i].get("score"@) == said_number(opt_real(job.score))
                    &&& rows[i].get("postedAt"@) == said_signed(job.posted_at)
                    &&& rows[i].get("foundAt"@) == Some(JsonView::Int(job.found_at as int))
                }
            },
            _ => false,
        },
{
    let v = autopilots_view(records@);
    let out = crate::agent_read::found_jobs::result_view(r);
    lemma_first_is(v, id@, a);
    page_holds_the_jobs_from_the_offset(*fence, v, id@, offset as int, limit as int, out, i);
    let ap = records@[a];
    assert(v[a] == ap@);
    assert(jobs_view(ap.found_jobs@).len() == ap.found_jobs@.len());
    if 0 <= i && offset + i < ap.found_jobs@.len() {
        assert(ap@.found_jobs[offset + i] == ap.found_jobs@[offset + i]@);
    }
}

proof fn lemma_first_is(
    v: Seq<crate::autopilot::model::AutopilotView>,
    id: Seq<char>,
    a: int,
)
    requires
        0 <= a < v.len(),
        v[a].id == id,
        forall|k: int| 0 <= k < a ==> (#[trigger] v[k]).id != id,
    ensures
        first_with_id(v, id) == Some(v[a]),
    decreases v.len(),
{
    if a > 0 {
        let rest = v.subrange(1, v.len() as int);
        assert(v[0].id != id);
        assert forall|k: int| 0 <= k < a - 1 implies (#[trigger] rest[k]).id != id by {
            assert(rest[k] == v[k + 1]);
        }
        lemma_first_is(rest, id, a - 1);
    }
}

/// The total of the strongest jobs is the number that the host reports, and none where it reports
/// none.
pub proof fn total_is_what_is_reported(raw: &Json, r: u64)
    requires
        call_ensures(reported_total, (raw,), r),
    ensures
        match raw@.get("total"@) {
            Some(JsonView::Int(n)) => 0 <= n <= u64::MAX ==> r == n,
            _ => r == 0,
        },
{
}

/// Only the strongest jobs are costly.
pub proof fn only_matches_are_costly(resource: &str, r: bool)
    requires
        call_ensures(is_costly, (resource,), r),
    ensures
        r <==> resource@ == "best-matches"@,
{
}

/// A status and the source of a score each have one name.
pub proof fn names_are_those_of_the_wire(
    s: AutopilotStatus,
    a: &'static str,
    c: ScoreSource,
    b: &'static str,
)
    requires
        call_ensures(status_name, (s,), a),
        call_ensures(score_source_name, (c,), b),
    ensures
        s is Active ==> a@ == "active"@,
        s is Paused ==> a@ == "paused"@,
        s is Archived ==> a@ == "archived"@,
        c is Keyword ==> b@ == "keyword"@,
        c is Combined ==> b@ == "combined"@,
{
}

/// A question that came too soon, and one over a connection that is not for agents, are each
/// answered by the error that says so, under the id of the question.
pub proof fn refusals_say_why(
    req_id: &str,
    resource: &str,
    payload: &Json,
    soon: String,
    foreign: String,
)
    requires
        call_ensures(throttled_reply, (req_id, resource), soon),
        call_ensures(origin_refused_reply, (req_id, payload), foreign),
    ensures
        soon@ == json_text(
            result_frame(
                req_id@,
                resource@,
                Err(ErrorView::RateLimited("Too many requests — try again shortly."@)),
            ),
        ),
        foreign@ == json_text(
            result_frame(
                req_id@,
                match payload@.get("resource"@) {
                    Some(JsonView::Text(name)) => name,
                    _ => Seq::empty(),
                },
                Err(
                    ErrorView::Validation(
                        "agent.query is only available to the ajh-tauri agent CLI"@,
                    ),
                ),
            ),
        ),
{
}

/// A reply is the frame of its question with what was got for it.
pub proof fn replies_are_framed(
    req_id: &str,
    resource: &str,
    outcome: Result<Json, AppError>,
    r: String,
)
    requires
        call_ensures(agent_result_reply, (req_id, resource, outcome), r),
    ensures
        r@ == json_text(
            result_frame(
                req_id@,
                resource@,
                match outcome {
                    Ok(data) => Ok(data@),
                    Err(e) => Err(e@),
                },
            ),
        ),
{
}

/// All automations go out in their order, each as it is.
pub proof fn automations_go_out_in_order(records: &[Autopilot], r: Json, i: int)
    requires
        call_ensures(resolve_automations, (records,), r),
        0 <= i < records@.len(),
    ensures
        match r@.get("automations"@) {
            Some(JsonView::Array(rows)) => rows.len() == records@.len() && rows[i].get("id"@)
                == Some(JsonView::Text(records@[i].id@)) && rows[i].get("name"@) == Some(
                JsonView::Text(records@[i].name@),
            ) && rows[i].get("totalFound"@) == Some(
                JsonView::Int(records@[i].total_found as int),
            ),
            _ => false,
        },
{
    let v = autopilots_view(records@);
    automations_are_listed_in_order(v);
    assert(v[i] == records@[i]@);
    automation_says_what_it_has(v[i]);
    let rows = r@.get("automations"@)->0->Array_0;
    assert(rows[i] == crate::agent_read::projection::automation_value(v[i]));
}

/// The answer with the strongest jobs says how many there are in all, and holds the first rows that
/// could be read, up to the limit, each as it is.
pub proof fn strongest_jobs_go_out_in_order<F: Fn(&str, &str, usize) -> String>(
    payload: &Json,
    rows: &Vec<Option<AgentBestMatch>>,
    total: u64,
    fence: &F,
    r: Json,
    k: int,
)
    requires
        call_ensures(best_matches_resource::<F>, (payload, rows, total, fence), r),
        forall|x: int| 0 <= x < rows@.len() ==> (#[trigger] rows@[x]) is Some,
    ensures
        r@.get("total"@) == Some(JsonView::Int(total as int)),
        match r@.get("matches"@) {
            Some(JsonView::Array(out)) => {
                &&& r@.get("returned"@) == Some(JsonView::Int(out.len() as int))
                &&& out.len() <= 50
                &&& payload@.get("limit"@) is None ==> out.len() == (if rows@.len() < 20 {
                    rows@.len()
                } else {
                    20
                })
                &&& 0 <= k < out.len() ==> {
                    let row = rows@[k]->0;
                    &&& out[k].get("url"@) == Some(JsonView::Text(row.url@))
                    &&& out[k].get("score"@) == Some(JsonView::Real(row.score@))
                    &&& out[k].get("salaryMin"@) == said_number(opt_real(row.salary_min))
                    &&& out[k].get("salaryMax"@) == said_number(opt_real(row.salary_max))
                }
            },
            _ => false,
        },
{
    let limit = best_matches_limit(payload@);
    matches_limit_is_what_was_asked(payload@);
    let kept = returned_rows(rows@, limit);
    let values = choose|values: Seq<JsonView>| #[trigger]
        rows_shown(*fence, kept, values) && r@ == matches_value(values, total);
    matches_say_what_they_are(values, total);
    let all = first_readable_rows_come_back(rows@, limit);
    lemma_all_places(rows@, all, limit);
    if 0 <= k < values.len() {
        assert(row_shown(*fence, kept[k], values[k]));
        match_texts_are_fenced_for_themselves(*fence, kept[k], values[k]);
        assert(all[k] == k);
        assert(rows@[all[k]]->0@ == kept[k]);
    }
}

proof fn lemma_all_places(rows: Seq<Option<AgentBestMatch>>, all: Seq<int>, limit: int)
    requires
        0 <= limit,
        forall|x: int| 0 <= x < rows.len() ==> (#[trigger] rows[x]) is Some,
        all.len() <= limit,
        forall|j: int, k: int| 0 <= j < k < all.len() ==> #[trigger] all[j] < #[trigger] all[k],
        forall|k: int| 0 <= k < all.len() ==> 0 <= #[trigger] all[k] < rows.len(),
        forall|i: int|
            0 <= i < rows.len() && (#[trigger] rows[i]) is Some && !all.contains(i) ==> all.len()
                == limit && forall|k: int| 0 <= k < all.len() ==> #[trigger] all[k] < i,
    ensures
        all.len() == (if rows.len() < limit {
            rows.len() as int
        } else {
            limit
        }),
        forall|k: int| 0 <= k < all.len() ==> #[trigger] all[k] == k,
{
    assert forall|k: int| 0 <= k < all.len() implies #[trigger] all[k] == k by {
        lemma_place_is_its_index(rows, all, limit, k);
    }
    if all.len() < rows.len() {
        let i = all.len() as int;
        assert(rows[i] is Some);
        if all.contains(i) {
            let k = choose|k: int| 0 <= k < all.len() && all[k] == i;
            assert(all[k] == k);
        }
    } else if all.len() > rows.len() {
        assert(all[all.len() - 1] == all.len() - 1);
    }
}

proof fn lemma_place_is_its_index(
    rows: Seq<Option<AgentBestMatch>>,
    all: Seq<int>,
    limit: int,
    k: int,
)
    requires
        forall|x: int| 0 <= x < rows.len() ==> (#[trigger] rows[x]) is Some,
        forall|a: int, b: int| 0 <= a < b < all.len() ==> #[trigger] all[a] < #[trigger] all[b],
        forall|a: int| 0 <= a < all.len() ==> 0 <= #[trigger] all[a] < rows.len(),
        forall|i: int|
            0 <= i < rows.len() && (#[trigger] rows[i]) is Some && !all.contains(i) ==> all.len()
                == limit && forall|a: int| 0 <= a < all.len() ==> #[trigger] all[a] < i,
        0 <= k < all.len(),
    ensures
        all[k] == k,
    decreases k,
{
    if k > 0 {
        lemma_place_is_its_index(rows, all, limit, k - 1);
        assert(all[k - 1] < all[k]);
    }
    if all[k] > k {
        assert(rows[k] is Some);
        if all.contains(k) {
            let m = choose|m: int| 0 <= m < all.len() && all[m] == k;
            if m > k {
                assert(all[k] < all[m]);
            } else if m < k {
                assert(all[m] <= all[k - 1]) by {
                    if m < k - 1 {
                        assert(all[m] < all[k - 1]);
                    }
                }
            }
        } else {
            assert(all[k] < k);
        }
    }
}

/// An address that some job has gets the first such job, as it is, and one that no job has gets the
/// error that there is none.
pub proof fn address_gets_the_first_job<
    N: Fn(&str) -> String,
    F: Fn(&str, &str, usize) -> String,
>(
    records: &[Autopilot],
    url: &str,
    normalize: &N,
    fence: &F,
    r: Result<Json, AppError>,
    key: spec_fn(Seq<char>) -> Seq<char>,
)
    requires
        call_ensures(resolve_job::<N, F>, (records, url, normalize, fence), r),
        forall|u: &str, x: String| #[trigger] normalize.ensures((u,), x) ==> x@ == key(u@),
    ensures
        ({
            let jobs = all_jobs(autopilots_view(records@));
            match r {
                Ok(value) => exists|at: int|
                    0 <= at < jobs.len() && key((#[trigger] jobs[at]).url) == url@ && (forall|
                        i: int,
                    | 0 <= i < at ==> key((#[trigger] jobs[i]).url) != url@) && value@.get("url"@)
                        == Some(JsonView::Text(jobs[at].url)) && value@.get("salaryMin"@)
                        == said_number(jobs[at].salary_min) && value@.get("salaryMax"@)
                        == said_number(jobs[at].salary_max) && value@.get("isNew"@) == Some(
                        JsonView::Bool(jobs[at].is_new),
                    ),
                Err(e) => e@ == ErrorView::Validation("no job found for this url"@) && forall|
                    i: int,
                | 0 <= i < jobs.len() ==> key((#[trigger] jobs[i]).url) != url@,
            }
        }),
{
    let jobs = all_jobs(autopilots_view(records@));
    match r {
        Ok(value) => {
            let (at, shown) = choose|at: int, shown: ShownView| #[trigger]
                first_at(*normalize, jobs, url@, at) && #[trigger] shown_as(
                    *fence,
                    plain_texts(jobs[at]),
                    crate::run::notes::JOB_CAP,
                    shown,
                ) && value@ == job_value(jobs[at], shown);
            job_says_what_it_has(jobs[at], shown);
            assert(normalized_as(*normalize, jobs[at].url, url@));
            assert forall|i: int| 0 <= i < at implies key((#[trigger] jobs[i]).url) != url@ by {
                assert(normalized_otherwise(*normalize, jobs[i].url, url@));
            }
            assert(key(jobs[at].url) == url@);
        },
        Err(_) => {
            assert forall|i: int| 0 <= i < jobs.len() implies key((#[trigger] jobs[i]).url)
                != url@ by {
                assert(normalized_otherwise(*normalize, jobs[i].url, url@));
            }
        },
    }
}

} // verus!
