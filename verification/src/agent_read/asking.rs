//! What a question gets: the limits, the pages, and which record answers it.
use vstd::prelude::*;

use crate::agent_read::best_matches::{
    best_matches_limit, match_texts, matches_value, readable, reported, returned_rows, row_shown,
    rows_shown, AgentBestMatch, MatchView,
};
use crate::agent_read::contents::{
    job_says_what_it_has, match_says_what_it_has, matches_say_what_they_are, page_says_what_it_is,
    said_number, said_signed, said_text, slice_says_what_it_has,
};
use crate::agent_read::found_jobs::{
    cursor_of, first_with_id, found_jobs_limit, kept_rows, page_bytes, page_is_full_and_fits,
    page_result, page_value, result_view, slice_shown, slices_shown, window,
};
use crate::agent_read::projection::{
    automations_value, fenced_as, job_value, plain_texts, shown_as, ShownView,
};
use crate::agent_read::query::{
    all_jobs, answers, argument, first_at, found_jobs_answer, identity_as, job_answer, job_result,
    need, none_at, normalized_as, normalized_otherwise, opt_records, resource_asked, result_payload,
    Material, Need,
};
use crate::agent_read::resources::{
    resource_named, resource_table, resource_text, row_value, schema_content, Resource,
};
use crate::autopilot::model::{AutopilotView, FoundJobView};
use crate::decimal::{decimal, decimal_reads_back};
use crate::error::ErrorView;
use crate::json::{json_text, lookup, EntryView, JsonView};
use crate::text::{trimmed, trimmed_empty_iff_blank, white};

verus! {

// ── Limits and cursors ──────────────────────────────────────────────────────

/// A question for the strongest jobs gets as many rows as it asks for, up to 50; one that asks for
/// more gets 50, and one that names no number gets 20.
pub proof fn matches_limit_is_what_was_asked(payload: JsonView)
    ensures
        match payload.get("limit"@) {
            Some(JsonView::Int(n)) => {
                &&& 0 <= n <= 50 ==> best_matches_limit(payload) == n
                &&& 50 < n <= u64::MAX ==> best_matches_limit(payload) == 50
                &&& n < 0 || n > u64::MAX ==> best_matches_limit(payload) == 20
            },
            _ => best_matches_limit(payload) == 20,
        },
{
}

/// A question for the jobs of an automation gets pages of as many rows as it asks for, up to 50;
/// one that asks for more gets 50, and one that asks for none or names no number gets 25.
pub proof fn page_limit_is_what_was_asked(payload: JsonView)
    ensures
        match payload.get("limit"@) {
            Some(JsonView::Int(n)) => {
                &&& 1 <= n <= 50 ==> found_jobs_limit(payload) == n
                &&& 50 < n <= u64::MAX ==> found_jobs_limit(payload) == 50
                &&& n <= 0 || n > u64::MAX ==> found_jobs_limit(payload) == 25
            },
            _ => found_jobs_limit(payload) == 25,
        },
{
}

/// A page starts where its cursor says. A missing cursor and null are the start; a cursor that is
/// no text is refused.
pub proof fn cursor_is_an_offset(payload: JsonView, n: nat)
    requires
        n <= usize::MAX,
    ensures
        payload.get("cursor"@) is None ==> cursor_of(payload) == Some(0nat),
        payload.get("cursor"@) == Some(JsonView::Null) ==> cursor_of(payload) == Some(0nat),
        payload.get("cursor"@) == Some(JsonView::Text(decimal(n))) ==> cursor_of(payload) == Some(
            n,
        ),
        payload.get("cursor"@) matches Some(v) ==> cursor_of(payload) is Some ==> v is Null
            || v is Text,
        cursor_of(payload) is Some ==> cursor_of(payload)->0 <= usize::MAX,
{
    decimal_reads_back(n, usize::MAX as nat);
}

/// A page may hold the jobs from the offset on, in their order: as many as the limit, or all that
/// are left where they are fewer.
pub proof fn window_holds_jobs_from_the_offset(
    jobs: Seq<FoundJobView>,
    offset: int,
    limit: int,
    i: int,
)
    requires
        0 <= offset,
        0 <= limit,
    ensures
        offset >= jobs.len() ==> window(jobs, offset, limit).len() == 0,
        offset < jobs.len() && limit <= jobs.len() - offset ==> window(jobs, offset, limit).len()
            == limit,
        offset < jobs.len() && limit > jobs.len() - offset ==> window(jobs, offset, limit).len()
            == jobs.len() - offset,
        0 <= i < window(jobs, offset, limit).len() ==> window(jobs, offset, limit)[i] == jobs[offset
            + i],
{
}

/// A list of rows takes up two brackets, the text of each row, and a comma before each row but the
/// first.
pub proof fn rows_take_up_their_text(rows: Seq<JsonView>, n: nat)
    ensures
        page_bytes(rows, 0) == 2,
        page_bytes(rows, 1) == 2 + vstd::utf8::encode_utf8(json_text(rows[0])).len(),
        n > 0 ==> page_bytes(rows, n + 1) == page_bytes(rows, n) + 1 + vstd::utf8::encode_utf8(
            json_text(rows[n as int]),
        ).len(),
{
    reveal_with_fuel(page_bytes, 2);
}

/// A page is as long as 150,000 bytes let it be: it holds one row at least where there is one, it
/// holds more only as far as they fit, and the next row would not fit.
pub proof fn pages_are_as_long_as_fits(rows: Seq<JsonView>)
    ensures
        ({
            let kept = kept_rows(rows);
            &&& kept <= rows.len()
            &&& rows.len() > 0 ==> kept >= 1
            &&& kept > 1 ==> page_bytes(rows, kept) <= 150_000
            &&& 1 <= kept < rows.len() ==> page_bytes(rows, kept + 1) > 150_000
        }),
{
    page_is_full_and_fits(rows);
    let kept = kept_rows(rows);
    if 1 <= kept < rows.len() {
        assert(!crate::agent_read::found_jobs::fits(rows, kept + 1));
    }
}

/// An id finds the first record that has it, and nothing where no record has it.
pub proof fn id_finds_the_first_record(records: Seq<AutopilotView>, id: Seq<char>)
    ensures
        match first_with_id(records, id) {
            Some(ap) => exists|i: int|
                0 <= i < records.len() && #[trigger] records[i] == ap && ap.id == id && (forall|
                    k: int,
                | 0 <= k < i ==> (#[trigger] records[k]).id != id),
            None => forall|i: int| 0 <= i < records.len() ==> (#[trigger] records[i]).id != id,
        },
    decreases records.len(),
{
    if records.len() > 0 {
        let rest = records.subrange(1, records.len() as int);
        if records[0].id == id {
            assert(records[0] == first_with_id(records, id)->0);
        } else {
            id_finds_the_first_record(rest, id);
            match first_with_id(rest, id) {
                Some(ap) => {
                    let i = choose|i: int|
                        0 <= i < rest.len() && #[trigger] rest[i] == ap && ap.id == id && (forall|
                            k: int,
                        | 0 <= k < i ==> (#[trigger] rest[k]).id != id);
                    assert(records[i + 1] == rest[i]);
                    assert forall|k: int| 0 <= k < i + 1 implies (#[trigger] records[k]).id
                        != id by {
                        if k > 0 {
                            assert(rest[k - 1] == records[k]);
                        }
                    }
                },
                None => {
                    assert forall|i: int| 0 <= i < records.len() implies (#[trigger] records[i]).id
                        != id by {
                        if i > 0 {
                            assert(rest[i - 1] == records[i]);
                        }
                    }
                },
            }
        }
    }
}

/// A page of an automation holds its jobs from the offset on: row `i` is the job at offset plus
/// `i`, in every field, and the page says whose it is.
pub proof fn page_holds_the_jobs_from_the_offset<F: Fn(&str, &str, usize) -> String>(
    fence: F,
    records: Seq<AutopilotView>,
    id: Seq<char>,
    offset: int,
    limit: int,
    r: Result<JsonView, ErrorView>,
    i: int,
)
    requires
        page_result(fence, records, id, offset, limit, r),
        0 <= offset,
        0 <= limit,
    ensures
        match (first_with_id(records, id), r) {
            (Some(ap), Ok(page)) => {
                &&& page.get("autopilotId"@) == Some(JsonView::Text(id))
                &&& page.get("autopilotName"@) == Some(JsonView::Text(ap.name))
                &&& page.get("total"@) == Some(JsonView::Int(ap.found_jobs.len() as int))
                &&& match page.get("jobs"@) {
                    Some(JsonView::Array(rows)) => {
                        &&& rows.len() <= limit
                        &&& rows.len() > 0 ==> offset + rows.len() <= ap.found_jobs.len()
                        &&& limit > 0 && offset < ap.found_jobs.len() ==> rows.len() > 0
                        &&& 0 <= i < rows.len() ==> {
                            let job = ap.found_jobs[offset + i];
                            let row = rows[i];
                            &&& row.get("url"@) == Some(JsonView::Text(job.url))
                            &&& row.get("board"@) == said_text(job.board)
                            &&& row.get("salaryMin"@) == said_number(job.salary_min)
                            &&& row.get("salaryMax"@) == said_number(job.salary_max)
                            &&& row.get("salaryCurrency"@) == said_text(job.salary_currency)
                            &&& row.get("score"@) == said_number(job.score)
                            &&& row.get("postedAt"@) == said_signed(job.posted_at)
                            &&& row.get("foundAt"@) == Some(JsonView::Int(job.found_at as int))
                        }
                        &&& offset + rows.len() < ap.found_jobs.len() ==> page.get("nextCursor"@)
                            == Some(JsonView::Text(decimal((offset + rows.len()) as nat)))
                        &&& offset + rows.len() >= ap.found_jobs.len() ==> page.get("nextCursor"@)
                            == Some(JsonView::Null)
                    },
                    _ => false,
                }
            },
            (None, Err(e)) => e == ErrorView::Validation("no autopilot found for this id"@),
            _ => false,
        },
{
    id_finds_the_first_record(records, id);
    if let Some(ap) = first_with_id(records, id) {
        let jobs = window(ap.found_jobs, offset, limit);
        let candidates = choose|candidates: Seq<JsonView>| #[trigger]
            slices_shown(fence, jobs, candidates) && r == Ok::<JsonView, ErrorView>(
                page_value(ap, offset, candidates),
            );
        page_is_full_and_fits(candidates);
        page_says_what_it_is(ap, offset, candidates);
        window_holds_jobs_from_the_offset(ap.found_jobs, offset, limit, i);
        let rows = page_value(ap, offset, candidates).get("jobs"@)->0->Array_0;
        if 0 <= i < rows.len() {
            assert(rows[i] == candidates[i]);
            assert(slice_shown(fence, jobs[i], candidates[i]));
            let shown = choose|shown: ShownView| #[trigger]
                shown_as(
                    fence,
                    plain_texts(jobs[i]),
                    crate::agent_read::found_jobs::FOUND_JOBS_DESCRIPTION_PREVIEW_CAP,
                    shown,
                ) && candidates[i] == crate::agent_read::projection::slice_value(jobs[i], shown);
            slice_says_what_it_has(jobs[i], shown);
        }
        assert(rows.len() == kept_rows(candidates)) by {
            let e = Seq::<EntryView>::empty();
            reveal_strlit("jobs");
            reveal_strlit("nextCursor");
            reveal_strlit("total");
            reveal_strlit("autopilotId");
            reveal_strlit("autopilotName");
            assert("jobs"@.len() == 4 && "nextCursor"@.len() == 10 && "total"@.len() == 5
                && "autopilotId"@.len() == 11 && "autopilotName"@.len() == 13);
            reveal_with_fuel(lookup, 6);
            assert(page_value(ap, offset, candidates)->Object_0[0].key == "jobs"@);
        }
    }
}

/// A description in a list is fenced with at most 2000 characters.
pub proof fn descriptions_in_lists_are_short<F: Fn(&str, &str, usize) -> String>(
    fence: F,
    job: FoundJobView,
    value: JsonView,
)
    requires
        slice_shown(fence, job, value),
        job.description is Some,
    ensures
        exists|tag: &str, body: &str, r: String|
            tag@ == "job_posting"@ && body@ == job.description->0 && value.get("description"@)
                == Some(JsonView::Text(r@)) && #[trigger] fence.ensures((tag, body, 2000usize), r),
        exists|tag: &str, body: &str, r: String|
            tag@ == "job_posting"@ && body@ == job.title && value.get("title"@) == Some(
                JsonView::Text(r@),
            ) && #[trigger] fence.ensures((tag, body, 8000usize), r),
        exists|tag: &str, body: &str, r: String|
            tag@ == "job_posting"@ && body@ == job.company && value.get("company"@) == Some(
                JsonView::Text(r@),
            ) && #[trigger] fence.ensures((tag, body, 8000usize), r),
{
    let shown = choose|shown: ShownView| #[trigger]
        shown_as(
            fence,
            plain_texts(job),
            crate::agent_read::found_jobs::FOUND_JOBS_DESCRIPTION_PREVIEW_CAP,
            shown,
        ) && value == crate::agent_read::projection::slice_value(job, shown);
    slice_says_what_it_has(job, shown);
    assert(fenced_as(fence, job.description->0, 2000usize, shown.description->0));
    assert(fenced_as(fence, job.title, 8000usize, shown.title));
    assert(fenced_as(fence, job.company, 8000usize, shown.company));
}

// ── The strongest jobs ──────────────────────────────────────────────────────

/// The rows that come back are the first of those that could be read, in their order and as many
/// as the limit lets through. `r` is where they stand.
pub proof fn first_readable_rows_come_back(rows: Seq<Option<AgentBestMatch>>, limit: int) -> (r:
    Seq<int>)
    requires
        0 <= limit,
    ensures
        r.len() == returned_rows(rows, limit).len(),
        r.len() <= limit,
        forall|j: int, k: int| 0 <= j < k < r.len() ==> #[trigger] r[j] < #[trigger] r[k],
        forall|k: int|
            0 <= k < r.len() ==> 0 <= #[trigger] r[k] < rows.len() && rows[r[k]] is Some
                && rows[r[k]]->0@ == returned_rows(rows, limit)[k],
        forall|i: int|
            0 <= i < rows.len() && (#[trigger] rows[i]) is Some && !r.contains(i) ==> r.len()
                == limit && forall|k: int| 0 <= k < r.len() ==> #[trigger] r[k] < i,
{
    let all = lemma_readable(rows);
    let n = if limit < all.len() {
        limit
    } else {
        all.len() as int
    };
    let r = all.take(n);
    assert forall|i: int|
        0 <= i < rows.len() && (#[trigger] rows[i]) is Some && !r.contains(i) implies r.len()
        == limit && forall|k: int| 0 <= k < r.len() ==> #[trigger] r[k] < i by {
        let m = choose|m: int| 0 <= m < all.len() && all[m] == i;
        if m < n {
            assert(r[m] == i);
        }
        assert forall|k: int| 0 <= k < r.len() implies #[trigger] r[k] < i by {
            assert(r[k] == all[k]);
            assert(all[k] < all[m]);
        }
    }
    assert forall|k: int| 0 <= k < r.len() implies 0 <= #[trigger] r[k] < rows.len()
        && rows[r[k]] is Some && rows[r[k]]->0@ == returned_rows(rows, limit)[k] by {
        assert(r[k] == all[k]);
    }
    assert forall|j: int, k: int| 0 <= j < k < r.len() implies #[trigger] r[j] < #[trigger] r[k] by {
        assert(r[j] == all[j] && r[k] == all[k]);
    }
    r
}

proof fn lemma_readable(rows: Seq<Option<AgentBestMatch>>) -> (r: Seq<int>)
    ensures
        r.len() == readable(rows).len(),
        forall|j: int, k: int| 0 <= j < k < r.len() ==> #[trigger] r[j] < #[trigger] r[k],
        forall|k: int|
            0 <= k < r.len() ==> 0 <= #[trigger] r[k] < rows.len() && rows[r[k]] is Some
                && rows[r[k]]->0@ == readable(rows)[k],
        forall|i: int| 0 <= i < rows.len() && (#[trigger] rows[i]) is Some ==> r.contains(i),
    decreases rows.len(),
{
    if rows.len() == 0 {
        Seq::empty()
    } else {
        let rest = rows.drop_last();
        let n = rows.len() - 1;
        let before = lemma_readable(rest);
        let r = if rows[n] is Some {
            before.push(n)
        } else {
            before
        };
        assert forall|k: int| 0 <= k < r.len() implies 0 <= #[trigger] r[k] < rows.len()
            && rows[r[k]] is Some && rows[r[k]]->0@ == readable(rows)[k] by {
            if k < before.len() {
                assert(r[k] == before[k]);
                assert(rest[before[k]] == rows[before[k]]);
            }
        }
        assert forall|j: int, k: int| 0 <= j < k < r.len() implies #[trigger] r[j]
            < #[trigger] r[k] by {
            assert(r[j] == before[j]);
            if k < before.len() {
                assert(r[k] == before[k]);
            }
        }
        assert forall|i: int| 0 <= i < rows.len() && (#[trigger] rows[i]) is Some implies r.contains(
            i,
        ) by {
            if i < n {
                assert(rest[i] == rows[i]);
                let k = choose|k: int| 0 <= k < before.len() && before[k] == i;
                assert(r[k] == i);
            } else {
                assert(r[before.len() as int] == n);
            }
        }
        r
    }
}

/// A row of the strongest jobs goes out with its own texts, each fenced for itself with at most
/// 8000 characters, and says the rest as the row has it.
pub proof fn match_texts_are_fenced_for_themselves<F: Fn(&str, &str, usize) -> String>(
    fence: F,
    row: MatchView,
    value: JsonView,
)
    requires
        row_shown(fence, row, value),
    ensures
        exists|tag: &str, body: &str, r: String|
            tag@ == "job_posting"@ && body@ == row.title && value.get("title"@) == Some(
                JsonView::Text(r@),
            ) && #[trigger] fence.ensures((tag, body, 8000usize), r),
        exists|tag: &str, body: &str, r: String|
            tag@ == "job_posting"@ && body@ == row.company && value.get("company"@) == Some(
                JsonView::Text(r@),
            ) && #[trigger] fence.ensures((tag, body, 8000usize), r),
        row.location is None ==> value.get("location"@) is None,
        row.location is Some ==> exists|tag: &str, body: &str, r: String|
            tag@ == "job_posting"@ && body@ == row.location->0 && value.get("location"@) == Some(
                JsonView::Text(r@),
            ) && #[trigger] fence.ensures((tag, body, 8000usize), r),
        value.get("url"@) == Some(JsonView::Text(row.url)),
        value.get("score"@) == Some(JsonView::Real(row.score)),
        value.get("salaryMin"@) == said_number(row.salary_min),
        value.get("salaryMax"@) == said_number(row.salary_max),
{
    let shown = choose|shown: ShownView| #[trigger]
        shown_as(fence, match_texts(row), crate::run::notes::JOB_CAP, shown) && value
            == crate::agent_read::best_matches::match_value(row, shown);
    match_says_what_it_has(row, shown);
    assert(fenced_as(fence, row.title, 8000usize, shown.title));
    assert(fenced_as(fence, row.company, 8000usize, shown.company));
    if row.location is Some {
        assert(fenced_as(fence, row.location->0, 8000usize, shown.location->0));
    }
}

/// The rows that the host reports are the list under `matches`, and none where there is no list.
pub proof fn reported_rows_are_the_list(raw: JsonView)
    ensures
        raw.get("matches"@) matches Some(JsonView::Array(rows)) ==> reported(raw) == rows,
        !(raw.get("matches"@) is Some && raw.get("matches"@)->0 is Array) ==> reported(raw).len()
            == 0,
{
}

// ── One posting ─────────────────────────────────────────────────────────────

/// The jobs of all automations come record by record: those of the first record first, and each
/// record's in their order.
pub proof fn jobs_come_record_by_record(
    before: Seq<AutopilotView>,
    ap: AutopilotView,
    after: Seq<AutopilotView>,
)
    ensures
        all_jobs(before + seq![ap] + after) == all_jobs(before) + ap.found_jobs + all_jobs(after),
        all_jobs(Seq::<AutopilotView>::empty()).len() == 0,
    decreases after.len(),
{
    let all = before + seq![ap] + after;
    if after.len() == 0 {
        assert(all.drop_last() =~= before);
        assert(all.last() == ap);
        assert(all_jobs(before) + ap.found_jobs + all_jobs(after) =~= all_jobs(before)
            + ap.found_jobs);
    } else {
        let rest = after.drop_last();
        jobs_come_record_by_record(before, ap, rest);
        assert(all.drop_last() =~= before + seq![ap] + rest);
        assert(all.last() == after.last());
        assert(all_jobs(all) =~= all_jobs(before) + ap.found_jobs + all_jobs(after));
    }
}

/// A question for one posting without an address, or with a blank one, is refused before anything
/// is looked up; an address that is none is refused too.
pub proof fn postings_need_an_address<
    C: Fn(&str) -> Option<String>,
    N: Fn(&str) -> String,
    F: Fn(&str, &str, usize) -> String,
>(
    payload: JsonView,
    records: Option<Seq<AutopilotView>>,
    canonical: C,
    normalize: N,
    fence: F,
    r: Result<JsonView, ErrorView>,
)
    requires
        job_answer(payload, records, canonical, normalize, fence, r),
    ensures
        (match payload.get("url"@) {
            Some(JsonView::Text(s)) => forall|i: int|
                0 <= i < s.len() ==> white(#[trigger] s[i]),
            _ => true,
        }) ==> r == Err::<JsonView, ErrorView>(ErrorView::Validation("url is required"@)),
        r == Err::<JsonView, ErrorView>(ErrorView::Validation("url is required"@)) || r == Err::<
            JsonView,
            ErrorView,
        >(ErrorView::Validation("url is not a valid http(s) URL"@)) || r == Err::<
            JsonView,
            ErrorView,
        >(ErrorView::Validation("no job found for this url"@)) || r == Err::<JsonView, ErrorView>(
            ErrorView::Config("autopilot store unavailable"@),
        ) || (r is Ok && records is Some),
{
    if let Some(JsonView::Text(s)) = payload.get("url"@) {
        trimmed_empty_iff_blank(s);
    }
}

/// Whether `normalize` makes an address of another, or something else than it.
pub open spec fn comes_to<N: Fn(&str) -> String>(
    normalize: N,
    url: Seq<char>,
    address: Seq<char>,
    same: bool,
) -> bool {
    exists|u: &str, x: String|
        u@ == url && same == (x@ == address) && #[trigger] normalize.ensures((u,), x)
}

/// Whether a value says of a job what the job has.
pub open spec fn tells_of(value: JsonView, job: FoundJobView) -> bool {
    &&& value.get("url"@) == Some(JsonView::Text(job.url))
    &&& value.get("board"@) == said_text(job.board)
    &&& value.get("salaryMin"@) == said_number(job.salary_min)
    &&& value.get("salaryMax"@) == said_number(job.salary_max)
    &&& value.get("salaryCurrency"@) == said_text(job.salary_currency)
    &&& value.get("score"@) == said_number(job.score)
    &&& value.get("postedAt"@) == said_signed(job.posted_at)
    &&& value.get("foundAt"@) == Some(JsonView::Int(job.found_at as int))
    &&& value.get("isNew"@) == Some(JsonView::Bool(job.is_new))
    &&& value.get("applied"@) == Some(JsonView::Bool(job.applied))
}

proof fn lemma_job_of_address<N: Fn(&str) -> String, F: Fn(&str, &str, usize) -> String>(
    normalize: N,
    fence: F,
    jobs: Seq<FoundJobView>,
    address: Seq<char>,
    r: Result<JsonView, ErrorView>,
)
    requires
        job_result(normalize, fence, jobs, address, r),
    ensures
        r matches Ok(value) ==> exists|at: int|
            0 <= at < jobs.len() && #[trigger] comes_to(normalize, jobs[at].url, address, true)
                && tells_of(value, jobs[at]) && (forall|i: int|
                0 <= i < at ==> #[trigger] comes_to(normalize, jobs[i].url, address, false)),
        r matches Err(e) ==> e == ErrorView::Validation("no job found for this url"@) && (forall|
            i: int,
        |
            0 <= i < jobs.len() ==> #[trigger] comes_to(normalize, jobs[i].url, address, false)),
{
    match r {
        Ok(value) => {
            let (at, shown) = choose|at: int, shown: ShownView| #[trigger]
                first_at(normalize, jobs, address, at) && #[trigger] shown_as(
                    fence,
                    plain_texts(jobs[at]),
                    crate::run::notes::JOB_CAP,
                    shown,
                ) && value == job_value(jobs[at], shown);
            job_says_what_it_has(jobs[at], shown);
            assert(normalized_as(normalize, jobs[at].url, address));
            assert(comes_to(normalize, jobs[at].url, address, true));
            assert forall|i: int| 0 <= i < at implies #[trigger] comes_to(
                normalize,
                jobs[i].url,
                address,
                false,
            ) by {
                assert(normalized_otherwise(normalize, jobs[i].url, address));
            }
        },
        Err(_) => {
            assert(none_at(normalize, jobs, address));
            assert forall|i: int| 0 <= i < jobs.len() implies #[trigger] comes_to(
                normalize,
                jobs[i].url,
                address,
                false,
            ) by {
                assert(normalized_otherwise(normalize, jobs[i].url, address));
            }
        },
    }
}

/// A question for one posting gets the first job whose address comes to the same as the one asked
/// for, with what that job says in every field, and otherwise the error that there is none.
/// `address` is what the one asked for comes to: that of its posting page where it has one.
pub proof fn address_gets_its_job<
    C: Fn(&str) -> Option<String>,
    N: Fn(&str) -> String,
    F: Fn(&str, &str, usize) -> String,
>(
    payload: JsonView,
    records: Seq<AutopilotView>,
    canonical: C,
    normalize: N,
    fence: F,
    r: Result<JsonView, ErrorView>,
    s: Seq<char>,
    page: Seq<char>,
    address: Seq<char>,
)
    requires
        job_answer(payload, Some(records), canonical, normalize, fence, r),
        payload.get("url"@) == Some(JsonView::Text(s)),
        exists|i: int| 0 <= i < s.len() && !white(#[trigger] s[i]),
        forall|u: &str, c: Option<String>|
            u@ == trimmed(s) && #[trigger] canonical.ensures((u,), c) ==> (match c {
                Some(c) => c@ == page,
                None => page == trimmed(s),
            }),
        forall|u: &str, x: String|
            u@ == page && #[trigger] normalize.ensures((u,), x) ==> x@ == address,
    ensures
        address.len() == 0 ==> r == Err::<JsonView, ErrorView>(
            ErrorView::Validation("url is not a valid http(s) URL"@),
        ),
        address.len() > 0 && r is Ok ==> exists|at: int|
            0 <= at < all_jobs(records).len() && #[trigger] comes_to(
                normalize,
                all_jobs(records)[at].url,
                address,
                true,
            ) && tells_of(r->Ok_0, all_jobs(records)[at]) && (forall|i: int|
                0 <= i < at ==> #[trigger] comes_to(
                    normalize,
                    all_jobs(records)[i].url,
                    address,
                    false,
                )),
        address.len() > 0 && r is Err ==> r->Err_0 == ErrorView::Validation(
            "no job found for this url"@,
        ) && (forall|i: int|
            0 <= i < all_jobs(records).len() ==> #[trigger] comes_to(
                normalize,
                all_jobs(records)[i].url,
                address,
                false,
            )),
{
    trimmed_empty_iff_blank(s);
    let url = argument(payload, "url"@);
    assert(url == trimmed(s));
    let jobs = all_jobs(records);
    let id = choose|id: Seq<char>| #[trigger]
        identity_as(canonical, normalize, url, id) && (if id.len() == 0 {
            r == Err::<JsonView, ErrorView>(ErrorView::Validation("url is not a valid http(s) URL"@))
        } else {
            job_result(normalize, fence, jobs, id, r)
        });
    assert(id == address);
    if address.len() > 0 {
        lemma_job_of_address(normalize, fence, jobs, address, r);
    }
}

/// A question for the jobs of an automation is refused without an id, then for a cursor that is
/// no offset, then where the automations cannot be read; otherwise it gets the page that its
/// cursor and its limit name.
pub proof fn pages_are_asked_by_id_cursor_and_limit<F: Fn(&str, &str, usize) -> String>(
    payload: JsonView,
    records: Option<Seq<AutopilotView>>,
    fence: F,
    r: Result<JsonView, ErrorView>,
    s: Seq<char>,
    n: nat,
)
    requires
        found_jobs_answer(payload, records, fence, r),
        n <= usize::MAX,
    ensures
        !(payload.get("autopilotId"@) is Some && payload.get("autopilotId"@)->0 is Text) ==> r
            == Err::<JsonView, ErrorView>(ErrorView::Validation("autopilotId is required"@)),
        payload.get("autopilotId"@) == Some(JsonView::Text(s)) ==> {
            let blank = forall|i: int| 0 <= i < s.len() ==> white(#[trigger] s[i]);
            &&& blank ==> r == Err::<JsonView, ErrorView>(
                ErrorView::Validation("autopilotId is required"@),
            )
            &&& !blank && cursor_of(payload) is None ==> r == Err::<JsonView, ErrorView>(
                ErrorView::Validation("cursor must be a non-negative integer offset"@),
            )
            &&& !blank && cursor_of(payload) is Some && records is None ==> r == Err::<
                JsonView,
                ErrorView,
            >(ErrorView::Config("autopilot store unavailable"@))
            &&& !blank && payload.get("cursor"@) == Some(JsonView::Text(decimal(n)))
                && records is Some ==> page_result(
                fence,
                records->0,
                trimmed(s),
                n as int,
                found_jobs_limit(payload),
                r,
            )
            &&& !blank && payload.get("cursor"@) is None && records is Some ==> page_result(
                fence,
                records->0,
                trimmed(s),
                0,
                found_jobs_limit(payload),
                r,
            )
        },
{
    cursor_is_an_offset(payload, n);
    if let Some(JsonView::Text(text)) = payload.get("autopilotId"@) {
        trimmed_empty_iff_blank(text);
    }
}

// ── Which answer ────────────────────────────────────────────────────────────

proof fn lemma_names()
    ensures
        "best-matches"@.len() == 12,
        "job"@.len() == 3,
        "profile"@.len() == 7,
        "automations"@.len() == 11,
        "schema"@.len() == 6,
        "found-jobs"@.len() == 10,
{
    reveal_strlit("best-matches");
    reveal_strlit("job");
    reveal_strlit("profile");
    reveal_strlit("automations");
    reveal_strlit("schema");
    reveal_strlit("found-jobs");
}

/// Each resource has one name.
pub proof fn resources_have_one_name(name: Seq<char>)
    ensures
        resource_named(name) == Some(Resource::BestMatches) <==> name == "best-matches"@,
        resource_named(name) == Some(Resource::Job) <==> name == "job"@,
        resource_named(name) == Some(Resource::Profile) <==> name == "profile"@,
        resource_named(name) == Some(Resource::Automations) <==> name == "automations"@,
        resource_named(name) == Some(Resource::Schema) <==> name == "schema"@,
        resource_named(name) == Some(Resource::FoundJobs) <==> name == "found-jobs"@,
{
    lemma_names();
}

/// A question says under `resource` what it asks for. The strongest jobs and the profile have to be
/// got from the host, the automations are read for a posting, for a list of jobs and for
/// themselves, and nothing is got for the table or for what is not in it.
pub proof fn questions_say_what_they_need(payload: JsonView, name: Seq<char>)
    requires
        payload.get("resource"@) == Some(JsonView::Text(name)),
    ensures
        need(payload) == Need::BestMatches <==> name == "best-matches"@,
        need(payload) == Need::Profile <==> name == "profile"@,
        need(payload) == Need::Records <==> name == "job"@ || name == "automations"@ || name
            == "found-jobs"@,
{
    resources_have_one_name(name);
    assert(resource_asked(payload) == name);
}

/// A question gets the answer of what it names: the table, all automations, the profile as the host
/// reports it, or the strongest jobs up to its limit. What is not in the table is refused by its
/// name.
pub proof fn questions_get_what_they_name<
    C: Fn(&str) -> Option<String>,
    N: Fn(&str) -> String,
    F: Fn(&str, &str, usize) -> String,
>(
    payload: JsonView,
    material: Material,
    canonical: C,
    normalize: N,
    fence: F,
    r: Result<JsonView, ErrorView>,
    name: Seq<char>,
)
    requires
        payload.get("resource"@) == Some(JsonView::Text(name)),
        answers(payload, material, canonical, normalize, fence, r),
    ensures
        name == "schema"@ ==> r == Ok::<JsonView, ErrorView>(schema_content()),
        material matches Material::Records(records) ==> {
            &&& name == "automations"@ && records is Some ==> r == Ok::<JsonView, ErrorView>(
                automations_value(opt_records(records)->0),
            )
            &&& name == "automations"@ && records is None ==> r == Err::<JsonView, ErrorView>(
                ErrorView::Config("autopilot store unavailable"@),
            )
            &&& name == "job"@ ==> job_answer(
                payload,
                opt_records(records),
                canonical,
                normalize,
                fence,
                r,
            )
            &&& name == "found-jobs"@ ==> found_jobs_answer(
                payload,
                opt_records(records),
                fence,
                r,
            )
        },
        material matches Material::Profile(outcome) ==> name == "profile"@ ==> r == result_view(
            outcome,
        ),
        material matches Material::BestMatches(rows, total) ==> name == "best-matches"@ ==> (
        r matches Ok(value) && value.get("total"@) == Some(JsonView::Int(total as int)) && exists|
            values: Seq<JsonView>,
        | #[trigger]
            rows_shown(fence, returned_rows(rows@, best_matches_limit(payload)), values)
                && value.get("matches"@) == Some(JsonView::Array(values))),
        name != "best-matches"@ && name != "job"@ && name != "profile"@ && name != "automations"@
            && name != "schema"@ && name != "found-jobs"@ ==> r == Err::<JsonView, ErrorView>(
            ErrorView::Validation("unknown agent resource '"@ + name + "'"@),
        ),
{
    resources_have_one_name(name);
    lemma_names();
    assert(resource_asked(payload) == name);
    if let Material::BestMatches(rows, total) = material {
        if name == "best-matches"@ {
            let values = choose|values: Seq<JsonView>| #[trigger]
                rows_shown(fence, returned_rows(rows@, best_matches_limit(payload)), values) && r
                    == Ok::<JsonView, ErrorView>(matches_value(values, total));
            matches_say_what_they_are(values, total);
        }
    }
}

/// A reply is a frame of the type of an answer, with the id of its question.
pub proof fn replies_are_of_the_type_of_answers(
    req_id: Seq<char>,
    resource: Seq<char>,
    outcome: Result<JsonView, ErrorView>,
)
    ensures
        ({
            let frame = crate::agent_read::query::result_frame(req_id, resource, outcome);
            &&& frame.get("type"@) == Some(JsonView::Text("agent.result"@))
            &&& frame.get("reqId"@) == Some(JsonView::Text(req_id))
            &&& frame.get("payload"@) == Some(result_payload(resource, outcome))
            &&& result_payload(resource, outcome).get("resource"@) == Some(
                JsonView::Text(resource),
            )
        }),
{
    reveal_strlit("type");
    reveal_strlit("reqId");
    reveal_strlit("payload");
    reveal_strlit("ok");
    reveal_strlit("resource");
    reveal_strlit("data");
    reveal_strlit("error");
    reveal_with_fuel(lookup, 4);
    assert("type"@.len() == 4 && "reqId"@.len() == 5 && "payload"@.len() == 7 && "ok"@.len() == 2
        && "resource"@.len() == 8 && "data"@.len() == 4 && "error"@.len() == 5);
}

/// A reply holds what was got under `data` where there is something, and otherwise the text of the
/// error under `error`, and never both.
pub proof fn replies_hold_data_or_an_error(
    resource: Seq<char>,
    outcome: Result<JsonView, ErrorView>,
)
    ensures
        match outcome {
            Ok(data) => {
                &&& result_payload(resource, outcome).get("ok"@) == Some(JsonView::Bool(true))
                &&& result_payload(resource, outcome).get("data"@) == Some(data)
                &&& result_payload(resource, outcome).get("error"@) is None
            },
            Err(e) => {
                &&& result_payload(resource, outcome).get("ok"@) == Some(JsonView::Bool(false))
                &&& result_payload(resource, outcome).get("data"@) is None
                &&& result_payload(resource, outcome).get("error"@) == Some(
                    JsonView::Text(
                        match e {
                            ErrorView::Validation(m) => m,
                            ErrorView::Config(m) => m,
                            ErrorView::RateLimited(m) => m,
                        },
                    ),
                )
            },
        },
{
    reveal_strlit("ok");
    reveal_strlit("resource");
    reveal_strlit("data");
    reveal_strlit("error");
    reveal_with_fuel(lookup, 4);
    assert("ok"@.len() == 2 && "resource"@.len() == 8 && "data"@.len() == 4 && "error"@.len() == 5);
}

/// The table that an agent sees has one row for each resource, with its name.
pub proof fn table_names_every_resource(r: Resource)
    ensures
        match schema_content().get("resources"@) {
            Some(JsonView::Array(rows)) => exists|i: int|
                0 <= i < rows.len() && (#[trigger] rows[i]).get("name"@) == Some(
                    JsonView::Text(
                        match r {
                            Resource::BestMatches => "best-matches"@,
                            Resource::Job => "job"@,
                            Resource::Profile => "profile"@,
                            Resource::Automations => "automations"@,
                            Resource::Schema => "schema"@,
                            Resource::FoundJobs => "found-jobs"@,
                        },
                    ),
                ) && rows[i].get("description"@) == Some(
                    JsonView::Text(resource_table()[i].description),
                ) && rows.len() == 6 && resource_table()[i].resource == r,
            _ => false,
        },
{
    reveal_strlit("name");
    reveal_strlit("description");
    assert("name"@.len() == 4 && "description"@.len() == 11);
    reveal_with_fuel(lookup, 3);
    let table = resource_table();
    let i: int = match r {
        Resource::BestMatches => 0,
        Resource::Job => 1,
        Resource::Profile => 2,
        Resource::Automations => 3,
        Resource::Schema => 4,
        Resource::FoundJobs => 5,
    };
    assert(table[i].resource == r);
    let rows = schema_content().get("resources"@)->0->Array_0;
    assert(rows[i] == row_value(table[i]));
    assert(rows[i].get("name"@) == Some(JsonView::Text(resource_text(r))));
    assert(rows[i].get("description"@) == Some(JsonView::Text(table[i].description)));
    assert(table.len() == 6);
}

/// What was got meets a need exactly where it is of the kind that is needed; where nothing is
/// needed, anything does.
pub proof fn needs_are_met_by_their_kind(material: Material)
    ensures
        crate::agent_read::query::meets(material, Need::Nothing),
        crate::agent_read::query::meets(material, Need::Records) <==> material is Records,
        crate::agent_read::query::meets(material, Need::Profile) <==> material is Profile,
        crate::agent_read::query::meets(material, Need::BestMatches) <==> material is BestMatches,
{
}

/// A job on its own goes out with its own texts, each fenced for itself, the description too with
/// at most 8000 characters.
pub proof fn descriptions_alone_are_long<
    N: Fn(&str) -> String,
    F: Fn(&str, &str, usize) -> String,
>(
    normalize: N,
    fence: F,
    jobs: Seq<FoundJobView>,
    url: Seq<char>,
    value: JsonView,
)
    requires
        job_result(normalize, fence, jobs, url, Ok(value)),
    ensures
        exists|at: int|
            0 <= at < jobs.len() && #[trigger] fenced_whole(fence, jobs[at], value) && value.get(
                "url"@,
            ) == Some(JsonView::Text(jobs[at].url)),
{
    let (at, shown) = choose|at: int, shown: ShownView| #[trigger]
        first_at(normalize, jobs, url, at) && #[trigger] shown_as(
            fence,
            plain_texts(jobs[at]),
            crate::run::notes::JOB_CAP,
            shown,
        ) && value == job_value(jobs[at], shown);
    let job = jobs[at];
    job_says_what_it_has(job, shown);
    assert(fenced_as(fence, job.title, 8000usize, shown.title));
    assert(fenced_as(fence, job.company, 8000usize, shown.company));
    if job.location is Some {
        assert(fenced_as(fence, job.location->0, 8000usize, shown.location->0));
    }
    if job.description is Some {
        assert(fenced_as(fence, job.description->0, 8000usize, shown.description->0));
    }
    assert(fenced_whole(fence, jobs[at], value));
}

/// Whether a value has the texts of a job, each as `fence` makes it of the text of a posting with
/// at most 8000 characters.
pub open spec fn fenced_whole<F: Fn(&str, &str, usize) -> String>(
    fence: F,
    job: FoundJobView,
    value: JsonView,
) -> bool {
    &&& exists|tag: &str, body: &str, r: String|
        tag@ == "job_posting"@ && body@ == job.title && value.get("title"@) == Some(
            JsonView::Text(r@),
        ) && #[trigger] fence.ensures((tag, body, 8000usize), r)
    &&& exists|tag: &str, body: &str, r: String|
        tag@ == "job_posting"@ && body@ == job.company && value.get("company"@) == Some(
            JsonView::Text(r@),
        ) && #[trigger] fence.ensures((tag, body, 8000usize), r)
    &&& job.location is None ==> value.get("location"@) is None
    &&& job.location is Some ==> exists|tag: &str, body: &str, r: String|
        tag@ == "job_posting"@ && body@ == job.location->0 && value.get("location"@) == Some(
            JsonView::Text(r@),
        ) && #[trigger] fence.ensures((tag, body, 8000usize), r)
    &&& job.description is None ==> value.get("description"@) is None
    &&& job.description is Some ==> exists|tag: &str, body: &str, r: String|
        tag@ == "job_posting"@ && body@ == job.description->0 && value.get("description"@) == Some(
            JsonView::Text(r@),
        ) && #[trigger] fence.ensures((tag, body, 8000usize), r)
}

/// A question that names nothing asks for the empty name, which is in no table.
pub proof fn questions_without_a_name_are_refused<
    C: Fn(&str) -> Option<String>,
    N: Fn(&str) -> String,
    F: Fn(&str, &str, usize) -> String,
>(
    payload: JsonView,
    material: Material,
    canonical: C,
    normalize: N,
    fence: F,
    r: Result<JsonView, ErrorView>,
)
    requires
        !(payload.get("resource"@) is Some && payload.get("resource"@)->0 is Text),
        answers(payload, material, canonical, normalize, fence, r),
    ensures
        need(payload) == Need::Nothing,
        r == Err::<JsonView, ErrorView>(
            ErrorView::Validation("unknown agent resource '"@ + Seq::<char>::empty() + "'"@),
        ),
{
    lemma_names();
    assert(resource_asked(payload).len() == 0);
    assert(resource_asked(payload) =~= Seq::empty());
    resources_have_one_name(resource_asked(payload));
}

/// A cursor that is a text is read as the number that it denotes: one that denotes none, or none
/// that fits, is refused.
pub proof fn cursors_that_are_no_numbers_are_refused(payload: JsonView, raw: Seq<char>)
    requires
        payload.get("cursor"@) == Some(JsonView::Text(raw)),
    ensures
        cursor_of(payload) == crate::decimal::unsigned_value(raw, usize::MAX as nat),
        raw.len() == 0 ==> cursor_of(payload) is None,
        (exists|i: int|
            0 <= i < raw.len() && !('0' <= #[trigger] raw[i] <= '9') && !(i == 0 && raw[i] == '+'))
            ==> cursor_of(payload) is None,
{
    crate::decimal::only_digits_are_read(raw, usize::MAX as nat);
    if exists|i: int|
        0 <= i < raw.len() && !('0' <= #[trigger] raw[i] <= '9') && !(i == 0 && raw[i] == '+') {
        let i = choose|i: int|
            0 <= i < raw.len() && !('0' <= #[trigger] raw[i] <= '9') && !(i == 0 && raw[i] == '+');
        if cursor_of(payload) is Some {
            if raw[0] == '+' {
                let body = raw.subrange(1, raw.len() as int);
                assert(body[i - 1] == raw[i]);
            } else {
                assert('0' <= raw[i] <= '9');
            }
        }
    }
}

} // verus!
