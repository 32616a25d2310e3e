//! The jobs of one automation, page by page.
use vstd::prelude::*;
use vstd::utf8::encode_utf8;

use crate::agent_read::projection::{
    plain_texts, shown_as, slice_json, slice_value, Shown, ShownView,
};
use crate::autopilot::merge::{merge_keeps_known_jobs, merged};
use crate::autopilot::model::{autopilots_view, Autopilot, AutopilotView, FoundJob, FoundJobView};
use crate::decimal::{decimal, decimal_reads_back, parse_unsigned, push_decimal, unsigned_value};
use crate::error::{AppError, ErrorView};
use crate::json::{array_of, items, json_text, put, Json, JsonView, ObjectBuilder};
use crate::text::{owned, str_eq};

verus! {

/// The most characters of a description in a list.
pub const FOUND_JOBS_DESCRIPTION_PREVIEW_CAP: usize = 2_000;

/// How many rows a page has at most where nothing else is asked.
pub const DEFAULT_FOUND_JOBS_LIMIT: usize = 25;

/// The most rows of a page.
pub const MAX_FOUND_JOBS_LIMIT: usize = 50;

/// The most bytes that the rows of a page take up.
pub const PAGE_BYTE_BUDGET: usize = 150_000;

/// The error where no automation has the id.
pub const AUTOPILOT_NOT_FOUND_MESSAGE: &'static str = "no autopilot found for this id";

/// The error where a cursor is not one.
pub const INVALID_CURSOR_MESSAGE: &'static str = "cursor must be a non-negative integer offset";

// ── What a request asks for ─────────────────────────────────────────────────

/// How many rows a request asks for, never more than the most, and never none.
pub open spec fn found_jobs_limit(payload: JsonView) -> int {
    match payload.unsigned_at("limit"@) {
        Some(n) => if n == 0 {
            DEFAULT_FOUND_JOBS_LIMIT as int
        } else if n < MAX_FOUND_JOBS_LIMIT {
            n as int
        } else {
            MAX_FOUND_JOBS_LIMIT as int
        },
        None => DEFAULT_FOUND_JOBS_LIMIT as int,
    }
}

/// How many rows a request asks for, never more than the most, and never none.
pub fn clamp_found_jobs_limit(payload: &Json) -> (r: usize)
    ensures
        r == found_jobs_limit(payload@),
{
    match payload.u64_at("limit") {
        Some(n) => if n == 0 {
            DEFAULT_FOUND_JOBS_LIMIT
        } else if n < MAX_FOUND_JOBS_LIMIT as u64 {
            n as usize
        } else {
            MAX_FOUND_JOBS_LIMIT
        },
        None => DEFAULT_FOUND_JOBS_LIMIT,
    }
}

/// Where a request wants to start: at the front without a cursor, else at the offset that the
/// cursor denotes. What is not a text with an offset is none, and not the front.
pub open spec fn cursor_of(payload: JsonView) -> Option<nat> {
    match payload.get("cursor"@) {
        None => Some(0),
        Some(JsonView::Null) => Some(0),
        Some(JsonView::Text(raw)) => unsigned_value(raw, usize::MAX as nat),
        Some(_) => None,
    }
}

/// Where a request wants to start.
pub fn parse_found_jobs_cursor(payload: &Json) -> (r: Result<usize, AppError>)
    ensures
        match r {
            Ok(n) => cursor_of(payload@) == Some(n as nat),
            Err(e) => cursor_of(payload@) is None && e@ == ErrorView::Validation(
                INVALID_CURSOR_MESSAGE@,
            ),
        },
{
    match payload.get("cursor") {
        None => Ok(0),
        Some(Json::Null) => Ok(0),
        Some(Json::Text(raw)) => match parse_unsigned(raw.as_str(), usize::MAX as u64) {
            Some(n) => Ok(n as usize),
            None => Err(AppError::Validation(owned(INVALID_CURSOR_MESSAGE))),
        },
        Some(_) => Err(AppError::Validation(owned(INVALID_CURSOR_MESSAGE))),
    }
}

// ── How much fits on a page ─────────────────────────────────────────────────

/// How many bytes a row takes up.
pub open spec fn row_bytes(row: JsonView) -> nat {
    encode_utf8(json_text(row)).len()
}

/// How many bytes the first `n` rows take up in a list: the brackets, the rows, and a comma
/// between two of them.
pub open spec fn page_bytes(rows: Seq<JsonView>, n: nat) -> nat
    decreases n,
{
    if n == 0 {
        2
    } else {
        page_bytes(rows, (n - 1) as nat) + row_bytes(rows[n - 1]) + (if n > 1 {
            1nat
        } else {
            0nat
        })
    }
}

/// Whether the first `n` rows fit on a page. One row always does.
pub open spec fn fits(rows: Seq<JsonView>, n: nat) -> bool {
    n <= 1 || page_bytes(rows, n) <= PAGE_BYTE_BUDGET
}

/// How many of the rows fit on a page, `n` of which are known to.
pub open spec fn kept_from(rows: Seq<JsonView>, n: nat) -> nat
    decreases rows.len() - n,
{
    if n < rows.len() && fits(rows, n + 1) {
        kept_from(rows, n + 1)
    } else {
        n
    }
}

/// How many of the rows fit on a page.
pub open spec fn kept_rows(rows: Seq<JsonView>) -> nat {
    kept_from(rows, 0)
}

fn bytes_of(row: &Json) -> (r: usize)
    ensures
        r == row_bytes(row@),
{
    let text: String = row.to_text();
    text.as_str().as_bytes().len()
}

fn count_fitting(rows: &Vec<Json>) -> (r: usize)
    ensures
        r == kept_rows(items(rows@)),
        r <= rows@.len(),
{
    let ghost all = items(rows@);
    // The bytes that are left, and whether the first row alone took more.
    let mut room: usize = PAGE_BYTE_BUDGET - 2;
    let mut over: bool = false;
    let mut n: usize = 0;
    while n < rows.len()
        invariant
            n <= rows@.len(),
            all == items(rows@),
            kept_rows(all) == kept_from(all, n as nat),
            room <= PAGE_BYTE_BUDGET - 2,
            over ==> page_bytes(all, n as nat) > PAGE_BYTE_BUDGET && n > 0,
            !over ==> page_bytes(all, n as nat) + room == PAGE_BYTE_BUDGET,
        decreases rows@.len() - n,
    {
        let bytes: usize = bytes_of(&rows[n]);
        assert(all[n as int] == rows@[n as int]@);
        if n == 0 {
            if bytes > room {
                over = true;
            } else {
                room = room - bytes;
            }
        } else {
            if over || room == 0 || bytes > room - 1 {
                assert(!fits(all, n as nat + 1));
                return n;
            }
            room = room - 1 - bytes;
        }
        assert(fits(all, n as nat + 1));
        n = n + 1;
    }
    n
}

/// The rows that fit on a page, from the front. One row always does.
pub fn trim_to_byte_budget(candidates: Vec<Json>) -> (r: Vec<Json>)
    ensures
        items(r@) == items(candidates@).take(kept_rows(items(candidates@)) as int),
        kept_rows(items(candidates@)) <= candidates@.len(),
{
    let kept: usize = count_fitting(&candidates);
    let mut out: Vec<Json> = candidates;
    out.truncate(kept);
    assert(items(out@) =~= items(candidates@).take(kept as int));
    out
}

// ── A page ──────────────────────────────────────────────────────────────────

/// Whether a value is the job with fenced texts, as it stands in a list.
pub open spec fn slice_shown<F: Fn(&str, &str, usize) -> String>(
    fence: F,
    job: FoundJobView,
    value: JsonView,
) -> bool {
    exists|shown: ShownView| #[trigger]
        shown_as(fence, plain_texts(job), FOUND_JOBS_DESCRIPTION_PREVIEW_CAP, shown) && value
            == slice_value(job, shown)
}

/// The jobs that a page may hold: from the offset on, as many as the limit allows.
pub open spec fn window(jobs: Seq<FoundJobView>, offset: int, limit: int) -> Seq<FoundJobView> {
    let from = if offset < jobs.len() {
        offset
    } else {
        jobs.len() as int
    };
    let to = if limit < jobs.len() - from {
        from + limit
    } else {
        jobs.len() as int
    };
    jobs.subrange(from, to)
}

/// Whether the values are the jobs with fenced texts.
pub open spec fn slices_shown<F: Fn(&str, &str, usize) -> String>(
    fence: F,
    jobs: Seq<FoundJobView>,
    values: Seq<JsonView>,
) -> bool {
    &&& values.len() == jobs.len()
    &&& forall|i: int| 0 <= i < jobs.len() ==> slice_shown(fence, jobs[i], #[trigger] values[i])
}

/// Where the page after one of `returned` rows starts, where there is one.
pub open spec fn next_offset(offset: int, returned: int, total: int) -> Option<int> {
    if offset + returned < total {
        Some(offset + returned)
    } else {
        None
    }
}

/// The cursor of the next page: its offset as text, null where there is none.
pub open spec fn cursor_value(next: Option<int>) -> JsonView {
    match next {
        Some(n) => JsonView::Text(decimal(n as nat)),
        None => JsonView::Null,
    }
}

/// A page of an automation: the rows that fit, of those that were asked for.
pub open spec fn page_value(ap: AutopilotView, offset: int, candidates: Seq<JsonView>) -> JsonView {
    let kept = kept_rows(candidates) as int;
    let total = ap.found_jobs.len() as int;
    let e = put(Seq::empty(), "jobs"@, JsonView::Array(candidates.take(kept)));
    let e = put(e, "nextCursor"@, cursor_value(next_offset(offset, kept, total)));
    let e = put(e, "total"@, JsonView::Int(total));
    let e = put(e, "autopilotId"@, JsonView::Text(ap.id));
    JsonView::Object(put(e, "autopilotName"@, JsonView::Text(ap.name)))
}

/// The first automation with an id, where there is one.
pub open spec fn first_with_id(records: Seq<AutopilotView>, id: Seq<char>) -> Option<AutopilotView>
    decreases records.len(),
{
    if records.len() == 0 {
        None
    } else if records[0].id == id {
        Some(records[0])
    } else {
        first_with_id(records.subrange(1, records.len() as int), id)
    }
}

fn find_record<'a>(records: &'a [Autopilot], id: &str) -> (r: Option<&'a Autopilot>)
    ensures
        match r {
            Some(ap) => first_with_id(autopilots_view(records@), id@) == Some(ap@),
            None => first_with_id(autopilots_view(records@), id@) is None,
        },
{
    let ghost all = autopilots_view(records@);
    let mut i: usize = 0;
    assert(all.subrange(0, all.len() as int) =~= all);
    while i < records.len()
        invariant
            i <= records@.len(),
            all == autopilots_view(records@),
            first_with_id(all, id@) == first_with_id(all.subrange(i as int, all.len() as int), id@),
        decreases records@.len() - i,
    {
        let ghost rest = all.subrange(i as int, all.len() as int);
        assert(rest[0] == records@[i as int]@);
        if str_eq(records[i].id.as_str(), id) {
            return Some(&records[i]);
        }
        assert(rest.subrange(1, rest.len() as int) =~= all.subrange(i as int + 1, all.len() as int));
        i = i + 1;
    }
    None
}

fn cursor_json(next: Option<usize>) -> (r: Json)
    ensures
        r@ == cursor_value(
            match next {
                Some(n) => Some(n as int),
                None => None,
            },
        ),
{
    match next {
        Some(n) => {
            let mut text: String = String::new();
            push_decimal(&mut text, n as u64);
            assert(text@ =~= decimal(n as nat));
            Json::Text(text)
        },
        None => Json::Null,
    }
}

fn slices<F: Fn(&str, &str, usize) -> String>(
    jobs: &Vec<FoundJob>,
    from: usize,
    to: usize,
    fence: &F,
) -> (r: Vec<Json>)
    requires
        from <= to <= jobs@.len(),
        forall|tag: &str, body: &str, cap: usize| fence.requires((tag, body, cap)),
    ensures
        r@.len() == to - from,
        forall|k: int|
            0 <= k < to - from ==> slice_shown(*fence, jobs@[from + k]@, (#[trigger] r@[k])@),
{
    let mut out: Vec<Json> = Vec::new();
    let mut i: usize = from;
    while i < to
        invariant
            from <= i <= to <= jobs@.len(),
            out@.len() == i - from,
            forall|tag: &str, body: &str, cap: usize| fence.requires((tag, body, cap)),
            forall|k: int|
                0 <= k < i - from ==> slice_shown(*fence, jobs@[from + k]@, (#[trigger] out@[k])@),
        decreases to - i,
    {
        let shown: Shown = Shown::plain(&jobs[i]).fenced(
            FOUND_JOBS_DESCRIPTION_PREVIEW_CAP,
            fence,
        );
        let value: Json = slice_json(&jobs[i], &shown);
        assert(slice_shown(*fence, jobs@[i as int]@, value@));
        out.push(value);
        i = i + 1;
    }
    out
}

/// Whether a result is the page of an automation from an offset on, or the error that there is no
/// such automation.
pub open spec fn page_result<F: Fn(&str, &str, usize) -> String>(
    fence: F,
    records: Seq<AutopilotView>,
    id: Seq<char>,
    offset: int,
    limit: int,
    r: Result<JsonView, ErrorView>,
) -> bool {
    match first_with_id(records, id) {
        Some(ap) => exists|candidates: Seq<JsonView>| #[trigger]
            slices_shown(fence, window(ap.found_jobs, offset, limit), candidates) && r == Ok::<
                JsonView,
                ErrorView,
            >(page_value(ap, offset, candidates)),
        None => r == Err::<JsonView, ErrorView>(
            ErrorView::Validation(AUTOPILOT_NOT_FOUND_MESSAGE@),
        ),
    }
}

/// A result as values.
pub open spec fn result_view(r: Result<Json, AppError>) -> Result<JsonView, ErrorView> {
    match r {
        Ok(j) => Ok(j@),
        Err(e) => Err(e@),
    }
}

/// The page of the automation with an id, from an offset on: at most `limit` jobs with fenced
/// texts, and of those as many as fit.
pub fn resolve_found_jobs<F: Fn(&str, &str, usize) -> String>(
    records: &[Autopilot],
    autopilot_id: &str,
    offset: usize,
    limit: usize,
    fence: &F,
) -> (r: Result<Json, AppError>)
    requires
        forall|tag: &str, body: &str, cap: usize| fence.requires((tag, body, cap)),
    ensures
        page_result(
            *fence,
            autopilots_view(records@),
            autopilot_id@,
            offset as int,
            limit as int,
            result_view(r),
        ),
{
    let ap: &Autopilot = match find_record(records, autopilot_id) {
        Some(ap) => ap,
        None => return Err(AppError::Validation(owned(AUTOPILOT_NOT_FOUND_MESSAGE))),
    };
    let total: usize = ap.found_jobs.len();
    let from: usize = if offset < total {
        offset
    } else {
        total
    };
    let to: usize = if limit < total - from {
        from + limit
    } else {
        total
    };
    let candidates: Vec<Json> = slices(&ap.found_jobs, from, to, fence);
    let ghost values = items(candidates@);
    proof {
        let jobs = window(ap@.found_jobs, offset as int, limit as int);
        assert forall|i: int| 0 <= i < jobs.len() implies slice_shown(
            *fence,
            jobs[i],
            #[trigger] values[i],
        ) by {
            assert(values[i] == candidates@[i]@);
            assert(jobs[i] == ap.found_jobs@[from + i]@);
        }
        assert(slices_shown(*fence, jobs, values));
    }
    let page: Vec<Json> = trim_to_byte_budget(candidates);
    let returned: usize = page.len();
    assert(returned == items(page@).len());
    let next: Option<usize> = if offset < total && returned < total - offset {
        Some(offset + returned)
    } else {
        None
    };
    let r: Json = ObjectBuilder::new().with("jobs", array_of(page)).with(
        "nextCursor",
        cursor_json(next),
    ).with_u64("total", total as u64).with_text("autopilotId", ap.id.as_str()).with_text(
        "autopilotName",
        ap.name.as_str(),
    ).build();
    assert(r@ == page_value(ap@, offset as int, values));
    Ok(r)
}

// ── Laws ────────────────────────────────────────────────────────────────────

/// A page asks for at least one row and for no more than the most.
pub proof fn limit_is_in_range(payload: JsonView)
    ensures
        1 <= found_jobs_limit(payload) <= MAX_FOUND_JOBS_LIMIT,
{
}

proof fn page_bytes_grow(rows: Seq<JsonView>, n: nat, m: nat)
    requires
        n <= m,
    ensures
        page_bytes(rows, n) <= page_bytes(rows, m),
    decreases m,
{
    if n < m {
        page_bytes_grow(rows, n, (m - 1) as nat);
    }
}

proof fn kept_from_is_greatest(rows: Seq<JsonView>, n: nat)
    requires
        n <= rows.len(),
        fits(rows, n),
    ensures
        n <= kept_from(rows, n) <= rows.len(),
        fits(rows, kept_from(rows, n)),
        kept_from(rows, n) < rows.len() ==> !fits(rows, kept_from(rows, n) + 1),
    decreases rows.len() - n,
{
    if n < rows.len() && fits(rows, n + 1) {
        kept_from_is_greatest(rows, n + 1);
    }
}

/// A page holds the greatest number of rows that fit: at least one where there is one, never more
/// than the budget allows beyond that one, and one more would not fit.
pub proof fn page_is_full_and_fits(rows: Seq<JsonView>)
    ensures
        kept_rows(rows) <= rows.len(),
        rows.len() > 0 ==> kept_rows(rows) >= 1,
        kept_rows(rows) > 1 ==> page_bytes(rows, kept_rows(rows)) <= PAGE_BYTE_BUDGET,
        forall|n: nat| kept_rows(rows) < n <= rows.len() ==> !#[trigger] fits(rows, n),
{
    kept_from_is_greatest(rows, 0);
    let kept = kept_rows(rows);
    if rows.len() > 0 {
        assert(fits(rows, 1));
        if kept == 0 {
            assert(!fits(rows, 0 + 1));
        }
    }
    assert forall|n: nat| kept < n <= rows.len() implies !#[trigger] fits(rows, n) by {
        page_bytes_grow(rows, kept + 1, n);
    }
}

/// What a page hands out as the cursor of the next one is read as the offset right behind its
/// last row, which moves forward wherever the page asked for a row that is there.
pub proof fn cursor_leads_behind_the_page(
    jobs: Seq<FoundJobView>,
    offset: int,
    limit: int,
    candidates: Seq<JsonView>,
    payload: JsonView,
)
    requires
        0 <= offset,
        1 <= limit,
        jobs.len() <= usize::MAX,
        candidates.len() == window(jobs, offset, limit).len(),
        payload.get("cursor"@) == Some(
            cursor_value(next_offset(offset, kept_rows(candidates) as int, jobs.len() as int)),
        ),
    ensures
        offset < jobs.len() ==> kept_rows(candidates) >= 1,
        match next_offset(offset, kept_rows(candidates) as int, jobs.len() as int) {
            Some(n) => cursor_of(payload) == Some(n as nat) && offset < n < jobs.len() && n
                == offset + kept_rows(candidates),
            None => offset + kept_rows(candidates) >= jobs.len(),
        },
{
    page_is_full_and_fits(candidates);
    match next_offset(offset, kept_rows(candidates) as int, jobs.len() as int) {
        Some(n) => {
            decimal_reads_back(n as nat, usize::MAX as nat);
        },
        None => {},
    }
}

/// Pages of which each starts where the one before ended, from the front to the end.
pub open spec fn is_traversal(starts: Seq<int>, lens: Seq<int>, total: int) -> bool {
    &&& starts.len() == lens.len()
    &&& starts.len() > 0
    &&& starts[0] == 0
    &&& forall|k: int| 0 <= k < lens.len() ==> #[trigger] lens[k] >= 0
    &&& forall|k: int|
        0 <= k < starts.len() - 1 ==> next_offset(#[trigger] starts[k], lens[k], total) == Some(
            starts[k + 1],
        )
    &&& next_offset(starts.last(), lens.last(), total) is None
    &&& starts.last() + lens.last() <= total
}

proof fn starts_grow(starts: Seq<int>, lens: Seq<int>, total: int, a: int, b: int)
    requires
        is_traversal(starts, lens, total),
        0 <= a < b < starts.len(),
    ensures
        starts[a] + lens[a] <= starts[b],
    decreases b - a,
{
    assert(next_offset(starts[b - 1], lens[b - 1], total) == Some(starts[b - 1 + 1]));
    if a < b - 1 {
        starts_grow(starts, lens, total, a, b - 1);
        assert(lens[b - 1] >= 0);
    }
}

proof fn some_page_holds(starts: Seq<int>, lens: Seq<int>, total: int, i: int, k: int)
    requires
        is_traversal(starts, lens, total),
        0 <= k < starts.len(),
        starts[k] <= i < total,
    ensures
        exists|p: int|
            0 <= p < starts.len() && #[trigger] starts[p] <= i < starts[p] + lens[p],
    decreases starts.len() - k,
{
    if i >= starts[k] + lens[k] {
        if k == starts.len() - 1 {
            assert(starts.last() == starts[k] && lens.last() == lens[k]);
        } else {
            assert(next_offset(starts[k], lens[k], total) == Some(starts[k + 1]));
            some_page_holds(starts, lens, total, i, k + 1);
        }
    }
}

/// Going from page to page by the cursors visits each job exactly once, and then ends.
pub proof fn pages_hold_each_job_once(starts: Seq<int>, lens: Seq<int>, total: int, i: int)
    requires
        is_traversal(starts, lens, total),
        0 <= i < total,
    ensures
        exists|p: int|
            0 <= p < starts.len() && #[trigger] starts[p] <= i < starts[p] + lens[p],
        forall|p: int, q: int|
            0 <= p < starts.len() && 0 <= q < starts.len() && #[trigger] starts[p] <= i < starts[p]
                + lens[p] && #[trigger] starts[q] <= i < starts[q] + lens[q] ==> p == q,
{
    some_page_holds(starts, lens, total, i, 0);
    assert forall|p: int, q: int|
        0 <= p < starts.len() && 0 <= q < starts.len() && #[trigger] starts[p] <= i < starts[p]
            + lens[p] && #[trigger] starts[q] <= i < starts[q] + lens[q] implies p == q by {
        if p < q {
            starts_grow(starts, lens, total, p, q);
        } else if q < p {
            starts_grow(starts, lens, total, q, p);
        }
    }
}

/// A run between two pages can show a job again, but never hides one that was there: what lay at
/// the next offset or behind it still does, while new jobs come before everything.
pub proof fn runs_hide_no_known_job(
    existing: Seq<FoundJobView>,
    known: Seq<Seq<char>>,
    jobs: Seq<FoundJobView>,
    keys: Seq<Seq<char>>,
    offset: int,
    i: int,
)
    requires
        existing.len() == known.len(),
        jobs.len() == keys.len(),
        0 <= offset <= i < existing.len(),
    ensures
        exists|p: int|
            offset <= p < merged(existing, known, jobs, keys).len() && (#[trigger] merged(
                existing,
                known,
                jobs,
                keys,
            )[p]).url == existing[i].url,
{
    merge_keeps_known_jobs(existing, known, jobs, keys, i);
    let all = merged(existing, known, jobs, keys);
    let p = all.len() - existing.len() + i;
    assert(all[p].url == existing[i].url);
}

} // verus!
