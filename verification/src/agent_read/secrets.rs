//! What no agent may see is nowhere in what it gets, at any depth.
use vstd::prelude::*;

use crate::agent_read::best_matches::{
    best_matches_limit, match_texts, match_value, matches_value, returned_rows, row_shown,
    rows_shown, source_value, sources_value, MatchView, SourceView,
};
use crate::agent_read::found_jobs::{
    cursor_of, cursor_value, first_with_id, found_jobs_limit, kept_rows, next_offset,
    page_is_full_and_fits, page_value, slice_shown, slices_shown, window,
    FOUND_JOBS_DESCRIPTION_PREVIEW_CAP,
};
use crate::agent_read::projection::{
    automation_keys, automation_value, automations_value, job_keys, job_value, member_value,
    members_value, opt_run_status_text, opt_trust_value, plain_texts, posting_entries,
    score_source_text, secret_keys, secrets_are_no_fields, shown_as, slice_value, status_text,
    target_value, ShownView,
};
use crate::agent_read::query::{
    all_jobs, answers, argument, first_at, identity_as, job_result, opt_records, resource_asked,
    Material,
};
use crate::agent_read::resources::{
    resource_named, resource_table, resource_text, row_value, schema_content, Resource, RowView,
};
use crate::autopilot::model::{AutopilotView, FoundJobView, MemberView, TargetView, TrustView};
use crate::error::ErrorView;
use crate::json::{
    put_opt, real_value, signed_int_value, text_items, text_value, unsigned_int_value, EntryView,
    JsonView,
};
use crate::run::notes::JOB_CAP;

verus! {

/// Whether a key stands somewhere in a value, however deep.
pub open spec fn has_key_within(v: JsonView, key: Seq<char>) -> bool
    decreases v,
{
    match v {
        JsonView::Object(e) => exists|i: int|
            0 <= i < e.len() && ((#[trigger] e[i]).key == key || has_key_within(e[i].value, key)),
        JsonView::Array(a) => exists|i: int|
            0 <= i < a.len() && has_key_within(#[trigger] a[i], key),
        _ => false,
    }
}

/// Whether a key stands nowhere in some entries.
pub open spec fn entries_without(e: Seq<EntryView>, key: Seq<char>) -> bool {
    forall|i: int|
        0 <= i < e.len() ==> (#[trigger] e[i]).key != key && !has_key_within(e[i].value, key)
}

proof fn put_without(e: Seq<EntryView>, name: Seq<char>, value: Option<JsonView>, key: Seq<char>)
    requires
        entries_without(e, key),
        name != key,
        value is Some ==> !has_key_within(value->0, key),
    ensures
        entries_without(put_opt(e, name, value), key),
{
    let f = put_opt(e, name, value);
    assert forall|i: int| 0 <= i < f.len() implies (#[trigger] f[i]).key != key && !has_key_within(
        f[i].value,
        key,
    ) by {
        if i < e.len() {
            assert(f[i] == e[i]);
        }
    }
}

/// The names of the remaining fields that an agent gets.
pub open spec fn other_keys() -> Seq<Seq<char>> {
    seq![
        "scoreUrl"@,
        "sources"@,
        "level"@,
        "flags"@,
        "boards"@,
        "query"@,
        "autopilotId"@,
        "autopilotName"@,
        "paused"@,
        "matches"@,
        "total"@,
        "returned"@,
        "jobs"@,
        "nextCursor"@,
        "automations"@,
        "resources"@,
    ]
}

spec fn unlike(a: Seq<char>, b: Seq<char>) -> bool {
    a.len() != b.len() || a[0] != b[0] || a[a.len() - 1] != b[b.len() - 1]
}

/// What no agent may see is none of the remaining fields.
pub proof fn secrets_are_no_other_fields(i: int)
    requires
        0 <= i < secret_keys().len(),
    ensures
        !other_keys().contains(secret_keys()[i]),
{
    reveal_strlit("scoreUrl");
    reveal_strlit("sources");
    reveal_strlit("level");
    reveal_strlit("flags");
    reveal_strlit("boards");
    reveal_strlit("query");
    reveal_strlit("autopilotId");
    reveal_strlit("autopilotName");
    reveal_strlit("paused");
    reveal_strlit("matches");
    reveal_strlit("total");
    reveal_strlit("returned");
    reveal_strlit("jobs");
    reveal_strlit("nextCursor");
    reveal_strlit("automations");
    reveal_strlit("resources");
    reveal_strlit("assistantNotes");
    reveal_strlit("clusterId");
    reveal_strlit("clusterCanonical");
    reveal_strlit("resumeText");
    reveal_strlit("coverLetter");
    reveal_strlit("assistant");
    reveal_strlit("assistantProvider");
    reveal_strlit("assistantModel");
    reveal_strlit("assistantBaseUrl");
    reveal_strlit("key");
    let secret = secret_keys()[i];
    assert(unlike(secret, "scoreUrl"@));
    assert(unlike(secret, "sources"@));
    assert(unlike(secret, "level"@));
    assert(unlike(secret, "flags"@));
    assert(unlike(secret, "boards"@));
    assert(unlike(secret, "query"@));
    assert(unlike(secret, "autopilotId"@));
    assert(unlike(secret, "autopilotName"@));
    assert(unlike(secret, "paused"@));
    assert(unlike(secret, "matches"@));
    assert(unlike(secret, "total"@));
    assert(unlike(secret, "returned"@));
    assert(unlike(secret, "jobs"@));
    assert(unlike(secret, "nextCursor"@));
    assert(unlike(secret, "automations"@));
    assert(unlike(secret, "resources"@));
}

proof fn texts_without(v: Seq<Seq<char>>, key: Seq<char>)
    ensures
        !has_key_within(JsonView::Array(text_items(v)), key),
{
    assert forall|i: int| 0 <= i < text_items(v).len() implies !has_key_within(
        #[trigger] text_items(v)[i],
        key,
    ) by {}
}

proof fn trust_without(t: Option<TrustView>, i: int)
    requires
        0 <= i < secret_keys().len(),
    ensures
        opt_trust_value(t) is Some ==> !has_key_within(opt_trust_value(t)->0, secret_keys()[i]),
{
    if let Some(t) = t {
        let key = secret_keys()[i];
        secrets_are_no_fields(i);
        secrets_are_no_other_fields(i);
        texts_without(t.flags, key);
        let e0 = Seq::<EntryView>::empty();
        assert(job_keys()[9] == "score"@);
        let v = Some(JsonView::Int(t.score as int));
        put_without(e0, "score"@, v, key);
        let e1 = put_opt(e0, "score"@, v);
        assert(other_keys()[2] == "level"@);
        let v = Some(JsonView::Text(t.level));
        put_without(e1, "level"@, v, key);
        let e2 = put_opt(e1, "level"@, v);
        assert(other_keys()[3] == "flags"@);
        let v = Some(JsonView::Array(text_items(t.flags)));
        put_without(e2, "flags"@, v, key);
    }
}

proof fn members_without(v: Seq<MemberView>, i: int)
    requires
        0 <= i < secret_keys().len(),
    ensures
        members_value(v) is Some ==> !has_key_within(members_value(v)->0, secret_keys()[i]),
{
    let key = secret_keys()[i];
    secrets_are_no_fields(i);
    let all = v.map_values(|m: MemberView| member_value(m));
    assert forall|k: int| 0 <= k < all.len() implies !has_key_within(#[trigger] all[k], key) by {
        let m = v[k];
        let e0 = Seq::<EntryView>::empty();
        assert(job_keys()[4] == "board"@);
        let v = text_value(m.board);
        put_without(e0, "board"@, v, key);
        let e1 = put_opt(e0, "board"@, v);
        assert(job_keys()[2] == "url"@);
        let v = Some(JsonView::Text(m.url));
        put_without(e1, "url"@, v, key);
    }
}

proof fn sources_without(v: Seq<SourceView>, i: int)
    requires
        0 <= i < secret_keys().len(),
    ensures
        sources_value(v) is Some ==> !has_key_within(sources_value(v)->0, secret_keys()[i]),
{
    let key = secret_keys()[i];
    secrets_are_no_fields(i);
    secrets_are_no_other_fields(i);
    let all = v.map_values(|s: SourceView| source_value(s));
    assert forall|k: int| 0 <= k < all.len() implies !has_key_within(#[trigger] all[k], key) by {
        let s = v[k];
        let e0 = Seq::<EntryView>::empty();
        assert(other_keys()[6] == "autopilotId"@);
        let v = Some(JsonView::Text(s.autopilot_id));
        put_without(e0, "autopilotId"@, v, key);
        let e1 = put_opt(e0, "autopilotId"@, v);
        assert(other_keys()[7] == "autopilotName"@);
        let v = Some(JsonView::Text(s.autopilot_name));
        put_without(e1, "autopilotName"@, v, key);
        let e2 = put_opt(e1, "autopilotName"@, v);
        assert(other_keys()[8] == "paused"@);
        let v = Some(JsonView::Bool(s.paused));
        put_without(e2, "paused"@, v, key);
        let e3 = put_opt(e2, "paused"@, v);
        assert(job_keys()[13] == "foundAt"@);
        let v = Some(JsonView::Int(s.found_at as int));
        put_without(e3, "foundAt"@, v, key);
    }
}

proof fn posting_without(job: FoundJobView, shown: ShownView, i: int)
    requires
        0 <= i < secret_keys().len(),
    ensures
        entries_without(posting_entries(job, shown), secret_keys()[i]),
{
    let key = secret_keys()[i];
    secrets_are_no_fields(i);
    let e0 = Seq::<EntryView>::empty();
    assert(job_keys()[0] == "title"@);
    let v = Some(JsonView::Text(shown.title));
    put_without(e0, "title"@, v, key);
    let e1 = put_opt(e0, "title"@, v);
    assert(job_keys()[1] == "company"@);
    let v = Some(JsonView::Text(shown.company));
    put_without(e1, "company"@, v, key);
    let e2 = put_opt(e1, "company"@, v);
    assert(job_keys()[2] == "url"@);
    let v = Some(JsonView::Text(job.url));
    put_without(e2, "url"@, v, key);
    let e3 = put_opt(e2, "url"@, v);
    assert(job_keys()[3] == "location"@);
    let v = text_value(shown.location);
    put_without(e3, "location"@, v, key);
    let e4 = put_opt(e3, "location"@, v);
    assert(job_keys()[4] == "board"@);
    let v = text_value(job.board);
    put_without(e4, "board"@, v, key);
    let e5 = put_opt(e4, "board"@, v);
    assert(job_keys()[5] == "description"@);
    let v = text_value(shown.description);
    put_without(e5, "description"@, v, key);
    let e6 = put_opt(e5, "description"@, v);
    assert(job_keys()[6] == "salaryMin"@);
    let v = real_value(job.salary_min);
    put_without(e6, "salaryMin"@, v, key);
    let e7 = put_opt(e6, "salaryMin"@, v);
    assert(job_keys()[7] == "salaryMax"@);
    let v = real_value(job.salary_max);
    put_without(e7, "salaryMax"@, v, key);
    let e8 = put_opt(e7, "salaryMax"@, v);
    assert(job_keys()[8] == "salaryCurrency"@);
    let v = text_value(job.salary_currency);
    put_without(e8, "salaryCurrency"@, v, key);
    let e9 = put_opt(e8, "salaryCurrency"@, v);
    assert(job_keys()[9] == "score"@);
    let v = real_value(job.score);
    put_without(e9, "score"@, v, key);
    let e10 = put_opt(e9, "score"@, v);
    assert(job_keys()[10] == "scoreProvisional"@);
    let v = Some(JsonView::Bool(job.score_provisional));
    put_without(e10, "scoreProvisional"@, v, key);
    let e11 = put_opt(e10, "scoreProvisional"@, v);
    assert(job_keys()[11] == "scoreSource"@);
    let v = Some(JsonView::Text(score_source_text(job.score_source)));
    put_without(e11, "scoreSource"@, v, key);
    let e12 = put_opt(e11, "scoreSource"@, v);
    assert(job_keys()[12] == "postedAt"@);
    let v = signed_int_value(job.posted_at);
    put_without(e12, "postedAt"@, v, key);
    let e13 = put_opt(e12, "postedAt"@, v);
    assert(job_keys()[13] == "foundAt"@);
    let v = Some(JsonView::Int(job.found_at as int));
    put_without(e13, "foundAt"@, v, key);
}

/// Nothing that no agent may see stands anywhere in a job on its own.
pub proof fn job_holds_no_secret(job: FoundJobView, shown: ShownView, i: int)
    requires
        0 <= i < secret_keys().len(),
    ensures
        !has_key_within(job_value(job, shown), secret_keys()[i]),
{
    let key = secret_keys()[i];
    secrets_are_no_fields(i);
    posting_without(job, shown, i);
    trust_without(job.trust, i);
    members_without(job.cluster_members, i);
    let e0 = posting_entries(job, shown);
    assert(job_keys()[15] == "isNew"@);
    let v = Some(JsonView::Bool(job.is_new));
    put_without(e0, "isNew"@, v, key);
    let e1 = put_opt(e0, "isNew"@, v);
    assert(job_keys()[16] == "applied"@);
    let v = Some(JsonView::Bool(job.applied));
    put_without(e1, "applied"@, v, key);
    let e2 = put_opt(e1, "applied"@, v);
    assert(job_keys()[17] == "isAgency"@);
    let v = Some(JsonView::Bool(job.is_agency));
    put_without(e2, "isAgency"@, v, key);
    let e3 = put_opt(e2, "isAgency"@, v);
    assert(job_keys()[14] == "trust"@);
    let v = opt_trust_value(job.trust);
    put_without(e3, "trust"@, v, key);
    let e4 = put_opt(e3, "trust"@, v);
    assert(job_keys()[18] == "clusterMembers"@);
    let v = members_value(job.cluster_members);
    put_without(e4, "clusterMembers"@, v, key);
}

/// Nothing that no agent may see stands anywhere in a job in a list.
pub proof fn slice_holds_no_secret(job: FoundJobView, shown: ShownView, i: int)
    requires
        0 <= i < secret_keys().len(),
    ensures
        !has_key_within(slice_value(job, shown), secret_keys()[i]),
{
    let key = secret_keys()[i];
    secrets_are_no_fields(i);
    posting_without(job, shown, i);
    trust_without(job.trust, i);
    let e0 = posting_entries(job, shown);
    assert(job_keys()[14] == "trust"@);
    let v = opt_trust_value(job.trust);
    put_without(e0, "trust"@, v, key);
}

/// Nothing that no agent may see stands anywhere in a page of jobs.
pub proof fn page_holds_no_secret<F: Fn(&str, &str, usize) -> String>(
    fence: F,
    ap: AutopilotView,
    jobs: Seq<FoundJobView>,
    offset: int,
    candidates: Seq<JsonView>,
    i: int,
)
    requires
        slices_shown(fence, jobs, candidates),
        0 <= i < secret_keys().len(),
    ensures
        !has_key_within(page_value(ap, offset, candidates), secret_keys()[i]),
{
    let key = secret_keys()[i];
    secrets_are_no_fields(i);
    secrets_are_no_other_fields(i);
    page_is_full_and_fits(candidates);
    let kept = kept_rows(candidates) as int;
    let total = ap.found_jobs.len() as int;
    let rows = candidates.take(kept);
    assert forall|k: int| 0 <= k < rows.len() implies !has_key_within(#[trigger] rows[k], key) by {
        assert(slice_shown(fence, jobs[k], candidates[k]));
        let shown = choose|shown: ShownView| #[trigger]
            shown_as(fence, plain_texts(jobs[k]), FOUND_JOBS_DESCRIPTION_PREVIEW_CAP, shown)
                && candidates[k] == slice_value(jobs[k], shown);
        slice_holds_no_secret(jobs[k], shown, i);
    }
    let e0 = Seq::<EntryView>::empty();
    assert(other_keys()[12] == "jobs"@);
    let v = Some(JsonView::Array(rows));
    put_without(e0, "jobs"@, v, key);
    let e1 = put_opt(e0, "jobs"@, v);
    assert(other_keys()[13] == "nextCursor"@);
    let v = Some(cursor_value(next_offset(offset, kept, total)));
    put_without(e1, "nextCursor"@, v, key);
    let e2 = put_opt(e1, "nextCursor"@, v);
    assert(other_keys()[10] == "total"@);
    let v = Some(JsonView::Int(total));
    put_without(e2, "total"@, v, key);
    let e3 = put_opt(e2, "total"@, v);
    assert(other_keys()[6] == "autopilotId"@);
    let v = Some(JsonView::Text(ap.id));
    put_without(e3, "autopilotId"@, v, key);
    let e4 = put_opt(e3, "autopilotId"@, v);
    assert(other_keys()[7] == "autopilotName"@);
    let v = Some(JsonView::Text(ap.name));
    put_without(e4, "autopilotName"@, v, key);
}

proof fn target_without(t: TargetView, i: int)
    requires
        0 <= i < secret_keys().len(),
    ensures
        !has_key_within(target_value(t), secret_keys()[i]),
{
    let key = secret_keys()[i];
    secrets_are_no_fields(i);
    secrets_are_no_other_fields(i);
    texts_without(t.boards, key);
    let e0 = Seq::<EntryView>::empty();
    assert(other_keys()[4] == "boards"@);
    let v = Some(JsonView::Array(text_items(t.boards)));
    put_without(e0, "boards"@, v, key);
    let e1 = put_opt(e0, "boards"@, v);
    assert(other_keys()[5] == "query"@);
    let v = Some(JsonView::Text(t.query));
    put_without(e1, "query"@, v, key);
    let e2 = put_opt(e1, "query"@, v);
    assert(job_keys()[3] == "location"@);
    let v = text_value(t.location);
    put_without(e2, "location"@, v, key);
}

/// Nothing that no agent may see stands anywhere in an automation.
pub proof fn automation_holds_no_secret(ap: AutopilotView, i: int)
    requires
        0 <= i < secret_keys().len(),
    ensures
        !has_key_within(automation_value(ap), secret_keys()[i]),
{
    let key = secret_keys()[i];
    secrets_are_no_fields(i);
    target_without(ap.target, i);
    let e0 = Seq::<EntryView>::empty();
    assert(automation_keys()[0] == "id"@);
    let v = Some(JsonView::Text(ap.id));
    put_without(e0, "id"@, v, key);
    let e1 = put_opt(e0, "id"@, v);
    assert(automation_keys()[1] == "name"@);
    let v = Some(JsonView::Text(ap.name));
    put_without(e1, "name"@, v, key);
    let e2 = put_opt(e1, "name"@, v);
    assert(automation_keys()[2] == "status"@);
    let v = Some(JsonView::Text(status_text(ap.status)));
    put_without(e2, "status"@, v, key);
    let e3 = put_opt(e2, "status"@, v);
    assert(automation_keys()[3] == "target"@);
    let v = Some(target_value(ap.target));
    put_without(e3, "target"@, v, key);
    let e4 = put_opt(e3, "target"@, v);
    assert(automation_keys()[4] == "totalFound"@);
    let v = Some(JsonView::Int(ap.total_found as int));
    put_without(e4, "totalFound"@, v, key);
    let e5 = put_opt(e4, "totalFound"@, v);
    assert(automation_keys()[5] == "totalApplied"@);
    let v = Some(JsonView::Int(ap.total_applied as int));
    put_without(e5, "totalApplied"@, v, key);
    let e6 = put_opt(e5, "totalApplied"@, v);
    assert(automation_keys()[6] == "runStatus"@);
    let v = text_value(opt_run_status_text(ap.run_status));
    put_without(e6, "runStatus"@, v, key);
    let e7 = put_opt(e6, "runStatus"@, v);
    assert(automation_keys()[7] == "lastRunAt"@);
    let v = unsigned_int_value(ap.last_run_at);
    put_without(e7, "lastRunAt"@, v, key);
    let e8 = put_opt(e7, "lastRunAt"@, v);
    assert(automation_keys()[8] == "createdAt"@);
    let v = Some(JsonView::Int(ap.created_at as int));
    put_without(e8, "createdAt"@, v, key);
    let e9 = put_opt(e8, "createdAt"@, v);
    assert(automation_keys()[9] == "updatedAt"@);
    let v = Some(JsonView::Int(ap.updated_at as int));
    put_without(e9, "updatedAt"@, v, key);
}

/// Nothing that no agent may see stands anywhere in the list of the automations.
pub proof fn automations_hold_no_secret(records: Seq<AutopilotView>, i: int)
    requires
        0 <= i < secret_keys().len(),
    ensures
        !has_key_within(automations_value(records), secret_keys()[i]),
{
    let key = secret_keys()[i];
    secrets_are_no_other_fields(i);
    let rows = records.map_values(|ap: AutopilotView| automation_value(ap));
    assert forall|k: int| 0 <= k < rows.len() implies !has_key_within(#[trigger] rows[k], key) by {
        automation_holds_no_secret(records[k], i);
    }
    let e0 = Seq::<EntryView>::empty();
    assert(other_keys()[14] == "automations"@);
    let v = Some(JsonView::Array(rows));
    put_without(e0, "automations"@, v, key);
}

/// Nothing that no agent may see stands anywhere in one of the strongest jobs.
pub proof fn match_holds_no_secret(m: MatchView, shown: ShownView, i: int)
    requires
        0 <= i < secret_keys().len(),
    ensures
        !has_key_within(match_value(m, shown), secret_keys()[i]),
{
    let key = secret_keys()[i];
    secrets_are_no_fields(i);
    secrets_are_no_other_fields(i);
    trust_without(m.trust, i);
    sources_without(m.sources, i);
    let e0 = Seq::<EntryView>::empty();
    assert(job_keys()[0] == "title"@);
    let v = Some(JsonView::Text(shown.title));
    put_without(e0, "title"@, v, key);
    let e1 = put_opt(e0, "title"@, v);
    assert(job_keys()[1] == "company"@);
    let v = Some(JsonView::Text(shown.company));
    put_without(e1, "company"@, v, key);
    let e2 = put_opt(e1, "company"@, v);
    assert(job_keys()[2] == "url"@);
    let v = Some(JsonView::Text(m.url));
    put_without(e2, "url"@, v, key);
    let e3 = put_opt(e2, "url"@, v);
    assert(job_keys()[3] == "location"@);
    let v = text_value(shown.location);
    put_without(e3, "location"@, v, key);
    let e4 = put_opt(e3, "location"@, v);
    assert(job_keys()[4] == "board"@);
    let v = text_value(m.board);
    put_without(e4, "board"@, v, key);
    let e5 = put_opt(e4, "board"@, v);
    assert(job_keys()[6] == "salaryMin"@);
    let v = real_value(m.salary_min);
    put_without(e5, "salaryMin"@, v, key);
    let e6 = put_opt(e5, "salaryMin"@, v);
    assert(job_keys()[7] == "salaryMax"@);
    let v = real_value(m.salary_max);
    put_without(e6, "salaryMax"@, v, key);
    let e7 = put_opt(e6, "salaryMax"@, v);
    assert(job_keys()[8] == "salaryCurrency"@);
    let v = text_value(m.salary_currency);
    put_without(e7, "salaryCurrency"@, v, key);
    let e8 = put_opt(e7, "salaryCurrency"@, v);
    assert(job_keys()[9] == "score"@);
    let v = Some(JsonView::Real(m.score));
    put_without(e8, "score"@, v, key);
    let e9 = put_opt(e8, "score"@, v);
    assert(job_keys()[11] == "scoreSource"@);
    let v = Some(JsonView::Text(score_source_text(m.score_source)));
    put_without(e9, "scoreSource"@, v, key);
    let e10 = put_opt(e9, "scoreSource"@, v);
    assert(job_keys()[10] == "scoreProvisional"@);
    let v = Some(JsonView::Bool(m.score_provisional));
    put_without(e10, "scoreProvisional"@, v, key);
    let e11 = put_opt(e10, "scoreProvisional"@, v);
    assert(other_keys()[0] == "scoreUrl"@);
    let v = text_value(m.score_url);
    put_without(e11, "scoreUrl"@, v, key);
    let e12 = put_opt(e11, "scoreUrl"@, v);
    assert(job_keys()[12] == "postedAt"@);
    let v = signed_int_value(m.posted_at);
    put_without(e12, "postedAt"@, v, key);
    let e13 = put_opt(e12, "postedAt"@, v);
    assert(job_keys()[13] == "foundAt"@);
    let v = Some(JsonView::Int(m.found_at as int));
    put_without(e13, "foundAt"@, v, key);
    let e14 = put_opt(e13, "foundAt"@, v);
    assert(job_keys()[16] == "applied"@);
    let v = Some(JsonView::Bool(m.applied));
    put_without(e14, "applied"@, v, key);
    let e15 = put_opt(e14, "applied"@, v);
    assert(job_keys()[17] == "isAgency"@);
    let v = Some(JsonView::Bool(m.is_agency));
    put_without(e15, "isAgency"@, v, key);
    let e16 = put_opt(e15, "isAgency"@, v);
    assert(job_keys()[14] == "trust"@);
    let v = opt_trust_value(m.trust);
    put_without(e16, "trust"@, v, key);
    let e17 = put_opt(e16, "trust"@, v);
    assert(other_keys()[1] == "sources"@);
    let v = sources_value(m.sources);
    put_without(e17, "sources"@, v, key);
}

/// Nothing that no agent may see stands anywhere in the answer with the strongest jobs.
pub proof fn matches_hold_no_secret<F: Fn(&str, &str, usize) -> String>(
    fence: F,
    rows: Seq<MatchView>,
    values: Seq<JsonView>,
    total: u64,
    i: int,
)
    requires
        rows_shown(fence, rows, values),
        0 <= i < secret_keys().len(),
    ensures
        !has_key_within(matches_value(values, total), secret_keys()[i]),
{
    let key = secret_keys()[i];
    secrets_are_no_other_fields(i);
    assert forall|k: int| 0 <= k < values.len() implies !has_key_within(#[trigger] values[k], key) by {
        assert(row_shown(fence, rows[k], values[k]));
        let shown = choose|shown: ShownView| #[trigger]
            shown_as(fence, match_texts(rows[k]), JOB_CAP, shown) && values[k] == match_value(
                rows[k],
                shown,
            );
        match_holds_no_secret(rows[k], shown, i);
    }
    let e0 = Seq::<EntryView>::empty();
    assert(other_keys()[9] == "matches"@);
    let v = Some(JsonView::Array(values));
    put_without(e0, "matches"@, v, key);
    let e1 = put_opt(e0, "matches"@, v);
    assert(other_keys()[10] == "total"@);
    let v = Some(JsonView::Int(total as int));
    put_without(e1, "total"@, v, key);
    let e2 = put_opt(e1, "total"@, v);
    assert(other_keys()[11] == "returned"@);
    let v = Some(JsonView::Int(values.len() as int));
    put_without(e2, "returned"@, v, key);
}

proof fn schema_holds_no_secret(i: int)
    requires
        0 <= i < secret_keys().len(),
    ensures
        !has_key_within(schema_content(), secret_keys()[i]),
{
    let key = secret_keys()[i];
    secrets_are_no_fields(i);
    secrets_are_no_other_fields(i);
    let rows = resource_table().map_values(|row: RowView| row_value(row));
    assert forall|k: int| 0 <= k < rows.len() implies !has_key_within(#[trigger] rows[k], key) by {
        let row = resource_table()[k];
        let e0 = Seq::<EntryView>::empty();
        assert(automation_keys()[1] == "name"@);
        let v = Some(JsonView::Text(resource_text(row.resource)));
        put_without(e0, "name"@, v, key);
        let e1 = put_opt(e0, "name"@, v);
        assert(job_keys()[5] == "description"@);
        let v = Some(JsonView::Text(row.description));
        put_without(e1, "description"@, v, key);
    }
    let e0 = Seq::<EntryView>::empty();
    assert(other_keys()[15] == "resources"@);
    let v = Some(JsonView::Array(rows));
    put_without(e0, "resources"@, v, key);
}

/// Whatever an agent asks, but for the contact data of the user, nothing that no agent may see
/// stands anywhere in what it gets: no note, no document, no provider and no cluster.
pub proof fn answers_hold_no_secret<
    C: Fn(&str) -> Option<String>,
    N: Fn(&str) -> String,
    F: Fn(&str, &str, usize) -> String,
>(
    payload: JsonView,
    material: Material,
    canonical: C,
    normalize: N,
    fence: F,
    data: JsonView,
    i: int,
)
    requires
        answers(payload, material, canonical, normalize, fence, Ok(data)),
        resource_named(resource_asked(payload)) != Some(Resource::Profile),
        0 <= i < secret_keys().len(),
    ensures
        !has_key_within(data, secret_keys()[i]),
{
    let r = Ok::<JsonView, ErrorView>(data);
    match (resource_named(resource_asked(payload)), material) {
        (Some(Resource::Schema), _) => {
            schema_holds_no_secret(i);
        },
        (Some(Resource::Job), Material::Records(records)) => {
            let jobs = all_jobs(opt_records(records)->0);
            let url = argument(payload, "url"@);
            let id = choose|id: Seq<char>| #[trigger]
                identity_as(canonical, normalize, url, id) && id.len() > 0 && job_result(
                    normalize,
                    fence,
                    jobs,
                    id,
                    r,
                );
            let (at, shown) = choose|at: int, shown: ShownView| #[trigger]
                first_at(normalize, jobs, id, at) && #[trigger] shown_as(
                    fence,
                    plain_texts(jobs[at]),
                    JOB_CAP,
                    shown,
                ) && data == job_value(jobs[at], shown);
            job_holds_no_secret(jobs[at], shown, i);
        },
        (Some(Resource::FoundJobs), Material::Records(records)) => {
            let ap = first_with_id(opt_records(records)->0, argument(payload, "autopilotId"@))->0;
            let offset = cursor_of(payload)->0 as int;
            let jobs = window(ap.found_jobs, offset, found_jobs_limit(payload));
            let candidates = choose|candidates: Seq<JsonView>| #[trigger]
                slices_shown(fence, jobs, candidates) && r == Ok::<JsonView, ErrorView>(
                    page_value(ap, offset, candidates),
                );
            page_holds_no_secret(fence, ap, jobs, offset, candidates, i);
        },
        (Some(Resource::Automations), Material::Records(records)) => {
            automations_hold_no_secret(opt_records(records)->0, i);
        },
        (Some(Resource::BestMatches), Material::BestMatches(rows, total)) => {
            let kept = returned_rows(rows@, best_matches_limit(payload));
            let values = choose|values: Seq<JsonView>| #[trigger]
                rows_shown(fence, kept, values) && r == Ok::<JsonView, ErrorView>(
                    matches_value(values, total),
                );
            matches_hold_no_secret(fence, kept, values, total, i);
        },
        _ => {},
    }
}

} // verus!
