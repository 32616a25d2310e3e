//! What the answers to an agent say: each field read back by its name.
use vstd::prelude::*;

use crate::agent_read::best_matches::{
    match_value, matches_value, source_value, sources_value, MatchView, SourceView,
};
use crate::agent_read::found_jobs::{cursor_value, kept_rows, next_offset, page_value};
use crate::agent_read::projection::{
    automation_value, automations_value, fenced_as, job_value, member_value, members_value,
    opt_run_status_text, opt_trust_value, plain_texts, score_source_text, shown_as, slice_value,
    status_text, target_value, trust_value, ShownView,
};
use crate::autopilot::model::{
    AutopilotStatus, AutopilotView, FoundJobView, MemberView, RunStatus, ScoreSource, TargetView,
    TrustView,
};
use crate::decimal::decimal;
use crate::json::{
    added_field_reads_back, mark, real_value, signed_int_value, text_items, text_value,
    unsigned_int_value, EntryView, Field, JsonView,
};

verus! {

// ── What a field says ───────────────────────────────────────────────────────

/// A field that is a text where there is one, and missing where there is none.
pub open spec fn said_text(o: Option<Seq<char>>) -> Option<JsonView> {
    match o {
        Some(s) => Some(JsonView::Text(s)),
        None => None,
    }
}

/// A field that is a number with a fraction where there is one, and missing where there is none.
pub open spec fn said_number(o: Option<Seq<char>>) -> Option<JsonView> {
    match o {
        Some(s) => Some(JsonView::Real(s)),
        None => None,
    }
}

/// A field that is a whole number where there is one, and missing where there is none.
pub open spec fn said_signed(o: Option<i64>) -> Option<JsonView> {
    match o {
        Some(n) => Some(JsonView::Int(n as int)),
        None => None,
    }
}

/// Whether a field is the list of these texts.
pub open spec fn says_texts(v: Option<JsonView>, list: Seq<Seq<char>>) -> bool {
    match v {
        Some(JsonView::Array(items)) => items.len() == list.len() && forall|i: int|
            0 <= i < list.len() ==> #[trigger] items[i] == JsonView::Text(list[i]),
        _ => false,
    }
}

/// Whether a field is this trust assessment, and missing where there is none.
pub open spec fn says_trust(v: Option<JsonView>, trust: Option<TrustView>) -> bool {
    match (v, trust) {
        (Some(v), Some(t)) => v.get("score"@) == Some(JsonView::Int(t.score as int)) && v.get(
            "level"@,
        ) == Some(JsonView::Text(t.level)) && says_texts(v.get("flags"@), t.flags),
        (None, None) => true,
        _ => false,
    }
}

/// Whether a field lists the postings of a cluster, and is missing where there are none.
pub open spec fn says_members(v: Option<JsonView>, members: Seq<MemberView>) -> bool {
    match v {
        Some(JsonView::Array(items)) => members.len() > 0 && items.len() == members.len() && forall|
            i: int,
        |
            0 <= i < members.len() ==> (#[trigger] items[i]).get("board"@) == said_text(
                members[i].board,
            ) && items[i].get("url"@) == Some(JsonView::Text(members[i].url)),
        Some(_) => false,
        None => members.len() == 0,
    }
}

/// Whether a field lists the automations that found a job, and is missing where there are none.
pub open spec fn says_sources(v: Option<JsonView>, sources: Seq<SourceView>) -> bool {
    match v {
        Some(JsonView::Array(items)) => sources.len() > 0 && items.len() == sources.len() && forall|
            i: int,
        |
            0 <= i < sources.len() ==> (#[trigger] items[i]).get("autopilotId"@) == Some(
                JsonView::Text(sources[i].autopilot_id),
            ) && items[i].get("autopilotName"@) == Some(JsonView::Text(sources[i].autopilot_name))
                && items[i].get("paused"@) == Some(JsonView::Bool(sources[i].paused))
                && items[i].get("foundAt"@) == Some(JsonView::Int(sources[i].found_at as int)),
        Some(_) => false,
        None => sources.len() == 0,
    }
}

proof fn lemma_trust(t: TrustView)
    ensures
        says_trust(Some(trust_value(t)), Some(t)),
{
    let e = Seq::<EntryView>::empty();
    let f = Seq::<Field>::empty();
    reveal_strlit("score");
    reveal_strlit("level");
    reveal_strlit("flags");
    assert(mark("score"@) == 5_115_101);
    assert(mark("level"@) == 5_108_108);
    assert(mark("flags"@) == 5_102_115);
    let (e, f) = added_field_reads_back(e, f, "score"@, Some(JsonView::Int(t.score as int)));
    let (e, f) = added_field_reads_back(e, f, "level"@, Some(JsonView::Text(t.level)));
    let (e, f) = added_field_reads_back(e, f, "flags"@, Some(JsonView::Array(text_items(t.flags))));
    assert(e == trust_value(t)->Object_0);
    assert(f[0].key == "score"@);
    assert(f[1].key == "level"@);
    assert(f[2].key == "flags"@);
}

proof fn lemma_member(m: MemberView)
    ensures
        member_value(m).get("board"@) == said_text(m.board),
        member_value(m).get("url"@) == Some(JsonView::Text(m.url)),
{
    let e = Seq::<EntryView>::empty();
    let f = Seq::<Field>::empty();
    reveal_strlit("board");
    reveal_strlit("url");
    assert(mark("board"@) == 5_098_100);
    assert(mark("url"@) == 3_117_108);
    let (e, f) = added_field_reads_back(e, f, "board"@, text_value(m.board));
    let (e, f) = added_field_reads_back(e, f, "url"@, Some(JsonView::Text(m.url)));
    assert(e == member_value(m)->Object_0);
    assert(f[0].key == "board"@);
    assert(f[1].key == "url"@);
}

proof fn lemma_source(s: SourceView)
    ensures
        source_value(s).get("autopilotId"@) == Some(JsonView::Text(s.autopilot_id)),
        source_value(s).get("autopilotName"@) == Some(JsonView::Text(s.autopilot_name)),
        source_value(s).get("paused"@) == Some(JsonView::Bool(s.paused)),
        source_value(s).get("foundAt"@) == Some(JsonView::Int(s.found_at as int)),
{
    let e = Seq::<EntryView>::empty();
    let f = Seq::<Field>::empty();
    reveal_strlit("autopilotId");
    reveal_strlit("autopilotName");
    reveal_strlit("paused");
    reveal_strlit("foundAt");
    assert(mark("autopilotId"@) == 11_097_100);
    assert(mark("autopilotName"@) == 13_097_101);
    assert(mark("paused"@) == 6_112_100);
    assert(mark("foundAt"@) == 7_102_116);
    let (e, f) = added_field_reads_back(e, f, "autopilotId"@, Some(JsonView::Text(s.autopilot_id)));
    let (e, f) = added_field_reads_back(e, f, "autopilotName"@, Some(JsonView::Text(s.autopilot_name)));
    let (e, f) = added_field_reads_back(e, f, "paused"@, Some(JsonView::Bool(s.paused)));
    let (e, f) = added_field_reads_back(e, f, "foundAt"@, Some(JsonView::Int(s.found_at as int)));
    assert(e == source_value(s)->Object_0);
    assert(f[0].key == "autopilotId"@);
    assert(f[1].key == "autopilotName"@);
    assert(f[2].key == "paused"@);
    assert(f[3].key == "foundAt"@);
}

// ── Laws ────────────────────────────────────────────────────────────────────

/// A job on its own says in each field what the job has there: the texts that someone else wrote
/// as they are shown, and all others as they are.
pub proof fn job_says_what_it_has(job: FoundJobView, shown: ShownView)
    ensures
        ({
            let v = job_value(job, shown);
            &&& v.get("title"@) == Some(JsonView::Text(shown.title))
            &&& v.get("company"@) == Some(JsonView::Text(shown.company))
            &&& v.get("url"@) == Some(JsonView::Text(job.url))
            &&& v.get("location"@) == said_text(shown.location)
            &&& v.get("board"@) == said_text(job.board)
            &&& v.get("description"@) == said_text(shown.description)
            &&& v.get("salaryMin"@) == said_number(job.salary_min)
            &&& v.get("salaryMax"@) == said_number(job.salary_max)
            &&& v.get("salaryCurrency"@) == said_text(job.salary_currency)
            &&& v.get("score"@) == said_number(job.score)
            &&& v.get("scoreProvisional"@) == Some(JsonView::Bool(job.score_provisional))
            &&& v.get("scoreSource"@) == Some(
                JsonView::Text(
                    match job.score_source {
                        ScoreSource::Keyword => "keyword"@,
                        ScoreSource::Combined => "combined"@,
                    },
                ),
            )
            &&& v.get("postedAt"@) == said_signed(job.posted_at)
            &&& v.get("foundAt"@) == Some(JsonView::Int(job.found_at as int))
            &&& v.get("isNew"@) == Some(JsonView::Bool(job.is_new))
            &&& v.get("applied"@) == Some(JsonView::Bool(job.applied))
            &&& v.get("isAgency"@) == Some(JsonView::Bool(job.is_agency))
            &&& says_trust(v.get("trust"@), job.trust)
            &&& says_members(v.get("clusterMembers"@), job.cluster_members)
        }),
{
    let e = Seq::<EntryView>::empty();
    let f = Seq::<Field>::empty();
    reveal_strlit("title");
    reveal_strlit("company");
    reveal_strlit("url");
    reveal_strlit("location");
    reveal_strlit("board");
    reveal_strlit("description");
    reveal_strlit("salaryMin");
    reveal_strlit("salaryMax");
    reveal_strlit("salaryCurrency");
    reveal_strlit("score");
    reveal_strlit("scoreProvisional");
    reveal_strlit("scoreSource");
    reveal_strlit("postedAt");
    reveal_strlit("foundAt");
    reveal_strlit("isNew");
    reveal_strlit("applied");
    reveal_strlit("isAgency");
    reveal_strlit("trust");
    reveal_strlit("clusterMembers");
    assert(mark("title"@) == 5_116_101);
    assert(mark("company"@) == 7_099_121);
    assert(mark("url"@) == 3_117_108);
    assert(mark("location"@) == 8_108_110);
    assert(mark("board"@) == 5_098_100);
    assert(mark("description"@) == 11_100_110);
    assert(mark("salaryMin"@) == 9_115_110);
    assert(mark("salaryMax"@) == 9_115_120);
    assert(mark("salaryCurrency"@) == 14_115_121);
    assert(mark("score"@) == 5_115_101);
    assert(mark("scoreProvisional"@) == 16_115_108);
    assert(mark("scoreSource"@) == 11_115_101);
    assert(mark("postedAt"@) == 8_112_116);
    assert(mark("foundAt"@) == 7_102_116);
    assert(mark("isNew"@) == 5_105_119);
    assert(mark("applied"@) == 7_097_100);
    assert(mark("isAgency"@) == 8_105_121);
    assert(mark("trust"@) == 5_116_116);
    assert(mark("clusterMembers"@) == 14_099_115);
    let (e, f) = added_field_reads_back(e, f, "title"@, Some(JsonView::Text(shown.title)));
    let (e, f) = added_field_reads_back(e, f, "company"@, Some(JsonView::Text(shown.company)));
    let (e, f) = added_field_reads_back(e, f, "url"@, Some(JsonView::Text(job.url)));
    let (e, f) = added_field_reads_back(e, f, "location"@, text_value(shown.location));
    let (e, f) = added_field_reads_back(e, f, "board"@, text_value(job.board));
    let (e, f) = added_field_reads_back(e, f, "description"@, text_value(shown.description));
    let (e, f) = added_field_reads_back(e, f, "salaryMin"@, real_value(job.salary_min));
    let (e, f) = added_field_reads_back(e, f, "salaryMax"@, real_value(job.salary_max));
    let (e, f) = added_field_reads_back(e, f, "salaryCurrency"@, text_value(job.salary_currency));
    let (e, f) = added_field_reads_back(e, f, "score"@, real_value(job.score));
    let (e, f) = added_field_reads_back(e, f, "scoreProvisional"@, Some(JsonView::Bool(job.score_provisional)));
    let (e, f) = added_field_reads_back(e, f, "scoreSource"@, Some(JsonView::Text(score_source_text(job.score_source))));
    let (e, f) = added_field_reads_back(e, f, "postedAt"@, signed_int_value(job.posted_at));
    let (e, f) = added_field_reads_back(e, f, "foundAt"@, Some(JsonView::Int(job.found_at as int)));
    let (e, f) = added_field_reads_back(e, f, "isNew"@, Some(JsonView::Bool(job.is_new)));
    let (e, f) = added_field_reads_back(e, f, "applied"@, Some(JsonView::Bool(job.applied)));
    let (e, f) = added_field_reads_back(e, f, "isAgency"@, Some(JsonView::Bool(job.is_agency)));
    let (e, f) = added_field_reads_back(e, f, "trust"@, opt_trust_value(job.trust));
    let (e, f) = added_field_reads_back(e, f, "clusterMembers"@, members_value(job.cluster_members));
    assert(e == job_value(job, shown)->Object_0);
    assert(f[0].key == "title"@);
    assert(f[1].key == "company"@);
    assert(f[2].key == "url"@);
    assert(f[3].key == "location"@);
    assert(f[4].key == "board"@);
    assert(f[5].key == "description"@);
    assert(f[6].key == "salaryMin"@);
    assert(f[7].key == "salaryMax"@);
    assert(f[8].key == "salaryCurrency"@);
    assert(f[9].key == "score"@);
    assert(f[10].key == "scoreProvisional"@);
    assert(f[11].key == "scoreSource"@);
    assert(f[12].key == "postedAt"@);
    assert(f[13].key == "foundAt"@);
    assert(f[14].key == "isNew"@);
    assert(f[15].key == "applied"@);
    assert(f[16].key == "isAgency"@);
    assert(f[17].key == "trust"@);
    assert(f[18].key == "clusterMembers"@);
    if job.trust is Some {
        lemma_trust(job.trust->0);
    }
    assert forall|i: int| 0 <= i < job.cluster_members.len() implies member_value(
        #[trigger] job.cluster_members[i],
    ).get("board"@) == said_text(job.cluster_members[i].board) && member_value(
        job.cluster_members[i],
    ).get("url"@) == Some(JsonView::Text(job.cluster_members[i].url)) by {
        lemma_member(job.cluster_members[i]);
    }
}

/// A job in a list says in each field what the job has there.
pub proof fn slice_says_what_it_has(job: FoundJobView, shown: ShownView)
    ensures
        ({
            let v = slice_value(job, shown);
            &&& v.get("title"@) == Some(JsonView::Text(shown.title))
            &&& v.get("company"@) == Some(JsonView::Text(shown.company))
            &&& v.get("url"@) == Some(JsonView::Text(job.url))
            &&& v.get("location"@) == said_text(shown.location)
            &&& v.get("board"@) == said_text(job.board)
            &&& v.get("description"@) == said_text(shown.description)
            &&& v.get("salaryMin"@) == said_number(job.salary_min)
            &&& v.get("salaryMax"@) == said_number(job.salary_max)
            &&& v.get("salaryCurrency"@) == said_text(job.salary_currency)
            &&& v.get("score"@) == said_number(job.score)
            &&& v.get("scoreProvisional"@) == Some(JsonView::Bool(job.score_provisional))
            &&& v.get("scoreSource"@) == Some(
                JsonView::Text(
                    match job.score_source {
                        ScoreSource::Keyword => "keyword"@,
                        ScoreSource::Combined => "combined"@,
                    },
                ),
            )
            &&& v.get("postedAt"@) == said_signed(job.posted_at)
            &&& v.get("foundAt"@) == Some(JsonView::Int(job.found_at as int))
            &&& says_trust(v.get("trust"@), job.trust)
        }),
{
    let e = Seq::<EntryView>::empty();
    let f = Seq::<Field>::empty();
    reveal_strlit("title");
    reveal_strlit("company");
    reveal_strlit("url");
    reveal_strlit("location");
    reveal_strlit("board");
    reveal_strlit("description");
    reveal_strlit("salaryMin");
    reveal_strlit("salaryMax");
    reveal_strlit("salaryCurrency");
    reveal_strlit("score");
    reveal_strlit("scoreProvisional");
    reveal_strlit("scoreSource");
    reveal_strlit("postedAt");
    reveal_strlit("foundAt");
    reveal_strlit("trust");
    assert(mark("title"@) == 5_116_101);
    assert(mark("company"@) == 7_099_121);
    assert(mark("url"@) == 3_117_108);
    assert(mark("location"@) == 8_108_110);
    assert(mark("board"@) == 5_098_100);
    assert(mark("description"@) == 11_100_110);
    assert(mark("salaryMin"@) == 9_115_110);
    assert(mark("salaryMax"@) == 9_115_120);
    assert(mark("salaryCurrency"@) == 14_115_121);
    assert(mark("score"@) == 5_115_101);
    assert(mark("scoreProvisional"@) == 16_115_108);
    assert(mark("scoreSource"@) == 11_115_101);
    assert(mark("postedAt"@) == 8_112_116);
    assert(mark("foundAt"@) == 7_102_116);
    assert(mark("trust"@) == 5_116_116);
    let (e, f) = added_field_reads_back(e, f, "title"@, Some(JsonView::Text(shown.title)));
    let (e, f) = added_field_reads_back(e, f, "company"@, Some(JsonView::Text(shown.company)));
    let (e, f) = added_field_reads_back(e, f, "url"@, Some(JsonView::Text(job.url)));
    let (e, f) = added_field_reads_back(e, f, "location"@, text_value(shown.location));
    let (e, f) = added_field_reads_back(e, f, "board"@, text_value(job.board));
    let (e, f) = added_field_reads_back(e, f, "description"@, text_value(shown.description));
    let (e, f) = added_field_reads_back(e, f, "salaryMin"@, real_value(job.salary_min));
    let (e, f) = added_field_reads_back(e, f, "salaryMax"@, real_value(job.salary_max));
    let (e, f) = added_field_reads_back(e, f, "salaryCurrency"@, text_value(job.salary_currency));
    let (e, f) = added_field_reads_back(e, f, "score"@, real_value(job.score));
    let (e, f) = added_field_reads_back(e, f, "scoreProvisional"@, Some(JsonView::Bool(job.score_provisional)));
    let (e, f) = added_field_reads_back(e, f, "scoreSource"@, Some(JsonView::Text(score_source_text(job.score_source))));
    let (e, f) = added_field_reads_back(e, f, "postedAt"@, signed_int_value(job.posted_at));
    let (e, f) = added_field_reads_back(e, f, "foundAt"@, Some(JsonView::Int(job.found_at as int)));
    let (e, f) = added_field_reads_back(e, f, "trust"@, opt_trust_value(job.trust));
    assert(e == slice_value(job, shown)->Object_0);
    assert(f[0].key == "title"@);
    assert(f[1].key == "company"@);
    assert(f[2].key == "url"@);
    assert(f[3].key == "location"@);
    assert(f[4].key == "board"@);
    assert(f[5].key == "description"@);
    assert(f[6].key == "salaryMin"@);
    assert(f[7].key == "salaryMax"@);
    assert(f[8].key == "salaryCurrency"@);
    assert(f[9].key == "score"@);
    assert(f[10].key == "scoreProvisional"@);
    assert(f[11].key == "scoreSource"@);
    assert(f[12].key == "postedAt"@);
    assert(f[13].key == "foundAt"@);
    assert(f[14].key == "trust"@);
    if job.trust is Some {
        lemma_trust(job.trust->0);
    }
}

/// Jobs that an agent cannot tell apart are alike in every field that goes out.
pub proof fn jobs_that_differ_are_told_apart(
    a: FoundJobView,
    shown_a: ShownView,
    b: FoundJobView,
    shown_b: ShownView,
)
    ensures
        job_value(a, shown_a) == job_value(b, shown_b) || slice_value(a, shown_a) == slice_value(
            b,
            shown_b,
        ) ==> {
            &&& shown_a.title == shown_b.title
            &&& shown_a.company == shown_b.company
            &&& shown_a.location == shown_b.location
            &&& shown_a.description == shown_b.description
            &&& a.url == b.url
            &&& a.board == b.board
            &&& a.salary_min == b.salary_min
            &&& a.salary_max == b.salary_max
            &&& a.salary_currency == b.salary_currency
            &&& a.score == b.score
            &&& a.score_provisional == b.score_provisional
            &&& a.score_source == b.score_source
            &&& a.posted_at == b.posted_at
            &&& a.found_at == b.found_at
            &&& a.trust == b.trust
        },
        job_value(a, shown_a) == job_value(b, shown_b) ==> {
            &&& a.is_new == b.is_new
            &&& a.applied == b.applied
            &&& a.is_agency == b.is_agency
            &&& a.cluster_members.len() == b.cluster_members.len()
            &&& forall|i: int|
                0 <= i < a.cluster_members.len() ==> (#[trigger] a.cluster_members[i]).url
                    == b.cluster_members[i].url && a.cluster_members[i].board
                    == b.cluster_members[i].board
        },
{
    job_says_what_it_has(a, shown_a);
    job_says_what_it_has(b, shown_b);
    slice_says_what_it_has(a, shown_a);
    slice_says_what_it_has(b, shown_b);
    reveal_strlit("keyword");
    reveal_strlit("combined");
    assert("keyword"@.len() == 7 && "combined"@.len() == 8);
    if job_value(a, shown_a) == job_value(b, shown_b) {
        lemma_same_trust(job_value(a, shown_a).get("trust"@), a.trust, b.trust);
        let v = job_value(a, shown_a).get("clusterMembers"@);
        if v is Some {
            let items = v->0->Array_0;
            assert forall|i: int| 0 <= i < a.cluster_members.len() implies (
            #[trigger] a.cluster_members[i]).url == b.cluster_members[i].url
                && a.cluster_members[i].board == b.cluster_members[i].board by {
                assert(items[i].get("url"@) == Some(JsonView::Text(b.cluster_members[i].url)));
                assert(items[i].get("board"@) == said_text(b.cluster_members[i].board));
            }
        }
    }
    if slice_value(a, shown_a) == slice_value(b, shown_b) {
        lemma_same_trust(slice_value(a, shown_a).get("trust"@), a.trust, b.trust);
    }
}

proof fn lemma_same_trust(v: Option<JsonView>, a: Option<TrustView>, b: Option<TrustView>)
    requires
        says_trust(v, a),
        says_trust(v, b),
    ensures
        a == b,
{
    if v is Some {
        let items = v->0.get("flags"@)->0->Array_0;
        assert forall|i: int| 0 <= i < a->0.flags.len() implies #[trigger] a->0.flags[i]
            == b->0.flags[i] by {
            assert(items[i] == JsonView::Text(a->0.flags[i]));
            assert(items[i] == JsonView::Text(b->0.flags[i]));
        }
        assert(a->0.flags =~= b->0.flags);
    }
}

/// The texts that someone else wrote are each fenced as a job posting of their own: at most 8000
/// characters of the title, the company and the place, and as many of the description as the
/// answer has room for.
pub proof fn each_text_is_fenced_for_itself<F: Fn(&str, &str, usize) -> String>(
    fence: F,
    job: FoundJobView,
    cap: usize,
    shown: ShownView,
)
    requires
        shown_as(fence, plain_texts(job), cap, shown),
    ensures
        exists|tag: &str, body: &str, r: String|
            tag@ == "job_posting"@ && body@ == job.title && r@ == shown.title
                && #[trigger] fence.ensures((tag, body, 8000usize), r),
        exists|tag: &str, body: &str, r: String|
            tag@ == "job_posting"@ && body@ == job.company && r@ == shown.company
                && #[trigger] fence.ensures((tag, body, 8000usize), r),
        shown.location is Some <==> job.location is Some,
        job.location is Some ==> exists|tag: &str, body: &str, r: String|
            tag@ == "job_posting"@ && body@ == job.location->0 && r@ == shown.location->0
                && #[trigger] fence.ensures((tag, body, 8000usize), r),
        shown.description is Some <==> job.description is Some,
        job.description is Some ==> exists|tag: &str, body: &str, r: String|
            tag@ == "job_posting"@ && body@ == job.description->0 && r@ == shown.description->0
                && #[trigger] fence.ensures((tag, body, cap), r),
{
    assert(fenced_as(fence, job.title, 8000usize, shown.title));
    assert(fenced_as(fence, job.company, 8000usize, shown.company));
    if job.location is Some {
        assert(fenced_as(fence, job.location->0, 8000usize, shown.location->0));
    }
    if job.description is Some {
        assert(fenced_as(fence, job.description->0, cap, shown.description->0));
    }
}

/// What an automation searches is said field by field.
pub proof fn target_says_what_it_has(t: TargetView)
    ensures
        says_texts(target_value(t).get("boards"@), t.boards),
        target_value(t).get("query"@) == Some(JsonView::Text(t.query)),
        target_value(t).get("location"@) == said_text(t.location),
{
    let e = Seq::<EntryView>::empty();
    let f = Seq::<Field>::empty();
    reveal_strlit("boards");
    reveal_strlit("query");
    reveal_strlit("location");
    assert(mark("boards"@) == 6_098_115);
    assert(mark("query"@) == 5_113_121);
    assert(mark("location"@) == 8_108_110);
    let (e, f) = added_field_reads_back(e, f, "boards"@, Some(JsonView::Array(text_items(t.boards))));
    let (e, f) = added_field_reads_back(e, f, "query"@, Some(JsonView::Text(t.query)));
    let (e, f) = added_field_reads_back(e, f, "location"@, text_value(t.location));
    assert(e == target_value(t)->Object_0);
    assert(f[0].key == "boards"@);
    assert(f[1].key == "query"@);
    assert(f[2].key == "location"@);
}

/// An automation says in each field what the record has there, and under `status` and `runStatus`
/// the names of what it has.
pub proof fn automation_says_what_it_has(ap: AutopilotView)
    ensures
        ({
            let v = automation_value(ap);
            &&& v.get("id"@) == Some(JsonView::Text(ap.id))
            &&& v.get("name"@) == Some(JsonView::Text(ap.name))
            &&& v.get("status"@) == Some(
                JsonView::Text(
                    match ap.status {
                        AutopilotStatus::Active => "active"@,
                        AutopilotStatus::Paused => "paused"@,
                        AutopilotStatus::Archived => "archived"@,
                    },
                ),
            )
            &&& v.get("target"@) is Some
            &&& says_texts(v.get("target"@)->0.get("boards"@), ap.target.boards)
            &&& v.get("target"@)->0.get("query"@) == Some(JsonView::Text(ap.target.query))
            &&& v.get("target"@)->0.get("location"@) == said_text(ap.target.location)
            &&& v.get("totalFound"@) == Some(JsonView::Int(ap.total_found as int))
            &&& v.get("totalApplied"@) == Some(JsonView::Int(ap.total_applied as int))
            &&& v.get("runStatus"@) == (match ap.run_status {
                None => None,
                Some(RunStatus::InProgress) => Some(JsonView::Text("inProgress"@)),
                Some(RunStatus::Completed) => Some(JsonView::Text("completed"@)),
                Some(RunStatus::CompletedWithErrors) => Some(
                    JsonView::Text("completedWithErrors"@),
                ),
                Some(RunStatus::Failed) => Some(JsonView::Text("failed"@)),
                Some(RunStatus::Interrupted) => Some(JsonView::Text("interrupted"@)),
            })
            &&& v.get("lastRunAt"@) == (match ap.last_run_at {
                Some(at) => Some(JsonView::Int(at as int)),
                None => None,
            })
            &&& v.get("createdAt"@) == Some(JsonView::Int(ap.created_at as int))
            &&& v.get("updatedAt"@) == Some(JsonView::Int(ap.updated_at as int))
        }),
{
    target_says_what_it_has(ap.target);
    let e = Seq::<EntryView>::empty();
    let f = Seq::<Field>::empty();
    reveal_strlit("id");
    reveal_strlit("name");
    reveal_strlit("status");
    reveal_strlit("target");
    reveal_strlit("totalFound");
    reveal_strlit("totalApplied");
    reveal_strlit("runStatus");
    reveal_strlit("lastRunAt");
    reveal_strlit("createdAt");
    reveal_strlit("updatedAt");
    assert(mark("id"@) == 2_105_100);
    assert(mark("name"@) == 4_110_101);
    assert(mark("status"@) == 6_115_115);
    assert(mark("target"@) == 6_116_116);
    assert(mark("totalFound"@) == 10_116_100);
    assert(mark("totalApplied"@) == 12_116_100);
    assert(mark("runStatus"@) == 9_114_115);
    assert(mark("lastRunAt"@) == 9_108_116);
    assert(mark("createdAt"@) == 9_099_116);
    assert(mark("updatedAt"@) == 9_117_116);
    let (e, f) = added_field_reads_back(e, f, "id"@, Some(JsonView::Text(ap.id)));
    let (e, f) = added_field_reads_back(e, f, "name"@, Some(JsonView::Text(ap.name)));
    let (e, f) = added_field_reads_back(e, f, "status"@, Some(JsonView::Text(status_text(ap.status))));
    let (e, f) = added_field_reads_back(e, f, "target"@, Some(target_value(ap.target)));
    let (e, f) = added_field_reads_back(e, f, "totalFound"@, Some(JsonView::Int(ap.total_found as int)));
    let (e, f) = added_field_reads_back(e, f, "totalApplied"@, Some(JsonView::Int(ap.total_applied as int)));
    let (e, f) = added_field_reads_back(e, f, "runStatus"@, text_value(opt_run_status_text(ap.run_status)));
    let (e, f) = added_field_reads_back(e, f, "lastRunAt"@, unsigned_int_value(ap.last_run_at));
    let (e, f) = added_field_reads_back(e, f, "createdAt"@, Some(JsonView::Int(ap.created_at as int)));
    let (e, f) = added_field_reads_back(e, f, "updatedAt"@, Some(JsonView::Int(ap.updated_at as int)));
    assert(e == automation_value(ap)->Object_0);
    assert(f[0].key == "id"@);
    assert(f[1].key == "name"@);
    assert(f[2].key == "status"@);
    assert(f[3].key == "target"@);
    assert(f[4].key == "totalFound"@);
    assert(f[5].key == "totalApplied"@);
    assert(f[6].key == "runStatus"@);
    assert(f[7].key == "lastRunAt"@);
    assert(f[8].key == "createdAt"@);
    assert(f[9].key == "updatedAt"@);
}

/// The list of automations has one for each record, in the same order.
pub proof fn automations_are_listed_in_order(records: Seq<AutopilotView>)
    ensures
        match automations_value(records).get("automations"@) {
            Some(JsonView::Array(items)) => items.len() == records.len() && forall|i: int|
                0 <= i < records.len() ==> (#[trigger] items[i]).get("id"@) == Some(
                    JsonView::Text(records[i].id),
                ) && items[i] == automation_value(records[i]),
            _ => false,
        },
{
    let e = automations_value(records)->Object_0;
    assert(e.last().key == "automations"@);
    assert forall|i: int| 0 <= i < records.len() implies automation_value(
        #[trigger] records[i],
    ).get("id"@) == Some(JsonView::Text(records[i].id)) by {
        automation_says_what_it_has(records[i]);
    }
}

/// One of the strongest jobs says in each field what the row has there.
pub proof fn match_says_what_it_has(m: MatchView, shown: ShownView)
    ensures
        ({
            let v = match_value(m, shown);
            &&& v.get("title"@) == Some(JsonView::Text(shown.title))
            &&& v.get("company"@) == Some(JsonView::Text(shown.company))
            &&& v.get("url"@) == Some(JsonView::Text(m.url))
            &&& v.get("location"@) == said_text(shown.location)
            &&& v.get("board"@) == said_text(m.board)
            &&& v.get("salaryMin"@) == said_number(m.salary_min)
            &&& v.get("salaryMax"@) == said_number(m.salary_max)
            &&& v.get("salaryCurrency"@) == said_text(m.salary_currency)
            &&& v.get("score"@) == Some(JsonView::Real(m.score))
            &&& v.get("scoreSource"@) == Some(
                JsonView::Text(
                    match m.score_source {
                        ScoreSource::Keyword => "keyword"@,
                        ScoreSource::Combined => "combined"@,
                    },
                ),
            )
            &&& v.get("scoreProvisional"@) == Some(JsonView::Bool(m.score_provisional))
            &&& v.get("scoreUrl"@) == said_text(m.score_url)
            &&& v.get("postedAt"@) == said_signed(m.posted_at)
            &&& v.get("foundAt"@) == Some(JsonView::Int(m.found_at as int))
            &&& v.get("applied"@) == Some(JsonView::Bool(m.applied))
            &&& v.get("isAgency"@) == Some(JsonView::Bool(m.is_agency))
            &&& says_trust(v.get("trust"@), m.trust)
            &&& says_sources(v.get("sources"@), m.sources)
        }),
{
    let e = Seq::<EntryView>::empty();
    let f = Seq::<Field>::empty();
    reveal_strlit("title");
    reveal_strlit("company");
    reveal_strlit("url");
    reveal_strlit("location");
    reveal_strlit("board");
    reveal_strlit("salaryMin");
    reveal_strlit("salaryMax");
    reveal_strlit("salaryCurrency");
    reveal_strlit("score");
    reveal_strlit("scoreSource");
    reveal_strlit("scoreProvisional");
    reveal_strlit("scoreUrl");
    reveal_strlit("postedAt");
    reveal_strlit("foundAt");
    reveal_strlit("applied");
    reveal_strlit("isAgency");
    reveal_strlit("trust");
    reveal_strlit("sources");
    assert(mark("title"@) == 5_116_101);
    assert(mark("company"@) == 7_099_121);
    assert(mark("url"@) == 3_117_108);
    assert(mark("location"@) == 8_108_110);
    assert(mark("board"@) == 5_098_100);
    assert(mark("salaryMin"@) == 9_115_110);
    assert(mark("salaryMax"@) == 9_115_120);
    assert(mark("salaryCurrency"@) == 14_115_121);
    assert(mark("score"@) == 5_115_101);
    assert(mark("scoreSource"@) == 11_115_101);
    assert(mark("scoreProvisional"@) == 16_115_108);
    assert(mark("scoreUrl"@) == 8_115_108);
    assert(mark("postedAt"@) == 8_112_116);
    assert(mark("foundAt"@) == 7_102_116);
    assert(mark("applied"@) == 7_097_100);
    assert(mark("isAgency"@) == 8_105_121);
    assert(mark("trust"@) == 5_116_116);
    assert(mark("sources"@) == 7_115_115);
    let (e, f) = added_field_reads_back(e, f, "title"@, Some(JsonView::Text(shown.title)));
    let (e, f) = added_field_reads_back(e, f, "company"@, Some(JsonView::Text(shown.company)));
    let (e, f) = added_field_reads_back(e, f, "url"@, Some(JsonView::Text(m.url)));
    let (e, f) = added_field_reads_back(e, f, "location"@, text_value(shown.location));
    let (e, f) = added_field_reads_back(e, f, "board"@, text_value(m.board));
    let (e, f) = added_field_reads_back(e, f, "salaryMin"@, real_value(m.salary_min));
    let (e, f) = added_field_reads_back(e, f, "salaryMax"@, real_value(m.salary_max));
    let (e, f) = added_field_reads_back(e, f, "salaryCurrency"@, text_value(m.salary_currency));
    let (e, f) = added_field_reads_back(e, f, "score"@, Some(JsonView::Real(m.score)));
    let (e, f) = added_field_reads_back(e, f, "scoreSource"@, Some(JsonView::Text(score_source_text(m.score_source))));
    let (e, f) = added_field_reads_back(e, f, "scoreProvisional"@, Some(JsonView::Bool(m.score_provisional)));
    let (e, f) = added_field_reads_back(e, f, "scoreUrl"@, text_value(m.score_url));
    let (e, f) = added_field_reads_back(e, f, "postedAt"@, signed_int_value(m.posted_at));
    let (e, f) = added_field_reads_back(e, f, "foundAt"@, Some(JsonView::Int(m.found_at as int)));
    let (e, f) = added_field_reads_back(e, f, "applied"@, Some(JsonView::Bool(m.applied)));
    let (e, f) = added_field_reads_back(e, f, "isAgency"@, Some(JsonView::Bool(m.is_agency)));
    let (e, f) = added_field_reads_back(e, f, "trust"@, opt_trust_value(m.trust));
    let (e, f) = added_field_reads_back(e, f, "sources"@, sources_value(m.sources));
    assert(e == match_value(m, shown)->Object_0);
    assert(f[0].key == "title"@);
    assert(f[1].key == "company"@);
    assert(f[2].key == "url"@);
    assert(f[3].key == "location"@);
    assert(f[4].key == "board"@);
    assert(f[5].key == "salaryMin"@);
    assert(f[6].key == "salaryMax"@);
    assert(f[7].key == "salaryCurrency"@);
    assert(f[8].key == "score"@);
    assert(f[9].key == "scoreSource"@);
    assert(f[10].key == "scoreProvisional"@);
    assert(f[11].key == "scoreUrl"@);
    assert(f[12].key == "postedAt"@);
    assert(f[13].key == "foundAt"@);
    assert(f[14].key == "applied"@);
    assert(f[15].key == "isAgency"@);
    assert(f[16].key == "trust"@);
    assert(f[17].key == "sources"@);
    if m.trust is Some {
        lemma_trust(m.trust->0);
    }
    assert forall|i: int| 0 <= i < m.sources.len() implies {
        let v = source_value(#[trigger] m.sources[i]);
        &&& v.get("autopilotId"@) == Some(JsonView::Text(m.sources[i].autopilot_id))
        &&& v.get("autopilotName"@) == Some(JsonView::Text(m.sources[i].autopilot_name))
        &&& v.get("paused"@) == Some(JsonView::Bool(m.sources[i].paused))
        &&& v.get("foundAt"@) == Some(JsonView::Int(m.sources[i].found_at as int))
    } by {
        lemma_source(m.sources[i]);
    }
}

/// The answer with the strongest jobs holds them in their order, and says how many there are in
/// all and how many of them it holds.
pub proof fn matches_say_what_they_are(values: Seq<JsonView>, total: u64)
    ensures
        matches_value(values, total).get("matches"@) == Some(JsonView::Array(values)),
        matches_value(values, total).get("total"@) == Some(JsonView::Int(total as int)),
        matches_value(values, total).get("returned"@) == Some(
            JsonView::Int(values.len() as int),
        ),
{
    let e = Seq::<EntryView>::empty();
    let f = Seq::<Field>::empty();
    reveal_strlit("matches");
    reveal_strlit("total");
    reveal_strlit("returned");
    assert(mark("matches"@) == 7_109_115);
    assert(mark("total"@) == 5_116_108);
    assert(mark("returned"@) == 8_114_100);
    let (e, f) = added_field_reads_back(e, f, "matches"@, Some(JsonView::Array(values)));
    let (e, f) = added_field_reads_back(e, f, "total"@, Some(JsonView::Int(total as int)));
    let (e, f) = added_field_reads_back(e, f, "returned"@, Some(JsonView::Int(values.len() as int)));
    assert(e == matches_value(values, total)->Object_0);
    assert(f[0].key == "matches"@);
    assert(f[1].key == "total"@);
    assert(f[2].key == "returned"@);
}

/// A page says whose jobs it holds and how many there are in all. It holds the first of the rows
/// that were asked for, and its cursor is the place after the last row on it: a text where a job
/// is left there, null where none is.
pub proof fn page_says_what_it_is(ap: AutopilotView, offset: int, candidates: Seq<JsonView>)
    requires
        0 <= offset,
        kept_rows(candidates) <= candidates.len(),
    ensures
        ({
            let v = page_value(ap, offset, candidates);
            let total = ap.found_jobs.len() as int;
            &&& v.get("autopilotId"@) == Some(JsonView::Text(ap.id))
            &&& v.get("autopilotName"@) == Some(JsonView::Text(ap.name))
            &&& v.get("total"@) == Some(JsonView::Int(total))
            &&& match v.get("jobs"@) {
                Some(JsonView::Array(rows)) => {
                    &&& rows.len() <= candidates.len()
                    &&& forall|i: int| 0 <= i < rows.len() ==> #[trigger] rows[i] == candidates[i]
                    &&& offset + rows.len() < total ==> v.get("nextCursor"@) == Some(
                        JsonView::Text(decimal((offset + rows.len()) as nat)),
                    )
                    &&& offset + rows.len() >= total ==> v.get("nextCursor"@) == Some(
                        JsonView::Null,
                    )
                },
                _ => false,
            }
        }),
{
    let kept = kept_rows(candidates) as int;
    let total = ap.found_jobs.len() as int;
    let e = Seq::<EntryView>::empty();
    let f = Seq::<Field>::empty();
    reveal_strlit("jobs");
    reveal_strlit("nextCursor");
    reveal_strlit("total");
    reveal_strlit("autopilotId");
    reveal_strlit("autopilotName");
    assert(mark("jobs"@) == 4_106_115);
    assert(mark("nextCursor"@) == 10_110_114);
    assert(mark("total"@) == 5_116_108);
    assert(mark("autopilotId"@) == 11_097_100);
    assert(mark("autopilotName"@) == 13_097_101);
    let (e, f) = added_field_reads_back(e, f, "jobs"@, Some(JsonView::Array(candidates.take(kept))));
    let (e, f) = added_field_reads_back(e, f, "nextCursor"@, Some(cursor_value(next_offset(offset, kept, total))));
    let (e, f) = added_field_reads_back(e, f, "total"@, Some(JsonView::Int(total)));
    let (e, f) = added_field_reads_back(e, f, "autopilotId"@, Some(JsonView::Text(ap.id)));
    let (e, f) = added_field_reads_back(e, f, "autopilotName"@, Some(JsonView::Text(ap.name)));
    assert(e == page_value(ap, offset, candidates)->Object_0);
    assert(f[0].key == "jobs"@);
    assert(f[1].key == "nextCursor"@);
    assert(f[2].key == "total"@);
    assert(f[3].key == "autopilotId"@);
    assert(f[4].key == "autopilotName"@);
}

/// Automations that an agent cannot tell apart are alike in every field that goes out.
pub proof fn automations_that_differ_are_told_apart(a: AutopilotView, b: AutopilotView)
    requires
        automation_value(a) == automation_value(b),
    ensures
        a.id == b.id,
        a.name == b.name,
        a.status == b.status,
        a.target.boards == b.target.boards,
        a.target.query == b.target.query,
        a.target.location == b.target.location,
        a.total_found == b.total_found,
        a.total_applied == b.total_applied,
        a.run_status == b.run_status,
        a.last_run_at == b.last_run_at,
        a.created_at == b.created_at,
        a.updated_at == b.updated_at,
{
    automation_says_what_it_has(a);
    automation_says_what_it_has(b);
    reveal_strlit("active");
    reveal_strlit("paused");
    reveal_strlit("archived");
    assert("active"@[0] == 'a' && "active"@.len() == 6);
    assert("paused"@[0] == 'p' && "paused"@.len() == 6);
    assert("archived"@.len() == 8);
    reveal_strlit("inProgress");
    reveal_strlit("completed");
    reveal_strlit("completedWithErrors");
    reveal_strlit("failed");
    reveal_strlit("interrupted");
    assert("inProgress"@.len() == 10 && "completed"@.len() == 9 && "completedWithErrors"@.len()
        == 19 && "failed"@.len() == 6 && "interrupted"@.len() == 11);
    let v = automation_value(a).get("target"@)->0.get("boards"@);
    let items = v->0->Array_0;
    assert forall|i: int| 0 <= i < a.target.boards.len() implies #[trigger] a.target.boards[i]
        == b.target.boards[i] by {
        assert(items[i] == JsonView::Text(a.target.boards[i]));
        assert(items[i] == JsonView::Text(b.target.boards[i]));
    }
    assert(a.target.boards =~= b.target.boards);
}

/// Rows of the strongest jobs that an agent cannot tell apart are alike in every field that goes
/// out.
pub proof fn matches_that_differ_are_told_apart(
    a: MatchView,
    shown_a: ShownView,
    b: MatchView,
    shown_b: ShownView,
)
    requires
        match_value(a, shown_a) == match_value(b, shown_b),
    ensures
        shown_a.title == shown_b.title,
        shown_a.company == shown_b.company,
        shown_a.location == shown_b.location,
        a.url == b.url,
        a.board == b.board,
        a.salary_min == b.salary_min,
        a.salary_max == b.salary_max,
        a.salary_currency == b.salary_currency,
        a.score == b.score,
        a.score_source == b.score_source,
        a.score_provisional == b.score_provisional,
        a.score_url == b.score_url,
        a.posted_at == b.posted_at,
        a.found_at == b.found_at,
        a.applied == b.applied,
        a.is_agency == b.is_agency,
        a.trust == b.trust,
        a.sources.len() == b.sources.len(),
{
    match_says_what_it_has(a, shown_a);
    match_says_what_it_has(b, shown_b);
    reveal_strlit("keyword");
    reveal_strlit("combined");
    assert("keyword"@.len() == 7 && "combined"@.len() == 8);
    lemma_same_trust(match_value(a, shown_a).get("trust"@), a.trust, b.trust);
}

} // verus!
