//! The jobs and the automations as an agent sees them.
//!
//! A projection names each field that it lets through. What it does not name cannot get out, and
//! what was scraped goes out only inside a fence that marks it as data.
use vstd::prelude::*;

use crate::autopilot::model::{
    autopilots_view, members_view, Autopilot, AutopilotStatus, AutopilotView, ClusterMemberRef,
    FoundJob, FoundJobView, MemberView, RunStatus, ScoreSource, TargetView, TrustAssessment,
    TrustView,
};
use crate::json::{
    array_of, items, put, put_opt, real_value, signed_int_value, text_array, text_items, text_value,
    unsigned_int_value, EntryView, Json, JsonView, ObjectBuilder,
};
use crate::run::notes::JOB_CAP;
use crate::text::{clone_opt_text, opt_text, texts};

verus! {

// ── Wire names ──────────────────────────────────────────────────────────────

/// The wire name of what computed a score.
pub open spec fn score_source_text(s: ScoreSource) -> Seq<char> {
    match s {
        ScoreSource::Keyword => "keyword"@,
        ScoreSource::Combined => "combined"@,
    }
}

/// The wire name of what computed a score.
pub fn score_source_name(s: ScoreSource) -> (r: &'static str)
    ensures
        r@ == score_source_text(s),
{
    match s {
        ScoreSource::Keyword => "keyword",
        ScoreSource::Combined => "combined",
    }
}

/// The wire name of a status.
pub open spec fn status_text(s: AutopilotStatus) -> Seq<char> {
    match s {
        AutopilotStatus::Active => "active"@,
        AutopilotStatus::Paused => "paused"@,
        AutopilotStatus::Archived => "archived"@,
    }
}

/// The wire name of a status.
pub fn status_name(s: AutopilotStatus) -> (r: &'static str)
    ensures
        r@ == status_text(s),
{
    match s {
        AutopilotStatus::Active => "active",
        AutopilotStatus::Paused => "paused",
        AutopilotStatus::Archived => "archived",
    }
}

/// The wire name of how a run went.
pub open spec fn run_status_text(s: RunStatus) -> Seq<char> {
    match s {
        RunStatus::InProgress => "inProgress"@,
        RunStatus::Completed => "completed"@,
        RunStatus::CompletedWithErrors => "completedWithErrors"@,
        RunStatus::Failed => "failed"@,
        RunStatus::Interrupted => "interrupted"@,
    }
}

/// The wire name of how a run went.
pub fn run_status_name(s: RunStatus) -> (r: &'static str)
    ensures
        r@ == run_status_text(s),
{
    match s {
        RunStatus::InProgress => "inProgress",
        RunStatus::Completed => "completed",
        RunStatus::CompletedWithErrors => "completedWithErrors",
        RunStatus::Failed => "failed",
        RunStatus::Interrupted => "interrupted",
    }
}

// ── Fenced texts ────────────────────────────────────────────────────────────

/// The texts of a posting that someone else wrote.
#[derive(Debug, PartialEq, Eq)]
pub struct Shown {
    pub title: String,
    pub company: String,
    pub location: Option<String>,
    pub description: Option<String>,
}

/// [`Shown`] as values.
#[verifier::ext_equal]
pub struct ShownView {
    pub title: Seq<char>,
    pub company: Seq<char>,
    pub location: Option<Seq<char>>,
    pub description: Option<Seq<char>>,
}

impl View for Shown {
    type V = ShownView;

    open spec fn view(&self) -> ShownView {
        ShownView {
            title: self.title@,
            company: self.company@,
            location: opt_text(self.location),
            description: opt_text(self.description),
        }
    }
}

/// The texts of a job as they stand.
pub open spec fn plain_texts(job: FoundJobView) -> ShownView {
    ShownView {
        title: job.title,
        company: job.company,
        location: job.location,
        description: job.description,
    }
}

/// Whether `out` is what `fence` makes of a text, given as a job posting with at most `cap`
/// characters.
pub open spec fn fenced_as<F: Fn(&str, &str, usize) -> String>(
    fence: F,
    text: Seq<char>,
    cap: usize,
    out: Seq<char>,
) -> bool {
    exists|tag: &str, body: &str, r: String|
        tag@ == "job_posting"@ && body@ == text && r@ == out && #[trigger] fence.ensures(
            (tag, body, cap),
            r,
        )
}

/// The same of a text that may be missing.
pub open spec fn opt_fenced_as<F: Fn(&str, &str, usize) -> String>(
    fence: F,
    text: Option<Seq<char>>,
    cap: usize,
    out: Option<Seq<char>>,
) -> bool {
    match (text, out) {
        (Some(s), Some(o)) => fenced_as(fence, s, cap, o),
        (None, None) => true,
        _ => false,
    }
}

/// Whether `out` holds the fenced texts of `plain`, the description with its own cap.
pub open spec fn shown_as<F: Fn(&str, &str, usize) -> String>(
    fence: F,
    plain: ShownView,
    description_cap: usize,
    out: ShownView,
) -> bool {
    &&& fenced_as(fence, plain.title, JOB_CAP, out.title)
    &&& fenced_as(fence, plain.company, JOB_CAP, out.company)
    &&& opt_fenced_as(fence, plain.location, JOB_CAP, out.location)
    &&& opt_fenced_as(fence, plain.description, description_cap, out.description)
}

fn fence_text<F: Fn(&str, &str, usize) -> String>(fence: &F, text: &str, cap: usize) -> (r: String)
    requires
        forall|tag: &str, body: &str, cap: usize| fence.requires((tag, body, cap)),
    ensures
        fenced_as(*fence, text@, cap, r@),
{
    let tag: &str = "job_posting";
    let r: String = fence(tag, text, cap);
    assert(fence.ensures((tag, text, cap), r));
    r
}

fn fence_opt_text<F: Fn(&str, &str, usize) -> String>(
    fence: &F,
    text: &Option<String>,
    cap: usize,
) -> (r: Option<String>)
    requires
        forall|tag: &str, body: &str, cap: usize| fence.requires((tag, body, cap)),
    ensures
        opt_fenced_as(*fence, opt_text(*text), cap, opt_text(r)),
{
    match text {
        Some(s) => Some(fence_text(fence, s.as_str(), cap)),
        None => None,
    }
}

impl Shown {
    /// The texts of a job as they stand.
    pub fn plain(job: &FoundJob) -> (r: Self)
        ensures
            r@ == plain_texts(job@),
    {
        Shown {
            title: job.title.clone(),
            company: job.company.clone(),
            location: clone_opt_text(&job.location),
            description: clone_opt_text(&job.description),
        }
    }

    /// The fenced texts, the description with its own cap.
    pub fn fenced<F: Fn(&str, &str, usize) -> String>(
        &self,
        description_cap: usize,
        fence: &F,
    ) -> (r: Self)
        requires
            forall|tag: &str, body: &str, cap: usize| fence.requires((tag, body, cap)),
        ensures
            shown_as(*fence, self@, description_cap, r@),
    {
        Shown {
            title: fence_text(fence, self.title.as_str(), JOB_CAP),
            company: fence_text(fence, self.company.as_str(), JOB_CAP),
            location: fence_opt_text(fence, &self.location, JOB_CAP),
            description: fence_opt_text(fence, &self.description, description_cap),
        }
    }
}

// ── Jobs ────────────────────────────────────────────────────────────────────

/// A trust assessment as an agent sees it.
pub open spec fn trust_value(t: TrustView) -> JsonView {
    let e = put(Seq::empty(), "score"@, JsonView::Int(t.score as int));
    let e = put(e, "level"@, JsonView::Text(t.level));
    JsonView::Object(put(e, "flags"@, JsonView::Array(text_items(t.flags))))
}

/// A trust assessment as an agent sees it, where there is one.
pub open spec fn opt_trust_value(t: Option<TrustView>) -> Option<JsonView> {
    match t {
        Some(t) => Some(trust_value(t)),
        None => None,
    }
}

/// A trust assessment as an agent sees it.
pub fn trust_json(t: &TrustAssessment) -> (r: Json)
    ensures
        r@ == trust_value(t@),
{
    ObjectBuilder::new().with_u64("score", t.score as u64).with_text(
        "level",
        t.level.as_str(),
    ).with("flags", text_array(&t.flags)).build()
}

/// Adds a trust assessment, where there is one.
pub fn with_trust(b: ObjectBuilder, trust: &Option<TrustAssessment>) -> (r: ObjectBuilder)
    ensures
        r@ == put_opt(
            b@,
            "trust"@,
            opt_trust_value(
                match *trust {
                    Some(t) => Some(t@),
                    None => None,
                },
            ),
        ),
{
    match trust {
        Some(t) => b.with("trust", trust_json(t)),
        None => b,
    }
}

/// A posting of a cluster as an agent sees it: without its key.
pub open spec fn member_value(m: MemberView) -> JsonView {
    JsonView::Object(
        put(put_opt(Seq::empty(), "board"@, text_value(m.board)), "url"@, JsonView::Text(m.url)),
    )
}

/// The postings of a cluster as an agent sees them, where there are any.
pub open spec fn members_value(v: Seq<MemberView>) -> Option<JsonView> {
    if v.len() == 0 {
        None
    } else {
        Some(JsonView::Array(v.map_values(|m: MemberView| member_value(m))))
    }
}

fn member_json(m: &ClusterMemberRef) -> (r: Json)
    ensures
        r@ == member_value(m@),
{
    ObjectBuilder::new().with_opt_text("board", &m.board).with_text("url", m.url.as_str()).build()
}

fn with_members(b: ObjectBuilder, v: &Vec<ClusterMemberRef>) -> (r: ObjectBuilder)
    ensures
        r@ == put_opt(b@, "clusterMembers"@, members_value(members_view(v@))),
{
    if v.len() == 0 {
        return b;
    }
    let mut out: Vec<Json> = Vec::new();
    let mut i: usize = 0;
    while i < v.len()
        invariant
            i <= v@.len(),
            out@.len() == i,
            forall|k: int| 0 <= k < i ==> (#[trigger] out@[k])@ == member_value(v@[k]@),
        decreases v@.len() - i,
    {
        out.push(member_json(&v[i]));
        i = i + 1;
    }
    assert(items(out@) =~= members_view(v@).map_values(|m: MemberView| member_value(m)));
    b.with("clusterMembers", array_of(out))
}

/// The entries that a job has wherever an agent sees it, with the texts of `shown`.
pub open spec fn posting_entries(job: FoundJobView, shown: ShownView) -> Seq<EntryView> {
    let e = put(Seq::empty(), "title"@, JsonView::Text(shown.title));
    let e = put(e, "company"@, JsonView::Text(shown.company));
    let e = put(e, "url"@, JsonView::Text(job.url));
    let e = put_opt(e, "location"@, text_value(shown.location));
    let e = put_opt(e, "board"@, text_value(job.board));
    let e = put_opt(e, "description"@, text_value(shown.description));
    let e = put_opt(e, "salaryMin"@, real_value(job.salary_min));
    let e = put_opt(e, "salaryMax"@, real_value(job.salary_max));
    let e = put_opt(e, "salaryCurrency"@, text_value(job.salary_currency));
    let e = put_opt(e, "score"@, real_value(job.score));
    let e = put(e, "scoreProvisional"@, JsonView::Bool(job.score_provisional));
    let e = put(e, "scoreSource"@, JsonView::Text(score_source_text(job.score_source)));
    let e = put_opt(e, "postedAt"@, signed_int_value(job.posted_at));
    put(e, "foundAt"@, JsonView::Int(job.found_at as int))
}

/// A job as an agent sees it on its own.
pub open spec fn job_value(job: FoundJobView, shown: ShownView) -> JsonView {
    let e = posting_entries(job, shown);
    let e = put(e, "isNew"@, JsonView::Bool(job.is_new));
    let e = put(e, "applied"@, JsonView::Bool(job.applied));
    let e = put(e, "isAgency"@, JsonView::Bool(job.is_agency));
    let e = put_opt(e, "trust"@, opt_trust_value(job.trust));
    JsonView::Object(put_opt(e, "clusterMembers"@, members_value(job.cluster_members)))
}

/// A job as an agent sees it in a list.
pub open spec fn slice_value(job: FoundJobView, shown: ShownView) -> JsonView {
    JsonView::Object(put_opt(posting_entries(job, shown), "trust"@, opt_trust_value(job.trust)))
}

fn posting_builder(job: &FoundJob, shown: &Shown) -> (r: ObjectBuilder)
    ensures
        r@ == posting_entries(job@, shown@),
{
    let b: ObjectBuilder = ObjectBuilder::new().with_text("title", shown.title.as_str()).with_text(
        "company",
        shown.company.as_str(),
    ).with_text("url", job.url.as_str());
    let b: ObjectBuilder = b.with_opt_text("location", &shown.location).with_opt_text(
        "board",
        &job.board,
    ).with_opt_text("description", &shown.description);
    let b: ObjectBuilder = b.with_opt_real("salaryMin", &job.salary_min).with_opt_real(
        "salaryMax",
        &job.salary_max,
    ).with_opt_text("salaryCurrency", &job.salary_currency).with_opt_real("score", &job.score);
    let b: ObjectBuilder = b.with_bool("scoreProvisional", job.score_provisional).with_text(
        "scoreSource",
        score_source_name(job.score_source),
    );
    b.with_opt_i64("postedAt", job.posted_at).with_u64("foundAt", job.found_at)
}

/// A job as an agent sees it on its own, with the texts of `shown`.
pub fn job_json(job: &FoundJob, shown: &Shown) -> (r: Json)
    ensures
        r@ == job_value(job@, shown@),
{
    let b: ObjectBuilder = posting_builder(job, shown).with_bool("isNew", job.is_new).with_bool(
        "applied",
        job.applied,
    ).with_bool("isAgency", job.is_agency);
    with_members(with_trust(b, &job.trust), &job.cluster_members).build()
}

/// A job as an agent sees it in a list, with the texts of `shown`.
pub fn slice_json(job: &FoundJob, shown: &Shown) -> (r: Json)
    ensures
        r@ == slice_value(job@, shown@),
{
    with_trust(posting_builder(job, shown), &job.trust).build()
}

// ── Automations ─────────────────────────────────────────────────────────────

/// What an automation searches, as an agent sees it.
pub open spec fn target_value(t: TargetView) -> JsonView {
    let e = put(Seq::empty(), "boards"@, JsonView::Array(text_items(t.boards)));
    let e = put(e, "query"@, JsonView::Text(t.query));
    JsonView::Object(put_opt(e, "location"@, text_value(t.location)))
}

/// The wire name of how the latest run went, where there was one.
pub open spec fn opt_run_status_text(s: Option<RunStatus>) -> Option<Seq<char>> {
    match s {
        Some(s) => Some(run_status_text(s)),
        None => None,
    }
}

/// An automation as an agent sees it.
pub open spec fn automation_value(ap: AutopilotView) -> JsonView {
    let e = put(Seq::empty(), "id"@, JsonView::Text(ap.id));
    let e = put(e, "name"@, JsonView::Text(ap.name));
    let e = put(e, "status"@, JsonView::Text(status_text(ap.status)));
    let e = put(e, "target"@, target_value(ap.target));
    let e = put(e, "totalFound"@, JsonView::Int(ap.total_found as int));
    let e = put(e, "totalApplied"@, JsonView::Int(ap.total_applied as int));
    let e = put_opt(e, "runStatus"@, text_value(opt_run_status_text(ap.run_status)));
    let e = put_opt(e, "lastRunAt"@, unsigned_int_value(ap.last_run_at));
    let e = put(e, "createdAt"@, JsonView::Int(ap.created_at as int));
    JsonView::Object(put(e, "updatedAt"@, JsonView::Int(ap.updated_at as int)))
}

/// An automation as an agent sees it.
pub fn project_automation(ap: &Autopilot) -> (r: Json)
    ensures
        r@ == automation_value(ap@),
{
    let target: Json = ObjectBuilder::new().with("boards", text_array(&ap.target.boards)).with_text(
        "query",
        ap.target.query.as_str(),
    ).with_opt_text("location", &ap.target.location).build();
    let b: ObjectBuilder = ObjectBuilder::new().with_text("id", ap.id.as_str()).with_text(
        "name",
        ap.name.as_str(),
    ).with_text("status", status_name(ap.status)).with("target", target);
    let b: ObjectBuilder = b.with_u64("totalFound", ap.total_found as u64).with_u64(
        "totalApplied",
        ap.total_applied as u64,
    );
    let b: ObjectBuilder = match ap.run_status {
        Some(s) => b.with_text("runStatus", run_status_name(s)),
        None => b,
    };
    b.with_opt_u64("lastRunAt", ap.last_run_at).with_u64("createdAt", ap.created_at).with_u64(
        "updatedAt",
        ap.updated_at,
    ).build()
}

/// All automations as an agent sees them.
pub open spec fn automations_value(records: Seq<AutopilotView>) -> JsonView {
    JsonView::Object(
        put(
            Seq::empty(),
            "automations"@,
            JsonView::Array(records.map_values(|ap: AutopilotView| automation_value(ap))),
        ),
    )
}

/// All automations as an agent sees them.
pub fn resolve_automations(records: &[Autopilot]) -> (r: Json)
    ensures
        r@ == automations_value(autopilots_view(records@)),
{
    let mut out: Vec<Json> = Vec::new();
    let mut i: usize = 0;
    while i < records.len()
        invariant
            i <= records@.len(),
            out@.len() == i,
            forall|k: int| 0 <= k < i ==> (#[trigger] out@[k])@ == automation_value(records@[k]@),
        decreases records@.len() - i,
    {
        out.push(project_automation(&records[i]));
        i = i + 1;
    }
    assert(items(out@) =~= autopilots_view(records@).map_values(
        |ap: AutopilotView| automation_value(ap),
    ));
    ObjectBuilder::new().with("automations", array_of(out)).build()
}

// ── Laws ────────────────────────────────────────────────────────────────────

/// What a job says to no agent: the note on it and its cluster. Whatever stands there, an agent
/// sees the same.
pub proof fn job_hides_notes_and_clusters(
    job: FoundJobView,
    shown: ShownView,
    notes: Option<Seq<char>>,
    cluster_id: Option<Seq<char>>,
    canonical: bool,
)
    ensures
        ({
            let other = FoundJobView {
                assistant_notes: notes,
                cluster_id: cluster_id,
                cluster_canonical: canonical,
                ..job
            };
            &&& job_value(other, shown) == job_value(job, shown)
            &&& slice_value(other, shown) == slice_value(job, shown)
            &&& plain_texts(other) == plain_texts(job)
        }),
{
}

/// The texts that someone else wrote go out only as they are shown: whatever they are, a job with
/// the same shown texts is the same to an agent.
pub proof fn texts_go_out_only_as_shown(job: FoundJobView, texts: ShownView, shown: ShownView)
    ensures
        ({
            let other = FoundJobView {
                title: texts.title,
                company: texts.company,
                location: texts.location,
                description: texts.description,
                ..job
            };
            &&& job_value(other, shown) == job_value(job, shown)
            &&& slice_value(other, shown) == slice_value(job, shown)
        }),
{
}

/// The key of a posting of a cluster is never seen by an agent.
pub proof fn member_hides_its_key(m: MemberView, key: Seq<char>)
    ensures
        member_value(MemberView { key: key, ..m }) == member_value(m),
{
}

/// What an automation says to no agent: the résumé, the cover letter, whom it asks for notes, and
/// the jobs. Whatever stands there, an agent sees the same.
pub proof fn automation_hides_documents(ap: AutopilotView, other: AutopilotView)
    requires
        other.id == ap.id,
        other.name == ap.name,
        other.status == ap.status,
        other.target.boards == ap.target.boards,
        other.target.query == ap.target.query,
        other.target.location == ap.target.location,
        other.total_found == ap.total_found,
        other.total_applied == ap.total_applied,
        other.run_status == ap.run_status,
        other.last_run_at == ap.last_run_at,
        other.created_at == ap.created_at,
        other.updated_at == ap.updated_at,
    ensures
        automation_value(other) == automation_value(ap),
{
}

/// The keys that an object may have.
pub open spec fn keys_within(e: Seq<EntryView>, allowed: Seq<Seq<char>>) -> bool {
    forall|i: int| 0 <= i < e.len() ==> allowed.contains(#[trigger] e[i].key)
}

/// An entry with an allowed key keeps the keys allowed.
pub proof fn put_keeps_within(
    e: Seq<EntryView>,
    key: Seq<char>,
    value: Option<JsonView>,
    allowed: Seq<Seq<char>>,
    at: int,
)
    requires
        keys_within(e, allowed),
        0 <= at < allowed.len(),
        allowed[at] == key,
    ensures
        keys_within(put_opt(e, key, value), allowed),
{
    let f = put_opt(e, key, value);
    assert forall|i: int| 0 <= i < f.len() implies allowed.contains(#[trigger] f[i].key) by {
        if i < e.len() {
            assert(f[i] == e[i]);
        } else {
            assert(f[i].key == allowed[at]);
        }
    }
}

/// The names of the fields of a job in a list.
pub open spec fn slice_keys() -> Seq<Seq<char>> {
    seq![
        "title"@,
        "company"@,
        "url"@,
        "location"@,
        "board"@,
        "description"@,
        "salaryMin"@,
        "salaryMax"@,
        "salaryCurrency"@,
        "score"@,
        "scoreProvisional"@,
        "scoreSource"@,
        "postedAt"@,
        "foundAt"@,
        "trust"@,
    ]
}

/// The names of the fields of a job on its own.
pub open spec fn job_keys() -> Seq<Seq<char>> {
    slice_keys() + seq!["isNew"@, "applied"@, "isAgency"@, "clusterMembers"@]
}

proof fn posting_keys_within(job: FoundJobView, shown: ShownView, allowed: Seq<Seq<char>>)
    requires
        slice_keys().len() <= allowed.len(),
        forall|i: int| 0 <= i < slice_keys().len() ==> allowed[i] == #[trigger] slice_keys()[i],
    ensures
        keys_within(posting_entries(job, shown), allowed),
{
    assert forall|i: int| 0 <= i < 15 implies allowed[i] == #[trigger] slice_keys()[i] by {}
    let e0 = Seq::<EntryView>::empty();
    assert(slice_keys()[0] == "title"@ && slice_keys()[1] == "company"@ && slice_keys()[2]
        == "url"@ && slice_keys()[3] == "location"@ && slice_keys()[4] == "board"@
        && slice_keys()[5] == "description"@ && slice_keys()[6] == "salaryMin"@ && slice_keys()[7]
        == "salaryMax"@ && slice_keys()[8] == "salaryCurrency"@ && slice_keys()[9] == "score"@
        && slice_keys()[10] == "scoreProvisional"@ && slice_keys()[11] == "scoreSource"@
        && slice_keys()[12] == "postedAt"@ && slice_keys()[13] == "foundAt"@);
    let v = Some(JsonView::Text(shown.title));
    put_keeps_within(e0, "title"@, v, allowed, 0);
    let e1 = put_opt(e0, "title"@, v);
    let v = Some(JsonView::Text(shown.company));
    put_keeps_within(e1, "company"@, v, allowed, 1);
    let e2 = put_opt(e1, "company"@, v);
    let v = Some(JsonView::Text(job.url));
    put_keeps_within(e2, "url"@, v, allowed, 2);
    let e3 = put_opt(e2, "url"@, v);
    let v = text_value(shown.location);
    put_keeps_within(e3, "location"@, v, allowed, 3);
    let e4 = put_opt(e3, "location"@, v);
    let v = text_value(job.board);
    put_keeps_within(e4, "board"@, v, allowed, 4);
    let e5 = put_opt(e4, "board"@, v);
    let v = text_value(shown.description);
    put_keeps_within(e5, "description"@, v, allowed, 5);
    let e6 = put_opt(e5, "description"@, v);
    let v = real_value(job.salary_min);
    put_keeps_within(e6, "salaryMin"@, v, allowed, 6);
    let e7 = put_opt(e6, "salaryMin"@, v);
    let v = real_value(job.salary_max);
    put_keeps_within(e7, "salaryMax"@, v, allowed, 7);
    let e8 = put_opt(e7, "salaryMax"@, v);
    let v = text_value(job.salary_currency);
    put_keeps_within(e8, "salaryCurrency"@, v, allowed, 8);
    let e9 = put_opt(e8, "salaryCurrency"@, v);
    let v = real_value(job.score);
    put_keeps_within(e9, "score"@, v, allowed, 9);
    let e10 = put_opt(e9, "score"@, v);
    let v = Some(JsonView::Bool(job.score_provisional));
    put_keeps_within(e10, "scoreProvisional"@, v, allowed, 10);
    let e11 = put_opt(e10, "scoreProvisional"@, v);
    let v = Some(JsonView::Text(score_source_text(job.score_source)));
    put_keeps_within(e11, "scoreSource"@, v, allowed, 11);
    let e12 = put_opt(e11, "scoreSource"@, v);
    let v = signed_int_value(job.posted_at);
    put_keeps_within(e12, "postedAt"@, v, allowed, 12);
    let e13 = put_opt(e12, "postedAt"@, v);
    let v = Some(JsonView::Int(job.found_at as int));
    put_keeps_within(e13, "foundAt"@, v, allowed, 13);
}

/// A job in a list has no other fields than those that are named.
pub proof fn slice_has_only_named_fields(job: FoundJobView, shown: ShownView)
    ensures
        keys_within(slice_value(job, shown)->Object_0, slice_keys()),
{
    posting_keys_within(job, shown, slice_keys());
    put_keeps_within(
        posting_entries(job, shown),
        "trust"@,
        opt_trust_value(job.trust),
        slice_keys(),
        14,
    );
}

/// A job on its own has no other fields than those that are named.
pub proof fn job_has_only_named_fields(job: FoundJobView, shown: ShownView)
    ensures
        keys_within(job_value(job, shown)->Object_0, job_keys()),
{
    let allowed = job_keys();
    posting_keys_within(job, shown, allowed);
    let e0 = posting_entries(job, shown);
    assert(allowed[14] == "trust"@ && allowed[15] == "isNew"@ && allowed[16] == "applied"@
        && allowed[17] == "isAgency"@ && allowed[18] == "clusterMembers"@);
    let v = Some(JsonView::Bool(job.is_new));
    put_keeps_within(e0, "isNew"@, v, allowed, 15);
    let e1 = put_opt(e0, "isNew"@, v);
    let v = Some(JsonView::Bool(job.applied));
    put_keeps_within(e1, "applied"@, v, allowed, 16);
    let e2 = put_opt(e1, "applied"@, v);
    let v = Some(JsonView::Bool(job.is_agency));
    put_keeps_within(e2, "isAgency"@, v, allowed, 17);
    let e3 = put_opt(e2, "isAgency"@, v);
    let v = opt_trust_value(job.trust);
    put_keeps_within(e3, "trust"@, v, allowed, 14);
    let e4 = put_opt(e3, "trust"@, v);
    put_keeps_within(e4, "clusterMembers"@, members_value(job.cluster_members), allowed, 18);
}

/// The names of the fields of an automation.
pub open spec fn automation_keys() -> Seq<Seq<char>> {
    seq![
        "id"@,
        "name"@,
        "status"@,
        "target"@,
        "totalFound"@,
        "totalApplied"@,
        "runStatus"@,
        "lastRunAt"@,
        "createdAt"@,
        "updatedAt"@,
    ]
}

/// An automation has no other fields than those that are named.
pub proof fn automation_has_only_named_fields(ap: AutopilotView)
    ensures
        keys_within(automation_value(ap)->Object_0, automation_keys()),
{
    let allowed = automation_keys();
    let e0 = Seq::<EntryView>::empty();
    let v = Some(JsonView::Text(ap.id));
    assert(allowed[0] == "id"@);
    put_keeps_within(e0, "id"@, v, allowed, 0);
    let e1 = put_opt(e0, "id"@, v);
    let v = Some(JsonView::Text(ap.name));
    assert(allowed[1] == "name"@);
    put_keeps_within(e1, "name"@, v, allowed, 1);
    let e2 = put_opt(e1, "name"@, v);
    let v = Some(JsonView::Text(status_text(ap.status)));
    assert(allowed[2] == "status"@);
    put_keeps_within(e2, "status"@, v, allowed, 2);
    let e3 = put_opt(e2, "status"@, v);
    let v = Some(target_value(ap.target));
    assert(allowed[3] == "target"@);
    put_keeps_within(e3, "target"@, v, allowed, 3);
    let e4 = put_opt(e3, "target"@, v);
    let v = Some(JsonView::Int(ap.total_found as int));
    assert(allowed[4] == "totalFound"@);
    put_keeps_within(e4, "totalFound"@, v, allowed, 4);
    let e5 = put_opt(e4, "totalFound"@, v);
    let v = Some(JsonView::Int(ap.total_applied as int));
    assert(allowed[5] == "totalApplied"@);
    put_keeps_within(e5, "totalApplied"@, v, allowed, 5);
    let e6 = put_opt(e5, "totalApplied"@, v);
    let v = text_value(opt_run_status_text(ap.run_status));
    assert(allowed[6] == "runStatus"@);
    put_keeps_within(e6, "runStatus"@, v, allowed, 6);
    let e7 = put_opt(e6, "runStatus"@, v);
    let v = unsigned_int_value(ap.last_run_at);
    assert(allowed[7] == "lastRunAt"@);
    put_keeps_within(e7, "lastRunAt"@, v, allowed, 7);
    let e8 = put_opt(e7, "lastRunAt"@, v);
    let v = Some(JsonView::Int(ap.created_at as int));
    assert(allowed[8] == "createdAt"@);
    put_keeps_within(e8, "createdAt"@, v, allowed, 8);
    let e9 = put_opt(e8, "createdAt"@, v);
    let v = Some(JsonView::Int(ap.updated_at as int));
    assert(allowed[9] == "updatedAt"@);
    put_keeps_within(e9, "updatedAt"@, v, allowed, 9);
}

/// The names of what no agent may see.
pub open spec fn secret_keys() -> Seq<Seq<char>> {
    seq![
        "assistantNotes"@,
        "clusterId"@,
        "clusterCanonical"@,
        "resumeText"@,
        "coverLetter"@,
        "assistant"@,
        "assistantProvider"@,
        "assistantModel"@,
        "assistantBaseUrl"@,
        "key"@,
    ]
}

/// What no agent may see is no field of a job or of an automation.
pub proof fn secrets_are_no_fields(i: int)
    requires
        0 <= i < secret_keys().len(),
    ensures
        !job_keys().contains(secret_keys()[i]),
        !slice_keys().contains(secret_keys()[i]),
        !automation_keys().contains(secret_keys()[i]),
{
    reveal_strlit("title");
    reveal_strlit("company");
    reveal_strlit("url");
    reveal_strlit("location");
    reveal_strlit("board");
    reveal_strlit("description");
    reveal_strlit("salaryMin");
    reveal_strlit("salaryMax");
    reveal_strlit("salaryCurrency");
    reveal_strlit("score");
    reveal_strlit("scoreProvisional");
    reveal_strlit("scoreSource");
    reveal_strlit("postedAt");
    reveal_strlit("foundAt");
    reveal_strlit("trust");
    reveal_strlit("isNew");
    reveal_strlit("applied");
    reveal_strlit("isAgency");
    reveal_strlit("clusterMembers");
    reveal_strlit("id");
    reveal_strlit("name");
    reveal_strlit("status");
    reveal_strlit("target");
    reveal_strlit("totalFound");
    reveal_strlit("totalApplied");
    reveal_strlit("runStatus");
    reveal_strlit("lastRunAt");
    reveal_strlit("createdAt");
    reveal_strlit("updatedAt");
    reveal_strlit("assistantNotes");
    reveal_strlit("clusterId");
    reveal_strlit("clusterCanonical");
    reveal_strlit("resumeText");
    reveal_strlit("coverLetter");
    reveal_strlit("assistant");
    reveal_strlit("assistantProvider");
    reveal_strlit("assistantModel");
    reveal_strlit("assistantBaseUrl");
    reveal_strlit("key");
    let secret = secret_keys()[i];
    assert(differs(secret, "title"@));
    assert(differs(secret, "company"@));
    assert(differs(secret, "url"@));
    assert(differs(secret, "location"@));
    assert(differs(secret, "board"@));
    assert(differs(secret, "description"@));
    assert(differs(secret, "salaryMin"@));
    assert(differs(secret, "salaryMax"@));
    assert(differs(secret, "salaryCurrency"@));
    assert(differs(secret, "score"@));
    assert(differs(secret, "scoreProvisional"@));
    assert(differs(secret, "scoreSource"@));
    assert(differs(secret, "postedAt"@));
    assert(differs(secret, "foundAt"@));
    assert(differs(secret, "trust"@));
    assert(differs(secret, "isNew"@));
    assert(differs(secret, "applied"@));
    assert(differs(secret, "isAgency"@));
    assert(differs(secret, "clusterMembers"@));
    assert(differs(secret, "id"@));
    assert(differs(secret, "name"@));
    assert(differs(secret, "status"@));
    assert(differs(secret, "target"@));
    assert(differs(secret, "totalFound"@));
    assert(differs(secret, "totalApplied"@));
    assert(differs(secret, "runStatus"@));
    assert(differs(secret, "lastRunAt"@));
    assert(differs(secret, "createdAt"@));
    assert(differs(secret, "updatedAt"@));
}

spec fn differs(a: Seq<char>, b: Seq<char>) -> bool {
    a.len() != b.len() || a[0] != b[0] || a[a.len() - 1] != b[b.len() - 1] || (a.len() > 6 && a[6]
        != b[6])
}

/// What is said of a value of [`Shown`] is said of its own fields, each by its name.
pub proof fn shown_texts_shows_its_own_fields(x: &Shown)
    ensures
        x@.title == x.title@,
        x@.company == x.company@,
        x@.location == opt_text(x.location),
        x@.description == opt_text(x.description),
{
}

} // verus!
