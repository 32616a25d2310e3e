//! A question of an agent and its answer.
//!
//! The program first asks what the question needs ([`need_of`]), gets that, and then has the
//! question answered ([`handle_agent_query`]).
use vstd::prelude::*;

use crate::agent_cli::verb::MSG_AGENT_RESULT;
use crate::agent_read::best_matches::{
    best_matches_limit, clamp_best_matches_limit, matches_value, resolve_best_matches,
    returned_rows, rows_shown, AgentBestMatch,
};
use crate::agent_read::found_jobs::{
    clamp_found_jobs_limit, cursor_of, found_jobs_limit, page_result, parse_found_jobs_cursor,
    resolve_found_jobs, result_view, INVALID_CURSOR_MESSAGE,
};
use crate::agent_read::projection::{
    automations_value, job_json, job_value, plain_texts, resolve_automations, shown_as, Shown,
    ShownView,
};
use crate::agent_read::resources::{
    resource_named, schema_content, schema_value, Resource,
};
use crate::autopilot::model::{
    autopilots_view, jobs_view, Autopilot, AutopilotView, FoundJob, FoundJobView,
};
use crate::error::{AppError, ErrorView};
use crate::json::{json_text, put, Json, JsonView, ObjectBuilder};
use crate::run::notes::JOB_CAP;
use crate::text::{owned, str_eq, trim, trimmed};

verus! {

/// The error where no automation has found the posting.
pub const JOB_NOT_FOUND_MESSAGE: &'static str = "no job found for this url";

/// The error of a question that came too soon after others.
pub const THROTTLED_MESSAGE: &'static str = "Too many requests — try again shortly.";

/// The error of a question over a connection that is not for agents.
pub const CLI_ONLY_MESSAGE: &'static str = "agent.query is only available to the ajh-tauri agent CLI";

/// The error where the automations cannot be read.
pub const STORE_UNAVAILABLE_MESSAGE: &'static str = "autopilot store unavailable";

// ── One posting ─────────────────────────────────────────────────────────────

/// Whether `normalize` makes `out` of an address.
pub open spec fn normalized_as<N: Fn(&str) -> String>(
    normalize: N,
    url: Seq<char>,
    out: Seq<char>,
) -> bool {
    exists|u: &str, r: String|
        u@ == url && r@ == out && #[trigger] normalize.ensures((u,), r)
}

/// Whether `normalize` makes something else than `wanted` of an address.
pub open spec fn normalized_otherwise<N: Fn(&str) -> String>(
    normalize: N,
    url: Seq<char>,
    wanted: Seq<char>,
) -> bool {
    exists|u: &str, r: String|
        u@ == url && r@ != wanted && #[trigger] normalize.ensures((u,), r)
}

/// The jobs of all automations, one after the other.
pub open spec fn all_jobs(records: Seq<AutopilotView>) -> Seq<FoundJobView>
    decreases records.len(),
{
    if records.len() == 0 {
        Seq::empty()
    } else {
        all_jobs(records.drop_last()) + records.last().found_jobs
    }
}

/// Whether the job at a place is the first one with the address.
pub open spec fn first_at<N: Fn(&str) -> String>(
    normalize: N,
    jobs: Seq<FoundJobView>,
    url: Seq<char>,
    at: int,
) -> bool {
    &&& 0 <= at < jobs.len()
    &&& normalized_as(normalize, jobs[at].url, url)
    &&& forall|i: int|
        0 <= i < at ==> normalized_otherwise(normalize, (#[trigger] jobs[i]).url, url)
}

/// Whether no job has the address.
pub open spec fn none_at<N: Fn(&str) -> String>(
    normalize: N,
    jobs: Seq<FoundJobView>,
    url: Seq<char>,
) -> bool {
    forall|i: int|
        0 <= i < jobs.len() ==> normalized_otherwise(normalize, (#[trigger] jobs[i]).url, url)
}

/// Whether a result is the first job with an address, with fenced texts, or the error that there is
/// none.
pub open spec fn job_result<N: Fn(&str) -> String, F: Fn(&str, &str, usize) -> String>(
    normalize: N,
    fence: F,
    jobs: Seq<FoundJobView>,
    url: Seq<char>,
    r: Result<JsonView, ErrorView>,
) -> bool {
    match r {
        Ok(value) => exists|at: int, shown: ShownView| #[trigger]
            first_at(normalize, jobs, url, at) && #[trigger] shown_as(
                fence,
                plain_texts(jobs[at]),
                JOB_CAP,
                shown,
            ) && value == job_value(jobs[at], shown),
        Err(e) => none_at(normalize, jobs, url) && e == ErrorView::Validation(
            JOB_NOT_FOUND_MESSAGE@,
        ),
    }
}

fn find_job<'a, N: Fn(&str) -> String>(
    jobs: &'a Vec<FoundJob>,
    url: &str,
    normalize: &N,
) -> (r: Option<&'a FoundJob>)
    requires
        forall|u: &str| normalize.requires((u,)),
    ensures
        match r {
            Some(job) => exists|at: int| #[trigger]
                first_at(*normalize, jobs_view(jobs@), url@, at) && jobs@[at] == *job,
            None => none_at(*normalize, jobs_view(jobs@), url@),
        },
{
    let ghost all = jobs_view(jobs@);
    let mut i: usize = 0;
    while i < jobs.len()
        invariant
            i <= jobs@.len(),
            all == jobs_view(jobs@),
            forall|u: &str| normalize.requires((u,)),
            forall|k: int|
                0 <= k < i ==> normalized_otherwise(*normalize, (#[trigger] all[k]).url, url@),
        decreases jobs@.len() - i,
    {
        let u: &str = jobs[i].url.as_str();
        let key: String = normalize(u);
        assert(normalize.ensures((u,), key));
        assert(all[i as int].url == u@);
        if str_eq(key.as_str(), url) {
            assert(normalized_as(*normalize, all[i as int].url, url@));
            assert(first_at(*normalize, all, url@, i as int));
            return Some(&jobs[i]);
        }
        assert(normalized_otherwise(*normalize, all[i as int].url, url@));
        i = i + 1;
    }
    None
}

/// The first job of the automations whose address `normalize` makes `normalized_url`, with fenced
/// texts.
pub fn resolve_job<N: Fn(&str) -> String, F: Fn(&str, &str, usize) -> String>(
    records: &[Autopilot],
    normalized_url: &str,
    normalize: &N,
    fence: &F,
) -> (r: Result<Json, AppError>)
    requires
        forall|u: &str| normalize.requires((u,)),
        forall|tag: &str, body: &str, cap: usize| fence.requires((tag, body, cap)),
    ensures
        job_result(
            *normalize,
            *fence,
            all_jobs(autopilots_view(records@)),
            normalized_url@,
            result_view(r),
        ),
{
    let ghost all = autopilots_view(records@);
    let mut i: usize = 0;
    assert(all.take(0) =~= Seq::empty());
    while i < records.len()
        invariant
            i <= records@.len(),
            all == autopilots_view(records@),
            forall|u: &str| normalize.requires((u,)),
            forall|tag: &str, body: &str, cap: usize| fence.requires((tag, body, cap)),
            none_at(*normalize, all_jobs(all.take(i as int)), normalized_url@),
        decreases records@.len() - i,
    {
        let ghost before = all_jobs(all.take(i as int));
        let ghost here = jobs_view(records@[i as int].found_jobs@);
        let ghost after = all_jobs(all.take(i as int + 1));
        proof {
            assert(all.take(i as int + 1).drop_last() =~= all.take(i as int));
            assert(after == before + here);
            all_jobs_of_prefix(all, i as int + 1);
        }
        match find_job(&records[i].found_jobs, normalized_url, normalize) {
            Some(job) => {
                let shown: Shown = Shown::plain(job).fenced(JOB_CAP, fence);
                let value: Json = job_json(job, &shown);
                proof {
                    let at = choose|at: int| #[trigger]
                        first_at(*normalize, here, normalized_url@, at)
                            && records@[i as int].found_jobs@[at] == *job;
                    let whole = all_jobs(all);
                    let place = before.len() + at;
                    assert(whole[place] == after[place] && after[place] == here[at]);
                    assert forall|k: int| 0 <= k < place implies normalized_otherwise(
                        *normalize,
                        (#[trigger] whole[k]).url,
                        normalized_url@,
                    ) by {
                        assert(whole[k] == after[k]);
                        if k < before.len() {
                            assert(after[k] == before[k]);
                        } else {
                            assert(after[k] == here[k - before.len()]);
                        }
                    }
                    assert(first_at(*normalize, whole, normalized_url@, place));
                    assert(shown_as(*fence, plain_texts(whole[place]), JOB_CAP, shown@));
                }
                return Ok(value);
            },
            None => {
                assert forall|k: int| 0 <= k < after.len() implies normalized_otherwise(
                    *normalize,
                    (#[trigger] after[k]).url,
                    normalized_url@,
                ) by {
                    if k < before.len() {
                        assert(after[k] == before[k]);
                    } else {
                        assert(after[k] == here[k - before.len()]);
                    }
                }
            },
        }
        i = i + 1;
    }
    assert(all.take(all.len() as int) =~= all);
    Err(AppError::Validation(owned(JOB_NOT_FOUND_MESSAGE)))
}

proof fn all_jobs_of_prefix(records: Seq<AutopilotView>, n: int)
    requires
        0 <= n <= records.len(),
    ensures
        all_jobs(records.take(n)).len() <= all_jobs(records).len(),
        forall|i: int|
            0 <= i < all_jobs(records.take(n)).len() ==> #[trigger] all_jobs(records)[i]
                == all_jobs(records.take(n))[i],
    decreases records.len() - n,
{
    if n == records.len() {
        assert(records.take(n) =~= records);
    } else {
        all_jobs_of_prefix(records, n + 1);
        assert(records.take(n + 1).drop_last() =~= records.take(n));
    }
}

// ── What a question needs ───────────────────────────────────────────────────

/// What has to be got before a question can be answered.
#[derive(Debug, Clone, Copy, PartialEq, Eq, Structural)]
pub enum Need {
    Nothing,
    /// The automations.
    Records,
    /// The contact data of the user, through its own consent gate.
    Profile,
    /// The strongest jobs.
    BestMatches,
}

/// What was got.
pub enum Material {
    Nothing,
    /// The automations; none where they cannot be read.
    Records(Option<Vec<Autopilot>>),
    Profile(Result<Json, AppError>),
    /// The rows, none in place of each that could not be read, and how many jobs qualify.
    BestMatches(Vec<Option<AgentBestMatch>>, u64),
}

/// The name of what a question asks for, empty where there is none.
pub open spec fn resource_asked(payload: JsonView) -> Seq<char> {
    match payload.text_at("resource"@) {
        Some(name) => name,
        None => Seq::empty(),
    }
}

/// The name of what a question asks for, empty where there is none.
pub fn resource_name(payload: &Json) -> (r: &str)
    ensures
        r@ == resource_asked(payload@),
{
    match payload.str_at("resource") {
        Some(name) => name,
        None => {
            proof {
                reveal_strlit("");
                assert(""@ =~= Seq::empty());
            }
            ""
        },
    }
}

/// What has to be got before a question can be answered.
pub open spec fn need(payload: JsonView) -> Need {
    match resource_named(resource_asked(payload)) {
        Some(Resource::BestMatches) => Need::BestMatches,
        Some(Resource::Job) => Need::Records,
        Some(Resource::Profile) => Need::Profile,
        Some(Resource::Automations) => Need::Records,
        Some(Resource::FoundJobs) => Need::Records,
        _ => Need::Nothing,
    }
}

/// What has to be got before a question can be answered.
pub fn need_of(payload: &Json) -> (r: Need)
    ensures
        r == need(payload@),
{
    match Resource::named(resource_name(payload)) {
        Some(Resource::BestMatches) => Need::BestMatches,
        Some(Resource::Job) => Need::Records,
        Some(Resource::Profile) => Need::Profile,
        Some(Resource::Automations) => Need::Records,
        Some(Resource::FoundJobs) => Need::Records,
        _ => Need::Nothing,
    }
}

/// Whether what was got is what was needed.
pub open spec fn meets(material: Material, need: Need) -> bool {
    match need {
        Need::Nothing => true,
        Need::Records => material is Records,
        Need::Profile => material is Profile,
        Need::BestMatches => material is BestMatches,
    }
}

/// Whether a question draws on the small allowance for costly answers. All others share the large
/// one.
pub fn is_costly(resource: &str) -> (r: bool)
    ensures
        r == (resource@ == "best-matches"@),
{
    str_eq(resource, "best-matches")
}

// ── The answers ─────────────────────────────────────────────────────────────

/// The text under a key without the white space round it, empty where there is none.
pub open spec fn argument(payload: JsonView, key: Seq<char>) -> Seq<char> {
    match payload.text_at(key) {
        Some(s) => trimmed(s),
        None => Seq::empty(),
    }
}

fn read_argument(payload: &Json, key: &str) -> (r: String)
    ensures
        r@ == argument(payload@, key@),
{
    match payload.str_at(key) {
        Some(s) => trim(s),
        None => {
            let r: String = String::new();
            assert(r@ =~= Seq::empty());
            r
        },
    }
}

/// Whether `out` is the identity of an address: what `normalize` makes of the address that
/// `canonical` gives for it, or of the address itself.
pub open spec fn identity_as<C: Fn(&str) -> Option<String>, N: Fn(&str) -> String>(
    canonical: C,
    normalize: N,
    url: Seq<char>,
    out: Seq<char>,
) -> bool {
    exists|u: &str, c: Option<String>|
        u@ == url && #[trigger] canonical.ensures((u,), c) && normalized_as(
            normalize,
            match c {
                Some(s) => s@,
                None => url,
            },
            out,
        )
}

fn identity_of<C: Fn(&str) -> Option<String>, N: Fn(&str) -> String>(
    url: &str,
    canonical: &C,
    normalize: &N,
) -> (r: String)
    requires
        forall|u: &str| canonical.requires((u,)),
        forall|u: &str| normalize.requires((u,)),
    ensures
        identity_as(*canonical, *normalize, url@, r@),
{
    let c: Option<String> = canonical(url);
    assert(canonical.ensures((url,), c));
    let r: String = match &c {
        Some(s) => {
            let u: &str = s.as_str();
            let r: String = normalize(u);
            assert(normalize.ensures((u,), r));
            r
        },
        None => {
            let r: String = normalize(url);
            assert(normalize.ensures((url,), r));
            r
        },
    };
    r
}

/// Whether a result answers a question for one posting. The address is checked before anything is
/// read.
pub open spec fn job_answer<
    C: Fn(&str) -> Option<String>,
    N: Fn(&str) -> String,
    F: Fn(&str, &str, usize) -> String,
>(
    payload: JsonView,
    records: Option<Seq<AutopilotView>>,
    canonical: C,
    normalize: N,
    fence: F,
    r: Result<JsonView, ErrorView>,
) -> bool {
    let url = argument(payload, "url"@);
    if url.len() == 0 {
        r == Err::<JsonView, ErrorView>(ErrorView::Validation("url is required"@))
    } else {
        exists|id: Seq<char>| #[trigger]
            identity_as(canonical, normalize, url, id) && (if id.len() == 0 {
                r == Err::<JsonView, ErrorView>(
                    ErrorView::Validation("url is not a valid http(s) URL"@),
                )
            } else {
                match records {
                    Some(records) => job_result(normalize, fence, all_jobs(records), id, r),
                    None => r == Err::<JsonView, ErrorView>(
                        ErrorView::Config(STORE_UNAVAILABLE_MESSAGE@),
                    ),
                }
            })
    }
}

/// The records as values, where there are any.
pub open spec fn opt_records(o: Option<Vec<Autopilot>>) -> Option<Seq<AutopilotView>> {
    match o {
        Some(v) => Some(autopilots_view(v@)),
        None => None,
    }
}

/// Answers a question for one posting.
pub fn job_resource<
    C: Fn(&str) -> Option<String>,
    N: Fn(&str) -> String,
    F: Fn(&str, &str, usize) -> String,
>(
    payload: &Json,
    records: &Option<Vec<Autopilot>>,
    canonical: &C,
    normalize: &N,
    fence: &F,
) -> (r: Result<Json, AppError>)
    requires
        forall|u: &str| canonical.requires((u,)),
        forall|u: &str| normalize.requires((u,)),
        forall|tag: &str, body: &str, cap: usize| fence.requires((tag, body, cap)),
    ensures
        job_answer(
            payload@,
            opt_records(*records),
            *canonical,
            *normalize,
            *fence,
            result_view(r),
        ),
{
    let url: String = read_argument(payload, "url");
    if url.as_str().is_empty() {
        return Err(AppError::Validation(owned("url is required")));
    }
    let id: String = identity_of(url.as_str(), canonical, normalize);
    assert(identity_as(*canonical, *normalize, argument(payload@, "url"@), id@));
    if id.as_str().is_empty() {
        return Err(AppError::Validation(owned("url is not a valid http(s) URL")));
    }
    match records {
        Some(records) => resolve_job(records.as_slice(), id.as_str(), normalize, fence),
        None => Err(AppError::Config(owned(STORE_UNAVAILABLE_MESSAGE))),
    }
}

/// Whether a result answers a question for the jobs of an automation. The arguments are checked
/// before anything is read.
pub open spec fn found_jobs_answer<F: Fn(&str, &str, usize) -> String>(
    payload: JsonView,
    records: Option<Seq<AutopilotView>>,
    fence: F,
    r: Result<JsonView, ErrorView>,
) -> bool {
    let id = argument(payload, "autopilotId"@);
    if id.len() == 0 {
        r == Err::<JsonView, ErrorView>(ErrorView::Validation("autopilotId is required"@))
    } else {
        match cursor_of(payload) {
            None => r == Err::<JsonView, ErrorView>(ErrorView::Validation(INVALID_CURSOR_MESSAGE@)),
            Some(offset) => match records {
                Some(records) => page_result(
                    fence,
                    records,
                    id,
                    offset as int,
                    found_jobs_limit(payload),
                    r,
                ),
                None => r == Err::<JsonView, ErrorView>(
                    ErrorView::Config(STORE_UNAVAILABLE_MESSAGE@),
                ),
            },
        }
    }
}

/// Answers a question for the jobs of an automation.
pub fn found_jobs_resource<F: Fn(&str, &str, usize) -> String>(
    payload: &Json,
    records: &Option<Vec<Autopilot>>,
    fence: &F,
) -> (r: Result<Json, AppError>)
    requires
        forall|tag: &str, body: &str, cap: usize| fence.requires((tag, body, cap)),
    ensures
        found_jobs_answer(payload@, opt_records(*records), *fence, result_view(r)),
{
    let id: String = read_argument(payload, "autopilotId");
    if id.as_str().is_empty() {
        return Err(AppError::Validation(owned("autopilotId is required")));
    }
    let offset: usize = match parse_found_jobs_cursor(payload) {
        Ok(n) => n,
        Err(e) => return Err(e),
    };
    let limit: usize = clamp_found_jobs_limit(payload);
    match records {
        Some(records) => resolve_found_jobs(records.as_slice(), id.as_str(), offset, limit, fence),
        None => Err(AppError::Config(owned(STORE_UNAVAILABLE_MESSAGE))),
    }
}

/// The answer to a question for all automations.
pub open spec fn automations_answer(records: Option<Seq<AutopilotView>>) -> Result<
    JsonView,
    ErrorView,
> {
    match records {
        Some(records) => Ok(automations_value(records)),
        None => Err(ErrorView::Config(STORE_UNAVAILABLE_MESSAGE@)),
    }
}

/// Answers a question for all automations.
pub fn automations_resource(records: &Option<Vec<Autopilot>>) -> (r: Result<Json, AppError>)
    ensures
        result_view(r) == automations_answer(opt_records(*records)),
{
    match records {
        Some(records) => Ok(resolve_automations(records.as_slice())),
        None => Err(AppError::Config(owned(STORE_UNAVAILABLE_MESSAGE))),
    }
}

/// Answers a question for the strongest jobs.
pub fn best_matches_resource<F: Fn(&str, &str, usize) -> String>(
    payload: &Json,
    rows: &Vec<Option<AgentBestMatch>>,
    total: u64,
    fence: &F,
) -> (r: Json)
    requires
        forall|tag: &str, body: &str, cap: usize| fence.requires((tag, body, cap)),
    ensures
        exists|values: Seq<JsonView>| #[trigger]
            rows_shown(*fence, returned_rows(rows@, best_matches_limit(payload@)), values) && r@
                == matches_value(values, total),
{
    let limit: usize = clamp_best_matches_limit(payload);
    resolve_best_matches(rows.as_slice(), total, limit, fence)
}

// ── Replies ─────────────────────────────────────────────────────────────────

/// What a reply carries.
pub open spec fn result_payload(
    resource: Seq<char>,
    outcome: Result<JsonView, ErrorView>,
) -> JsonView {
    let e = put(Seq::empty(), "ok"@, JsonView::Bool(outcome is Ok));
    let e = put(e, "resource"@, JsonView::Text(resource));
    JsonView::Object(
        match outcome {
            Ok(data) => put(e, "data"@, data),
            Err(error) => put(e, "error"@, JsonView::Text(error.message())),
        },
    )
}

/// The frame of a reply.
pub open spec fn result_frame(
    req_id: Seq<char>,
    resource: Seq<char>,
    outcome: Result<JsonView, ErrorView>,
) -> JsonView {
    let e = put(Seq::empty(), "type"@, JsonView::Text(MSG_AGENT_RESULT@));
    let e = put(e, "reqId"@, JsonView::Text(req_id));
    JsonView::Object(put(e, "payload"@, result_payload(resource, outcome)))
}

/// The text of a reply.
pub fn agent_result_reply(req_id: &str, resource: &str, outcome: Result<Json, AppError>) -> (r:
    String)
    ensures
        r@ == json_text(result_frame(req_id@, resource@, result_view(outcome))),
{
    let b: ObjectBuilder = ObjectBuilder::new().with_bool("ok", outcome.is_ok()).with_text(
        "resource",
        resource,
    );
    let payload: Json = match outcome {
        Ok(data) => b.with("data", data).build(),
        Err(e) => b.with_text("error", e.to_string().as_str()).build(),
    };
    let frame: Json = ObjectBuilder::new().with_text("type", MSG_AGENT_RESULT).with_text(
        "reqId",
        req_id,
    ).with("payload", payload).build();
    frame.to_text()
}

/// The reply to a question that came too soon after others.
pub fn throttled_reply(req_id: &str, resource: &str) -> (r: String)
    ensures
        r@ == json_text(
            result_frame(req_id@, resource@, Err(ErrorView::RateLimited(THROTTLED_MESSAGE@))),
        ),
{
    agent_result_reply(req_id, resource, Err(AppError::RateLimited(owned(THROTTLED_MESSAGE))))
}

/// The reply to a question over a connection that is not for agents.
pub fn origin_refused_reply(req_id: &str, payload: &Json) -> (r: String)
    ensures
        r@ == json_text(
            result_frame(
                req_id@,
                resource_asked(payload@),
                Err(ErrorView::Validation(CLI_ONLY_MESSAGE@)),
            ),
        ),
{
    agent_result_reply(
        req_id,
        resource_name(payload),
        Err(AppError::Validation(owned(CLI_ONLY_MESSAGE))),
    )
}

/// The error of a question for something that is not there.
pub open spec fn unknown_resource_text(name: Seq<char>) -> Seq<char> {
    "unknown agent resource '"@ + name + "'"@
}

fn unknown_resource(name: &str) -> (r: AppError)
    ensures
        r@ == ErrorView::Validation(unknown_resource_text(name@)),
{
    let mut text: String = owned("unknown agent resource '");
    text.append(name);
    text.append("'");
    AppError::Validation(text)
}

/// Whether a result answers a question with what was got for it.
pub open spec fn answers<
    C: Fn(&str) -> Option<String>,
    N: Fn(&str) -> String,
    F: Fn(&str, &str, usize) -> String,
>(
    payload: JsonView,
    material: Material,
    canonical: C,
    normalize: N,
    fence: F,
    r: Result<JsonView, ErrorView>,
) -> bool {
    let name = resource_asked(payload);
    match (resource_named(name), material) {
        (Some(Resource::Schema), _) => r == Ok::<JsonView, ErrorView>(schema_content()),
        (Some(Resource::Job), Material::Records(records)) => job_answer(
            payload,
            opt_records(records),
            canonical,
            normalize,
            fence,
            r,
        ),
        (Some(Resource::FoundJobs), Material::Records(records)) => found_jobs_answer(
            payload,
            opt_records(records),
            fence,
            r,
        ),
        (Some(Resource::Automations), Material::Records(records)) => r == automations_answer(
            opt_records(records),
        ),
        (Some(Resource::Profile), Material::Profile(outcome)) => r == result_view(outcome),
        (Some(Resource::BestMatches), Material::BestMatches(rows, total)) => exists|
            values: Seq<JsonView>,
        | #[trigger]
            rows_shown(fence, returned_rows(rows@, best_matches_limit(payload)), values) && r == Ok::<
                JsonView,
                ErrorView,
            >(matches_value(values, total)),
        _ => r == Err::<JsonView, ErrorView>(ErrorView::Validation(unknown_resource_text(name))),
    }
}

/// The reply to a question, with what was got for it.
pub fn handle_agent_query<
    C: Fn(&str) -> Option<String>,
    N: Fn(&str) -> String,
    F: Fn(&str, &str, usize) -> String,
>(
    req_id: &str,
    payload: &Json,
    material: Material,
    canonical: &C,
    normalize: &N,
    fence: &F,
) -> (r: String)
    requires
        meets(material, need(payload@)),
        forall|u: &str| canonical.requires((u,)),
        forall|u: &str| normalize.requires((u,)),
        forall|tag: &str, body: &str, cap: usize| fence.requires((tag, body, cap)),
    ensures
        exists|outcome: Result<JsonView, ErrorView>| #[trigger]
            answers(payload@, material, *canonical, *normalize, *fence, outcome) && r@ == json_text(
                result_frame(req_id@, resource_asked(payload@), outcome),
            ),
{
    let name: &str = resource_name(payload);
    let ghost got = material;
    let outcome: Result<Json, AppError> = match (Resource::named(name), material) {
        (Some(Resource::Schema), _) => Ok(schema_value()),
        (Some(Resource::Job), Material::Records(records)) => job_resource(
            payload,
            &records,
            canonical,
            normalize,
            fence,
        ),
        (Some(Resource::FoundJobs), Material::Records(records)) => found_jobs_resource(
            payload,
            &records,
            fence,
        ),
        (Some(Resource::Automations), Material::Records(records)) => automations_resource(&records),
        (Some(Resource::Profile), Material::Profile(outcome)) => outcome,
        (Some(Resource::BestMatches), Material::BestMatches(rows, total)) => Ok(
            best_matches_resource(payload, &rows, total, fence),
        ),
        _ => Err(unknown_resource(name)),
    };
    assert(answers(payload@, got, *canonical, *normalize, *fence, result_view(outcome)));
    agent_result_reply(req_id, name, outcome)
}

// ── Laws ────────────────────────────────────────────────────────────────────

/// A reply names the question and the resource it belongs to, and is good exactly where there is
/// something to hand out.
pub proof fn replies_name_their_question(
    req_id: Seq<char>,
    resource: Seq<char>,
    outcome: Result<JsonView, ErrorView>,
)
    ensures
        result_frame(req_id, resource, outcome).text_at("reqId"@) == Some(req_id),
        result_frame(req_id, resource, outcome).get("payload"@) == Some(
            result_payload(resource, outcome),
        ),
        result_payload(resource, outcome).text_at("resource"@) == Some(resource),
        result_payload(resource, outcome).boolean_at("ok"@) == Some(outcome is Ok),
{
    reveal_strlit("type");
    reveal_strlit("reqId");
    reveal_strlit("payload");
    reveal_strlit("ok");
    reveal_strlit("resource");
    reveal_strlit("data");
    reveal_strlit("error");
    reveal_with_fuel(crate::json::lookup, 4);
    assert("type"@.len() == 4 && "reqId"@.len() == 5 && "payload"@.len() == 7 && "ok"@.len() == 2
        && "resource"@.len() == 8 && "data"@.len() == 4 && "error"@.len() == 5);
}

} // verus!
