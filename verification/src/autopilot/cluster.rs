//! Grouping the jobs of a record that are one posting on several boards.
//!
//! Which jobs belong together is decided elsewhere. Here stand what is handed to that decision
//! and what becomes of its verdicts.
use vstd::prelude::*;

use crate::autopilot::merge::{description_blank, keys_by, merge_keys};
use crate::autopilot::model::{
    clone_members, jobs_view, members_view, ClusterMemberRef, FoundJob, FoundJobView, MemberView,
};
use crate::text::{clone_opt_text, is_blank, list_contains, opt_text, texts};

verus! {

/// What the grouping looks at.
#[derive(Debug, PartialEq, Eq)]
pub struct ClusterInput {
    pub key: String,
    pub title: String,
    pub company: String,
    pub url: String,
    pub source: Option<String>,
    pub has_description: bool,
    pub seen_at: u64,
}

/// [`ClusterInput`] as values.
#[verifier::ext_equal]
pub struct ClusterInputView {
    pub key: Seq<char>,
    pub title: Seq<char>,
    pub company: Seq<char>,
    pub url: Seq<char>,
    pub source: Option<Seq<char>>,
    pub has_description: bool,
    pub seen_at: u64,
}

impl View for ClusterInput {
    type V = ClusterInputView;

    open spec fn view(&self) -> ClusterInputView {
        ClusterInputView {
            key: self.key@,
            title: self.title@,
            company: self.company@,
            url: self.url@,
            source: opt_text(self.source),
            has_description: self.has_description,
            seen_at: self.seen_at,
        }
    }
}

/// The inputs of a list as values.
pub open spec fn inputs_view(v: Seq<ClusterInput>) -> Seq<ClusterInputView> {
    Seq::new(v.len(), |i: int| v[i]@)
}

/// The grouping's verdict on one job.
#[derive(Debug, PartialEq, Eq)]
pub struct ClusterAssignment {
    pub cluster_id: String,
    pub canonical: bool,
    pub members: Vec<ClusterMemberRef>,
    pub is_agency: bool,
}

/// [`ClusterAssignment`] as values.
#[verifier::ext_equal]
pub struct AssignmentView {
    pub cluster_id: Seq<char>,
    pub canonical: bool,
    pub members: Seq<MemberView>,
    pub is_agency: bool,
}

impl View for ClusterAssignment {
    type V = AssignmentView;

    open spec fn view(&self) -> AssignmentView {
        AssignmentView {
            cluster_id: self.cluster_id@,
            canonical: self.canonical,
            members: members_view(self.members@),
            is_agency: self.is_agency,
        }
    }
}

/// The verdicts of a list as values.
pub open spec fn assignments_view(v: Seq<ClusterAssignment>) -> Seq<AssignmentView> {
    Seq::new(v.len(), |i: int| v[i]@)
}

/// What the grouping looks at in one job.
pub open spec fn cluster_input(job: FoundJobView, key: Seq<char>) -> ClusterInputView {
    ClusterInputView {
        key,
        title: job.title,
        company: job.company,
        url: job.url,
        source: job.board,
        has_description: !description_blank(job.description),
        seen_at: job.found_at,
    }
}

/// What the grouping looks at in a list of jobs.
pub open spec fn cluster_inputs(jobs: Seq<FoundJobView>, keys: Seq<Seq<char>>) -> Seq<
    ClusterInputView,
> {
    Seq::new(jobs.len(), |i: int| cluster_input(jobs[i], keys[i]))
}

/// A job with a verdict written on it.
pub open spec fn annotated_job(job: FoundJobView, a: AssignmentView) -> FoundJobView {
    FoundJobView {
        cluster_id: Some(a.cluster_id),
        cluster_canonical: a.canonical,
        cluster_members: a.members,
        is_agency: a.is_agency,
        ..job
    }
}

/// Jobs with the verdicts written on them, each on the job at its place. A job without a verdict
/// stays as it is.
pub open spec fn annotated(jobs: Seq<FoundJobView>, a: Seq<AssignmentView>) -> Seq<FoundJobView> {
    Seq::new(
        jobs.len(),
        |i: int|
            if i < a.len() {
                annotated_job(jobs[i], a[i])
            } else {
                jobs[i]
            },
    )
}

/// What the grouping looks at in a list of jobs, with their merge keys.
pub fn found_job_cluster_inputs(jobs: &Vec<FoundJob>, keys: &Vec<String>) -> (r: Vec<ClusterInput>)
    requires
        jobs@.len() == keys@.len(),
    ensures
        inputs_view(r@) == cluster_inputs(jobs_view(jobs@), texts(keys@)),
{
    let mut out: Vec<ClusterInput> = Vec::new();
    let mut i: usize = 0;
    while i < jobs.len()
        invariant
            i <= jobs@.len(),
            jobs@.len() == keys@.len(),
            out@.len() == i,
            forall|k: int|
                0 <= k < i ==> (#[trigger] out@[k])@ == cluster_input(jobs@[k]@, keys@[k]@),
        decreases jobs@.len() - i,
    {
        let job: &FoundJob = &jobs[i];
        let has_description: bool = match &job.description {
            Some(d) => !is_blank(d.as_str()),
            None => false,
        };
        let input = ClusterInput {
            key: keys[i].clone(),
            title: job.title.clone(),
            company: job.company.clone(),
            url: job.url.clone(),
            source: clone_opt_text(&job.board),
            has_description,
            seen_at: job.found_at,
        };
        assert(input@ =~= cluster_input(jobs@[i as int]@, keys@[i as int]@));
        out.push(input);
        i = i + 1;
    }
    assert(inputs_view(out@) =~= cluster_inputs(jobs_view(jobs@), texts(keys@)));
    out
}

/// Writes the verdicts on the jobs.
pub fn annotate_jobs(jobs: &mut Vec<FoundJob>, assignments: &Vec<ClusterAssignment>)
    ensures
        jobs_view(final(jobs)@) == annotated(
            jobs_view(old(jobs)@),
            assignments_view(assignments@),
        ),
{
    let ghost start = jobs_view(jobs@);
    let ghost a = assignments_view(assignments@);
    let mut i: usize = 0;
    while i < jobs.len() && i < assignments.len()
        invariant
            i <= jobs@.len(),
            i <= assignments@.len(),
            jobs@.len() == start.len(),
            a == assignments_view(assignments@),
            forall|k: int|
                0 <= k < i ==> (#[trigger] jobs@[k])@ == annotated_job(start[k], a[k]),
            forall|k: int| i <= k < start.len() ==> (#[trigger] jobs@[k])@ == start[k],
        decreases jobs@.len() - i,
    {
        let verdict: &ClusterAssignment = &assignments[i];
        jobs[i].cluster_id = Some(verdict.cluster_id.clone());
        jobs[i].cluster_canonical = verdict.canonical;
        jobs[i].cluster_members = clone_members(&verdict.members);
        jobs[i].is_agency = verdict.is_agency;
        assert(jobs@[i as int]@ =~= annotated_job(start[i as int], a[i as int]));
        i = i + 1;
    }
    assert(jobs_view(jobs@) =~= annotated(start, a));
}

// ── New jobs ────────────────────────────────────────────────────────────────

/// The keys of the new jobs, each once, in the order of the jobs.
pub open spec fn new_keys(jobs: Seq<FoundJobView>, keys: Seq<Seq<char>>) -> Seq<Seq<char>>
    decreases jobs.len(),
{
    if jobs.len() == 0 {
        Seq::empty()
    } else {
        let done = new_keys(jobs.drop_last(), keys.drop_last());
        if jobs.last().is_new && !done.contains(keys.last()) {
            done.push(keys.last())
        } else {
            done
        }
    }
}

/// The keys of the new jobs, each once.
pub fn new_job_keys(jobs: &Vec<FoundJob>, keys: &Vec<String>) -> (r: Vec<String>)
    requires
        jobs@.len() == keys@.len(),
    ensures
        texts(r@) == new_keys(jobs_view(jobs@), texts(keys@)),
{
    let ghost jv = jobs_view(jobs@);
    let ghost kv = texts(keys@);
    let mut out: Vec<String> = Vec::new();
    let mut i: usize = 0;
    assert(jv.take(0) =~= Seq::empty());
    assert(texts(out@) =~= Seq::empty());
    while i < jobs.len()
        invariant
            i <= jobs@.len(),
            jobs@.len() == keys@.len(),
            jv == jobs_view(jobs@),
            kv == texts(keys@),
            texts(out@) == new_keys(jv.take(i as int), kv.take(i as int)),
        decreases jobs@.len() - i,
    {
        let ghost before = texts(out@);
        proof {
            assert(jv.take(i as int + 1).drop_last() =~= jv.take(i as int));
            assert(kv.take(i as int + 1).drop_last() =~= kv.take(i as int));
            assert(jv.take(i as int + 1).last() == jobs@[i as int]@);
            assert(kv.take(i as int + 1).last() == keys@[i as int]@);
        }
        if jobs[i].is_new && !list_contains(&out, keys[i].as_str()) {
            out.push(keys[i].clone());
            assert(texts(out@) =~= before.push(keys@[i as int]@));
        }
        i = i + 1;
    }
    assert(jv.take(jv.len() as int) =~= jv);
    assert(kv.take(kv.len() as int) =~= kv);
    out
}

/// The keys of the new jobs are those that a new job has, each once.
pub proof fn new_keys_are_those_of_new_jobs(jobs: Seq<FoundJobView>, keys: Seq<Seq<char>>)
    requires
        jobs.len() == keys.len(),
    ensures
        new_keys(jobs, keys).no_duplicates(),
        forall|key: Seq<char>| #[trigger]
            new_keys(jobs, keys).contains(key) <==> exists|i: int|
                0 <= i < jobs.len() && (#[trigger] jobs[i]).is_new && keys[i] == key,
    decreases jobs.len(),
{
    if jobs.len() > 0 {
        let rest = jobs.drop_last();
        let rest_keys = keys.drop_last();
        let done = new_keys(rest, rest_keys);
        let all = new_keys(jobs, keys);
        let n = jobs.len() - 1;
        new_keys_are_those_of_new_jobs(rest, rest_keys);
        assert forall|key: Seq<char>| #[trigger] all.contains(key) <==> exists|i: int|
            0 <= i < jobs.len() && (#[trigger] jobs[i]).is_new && keys[i] == key by {
            assert(done.contains(key) <==> exists|i: int|
                0 <= i < rest.len() && (#[trigger] rest[i]).is_new && rest_keys[i] == key);
            if done.contains(key) {
                let i = choose|i: int|
                    0 <= i < rest.len() && (#[trigger] rest[i]).is_new && rest_keys[i] == key;
                assert(jobs[i].is_new && keys[i] == key);
                let k = choose|k: int| 0 <= k < done.len() && done[k] == key;
                assert(all[k] == key);
            }
            if all.contains(key) && !done.contains(key) {
                let k = choose|k: int| 0 <= k < all.len() && all[k] == key;
                if k < done.len() {
                    assert(done[k] == key);
                }
                assert(jobs[n].is_new && keys[n] == key);
            }
            if exists|i: int|
                0 <= i < jobs.len() && (#[trigger] jobs[i]).is_new && keys[i] == key {
                let i = choose|i: int|
                    0 <= i < jobs.len() && (#[trigger] jobs[i]).is_new && keys[i] == key;
                if i < n {
                    assert(rest[i].is_new && rest_keys[i] == key);
                    assert(done.contains(key));
                } else if !done.contains(key) {
                    assert(all[done.len() as int] == key);
                }
            }
        }
    }
}

// ── The whole pass ──────────────────────────────────────────────────────────

/// Whether the verdicts come from `assign` for these jobs, with keys that `identify` makes.
pub open spec fn assigned_by<
    F: Fn(&str, &str, &str) -> String,
    G: Fn(&Vec<ClusterInput>) -> Vec<ClusterAssignment>,
>(
    identify: F,
    assign: G,
    jobs: Seq<FoundJobView>,
    keys: Seq<Seq<char>>,
    verdicts: Vec<ClusterAssignment>,
) -> bool {
    &&& keys_by(identify, jobs, keys)
    &&& exists|inputs: Vec<ClusterInput>|
        inputs_view(inputs@) == cluster_inputs(jobs, keys) && #[trigger] assign.ensures(
            (&inputs,),
            verdicts,
        )
}

/// Groups jobs that have these merge keys and writes the verdicts on them. The verdicts are
/// handed back.
pub fn cluster_keyed_jobs<G: Fn(&Vec<ClusterInput>) -> Vec<ClusterAssignment>>(
    jobs: &mut Vec<FoundJob>,
    keys: &Vec<String>,
    assign: &G,
) -> (r: Vec<ClusterAssignment>)
    requires
        old(jobs)@.len() == keys@.len(),
        forall|inputs: Vec<ClusterInput>| assign.requires((&inputs,)),
    ensures
        exists|inputs: Vec<ClusterInput>|
            inputs_view(inputs@) == cluster_inputs(jobs_view(old(jobs)@), texts(keys@))
                && #[trigger] assign.ensures((&inputs,), r),
        jobs_view(final(jobs)@) == annotated(jobs_view(old(jobs)@), assignments_view(r@)),
{
    let inputs: Vec<ClusterInput> = found_job_cluster_inputs(jobs, keys);
    let verdicts: Vec<ClusterAssignment> = assign(&inputs);
    annotate_jobs(jobs, &verdicts);
    verdicts
}

/// Groups the jobs and writes the verdicts on them. The keys of the jobs and the verdicts are
/// handed back.
pub fn cluster_found_jobs<
    F: Fn(&str, &str, &str) -> String,
    G: Fn(&Vec<ClusterInput>) -> Vec<ClusterAssignment>,
>(jobs: &mut Vec<FoundJob>, identify: &F, assign: &G) -> (r: (Vec<String>, Vec<ClusterAssignment>))
    requires
        forall|url: &str, title: &str, company: &str| identify.requires((url, title, company)),
        forall|inputs: Vec<ClusterInput>| assign.requires((&inputs,)),
    ensures
        r.0@.len() == old(jobs)@.len(),
        assigned_by(*identify, *assign, jobs_view(old(jobs)@), texts(r.0@), r.1),
        jobs_view(final(jobs)@) == annotated(jobs_view(old(jobs)@), assignments_view(r.1@)),
{
    let keys: Vec<String> = merge_keys(jobs, identify);
    let verdicts: Vec<ClusterAssignment> = cluster_keyed_jobs(jobs, &keys, assign);
    (keys, verdicts)
}

/// What is said of a value of [`ClusterInput`] is said of its own fields, each by its name.
pub proof fn grouping_input_shows_its_own_fields(x: &ClusterInput)
    ensures
        x@.key == x.key@,
        x@.title == x.title@,
        x@.company == x.company@,
        x@.url == x.url@,
        x@.source == opt_text(x.source),
        x@.has_description == x.has_description,
        x@.seen_at == x.seen_at,
{
}

/// What is said of a value of [`ClusterAssignment`] is said of its own fields, each by its name.
pub proof fn verdict_shows_its_own_fields(x: &ClusterAssignment)
    ensures
        x@.cluster_id == x.cluster_id@,
        x@.canonical == x.canonical,
        x@.members == members_view(x.members@),
        x@.is_agency == x.is_agency,
{
}

} // verus!
