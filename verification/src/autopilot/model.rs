//! The records of the autopilot store.
use vstd::prelude::*;

use crate::json::{clone_opt_real, opt_real, Real};
use crate::text::{clone_opt_text, clone_texts, opt_text, texts};

verus! {

// ── Parts ───────────────────────────────────────────────────────────────────

/// Where the work of a job is done.
#[derive(Debug, Clone, Copy, PartialEq, Eq, Structural)]
pub enum WorkType {
    Remote,
    Hybrid,
    OnSite,
}

/// Which scoring produced the score of a job.
///
/// `Keyword` is what a job without a successful semantic ranking has.
#[derive(Debug, Clone, Copy, PartialEq, Eq, Structural)]
pub enum ScoreSource {
    /// The share of the résumé's keywords that the posting covers.
    Keyword,
    /// The semantic score combined with the keyword score.
    Combined,
}

impl Default for ScoreSource {
    fn default() -> (r: Self)
        ensures
            r == ScoreSource::Keyword,
    {
        ScoreSource::Keyword
    }
}

/// Whether an autopilot runs.
#[derive(Debug, Clone, Copy, PartialEq, Eq, Structural)]
pub enum AutopilotStatus {
    Active,
    Paused,
    Archived,
}

/// How the latest run of an autopilot went.
#[derive(Debug, Clone, Copy, PartialEq, Eq, Structural)]
pub enum RunStatus {
    InProgress,
    Completed,
    /// Some board returned results and another one failed or was cut short.
    CompletedWithErrors,
    Failed,
    /// The run was still in progress when the program ended.
    Interrupted,
}

/// How many of the best postings an autopilot is to apply to where nothing else is said.
pub fn default_top_n() -> (r: u32)
    ensures
        r == 3,
{
    3
}

/// Whether a job counts as the one to show of its cluster where nothing else is said.
pub fn default_true() -> (r: bool)
    ensures
        r,
{
    true
}

/// The lists of texts, where there is one.
pub open spec fn opt_texts(o: Option<Vec<String>>) -> Option<Seq<Seq<char>>> {
    match o {
        Some(v) => Some(texts(v@)),
        None => None,
    }
}

/// Copies a list of texts, where there is one.
pub fn clone_opt_texts(o: &Option<Vec<String>>) -> (r: Option<Vec<String>>)
    ensures
        opt_texts(r) == opt_texts(*o),
{
    match o {
        Some(v) => Some(clone_texts(v)),
        None => None,
    }
}

/// The work types, where there are any.
pub open spec fn opt_work_types(o: Option<Vec<WorkType>>) -> Option<Seq<WorkType>> {
    match o {
        Some(v) => Some(v@),
        None => None,
    }
}

/// Copies the work types, where there are any.
pub fn clone_opt_work_types(o: &Option<Vec<WorkType>>) -> (r: Option<Vec<WorkType>>)
    ensures
        opt_work_types(r) == opt_work_types(*o),
{
    match o {
        None => None,
        Some(v) => {
            let mut out: Vec<WorkType> = Vec::new();
            let mut i: usize = 0;
            while i < v.len()
                invariant
                    i <= v@.len(),
                    out@ == v@.take(i as int),
                decreases v@.len() - i,
            {
                out.push(v[i]);
                assert(v@.take(i as int + 1) =~= v@.take(i as int).push(v@[i as int]));
                i = i + 1;
            }
            assert(v@.take(v@.len() as int) =~= v@);
            Some(out)
        },
    }
}

/// How far a posting can be trusted.
#[derive(Debug, PartialEq, Eq)]
pub struct TrustAssessment {
    /// From 0 to 100.
    pub score: u8,
    /// The wire name of the level.
    pub level: String,
    /// The wire names of what tells against the posting.
    pub flags: Vec<String>,
}

/// [`TrustAssessment`] as values.
#[verifier::ext_equal]
pub struct TrustView {
    pub score: u8,
    pub level: Seq<char>,
    pub flags: Seq<Seq<char>>,
}

impl View for TrustAssessment {
    type V = TrustView;

    open spec fn view(&self) -> TrustView {
        TrustView {
            score: self.score,
            level: self.level@,
            flags: texts(self.flags@),
        }
    }
}

impl Clone for TrustAssessment {
    fn clone(&self) -> (r: Self)
        ensures
            r@ == self@,
    {
        TrustAssessment {
            score: self.score,
            level: self.level.clone(),
            flags: clone_texts(&self.flags),
        }
    }
}

/// A trust assessment as values, where there is one.
pub open spec fn opt_trust(o: Option<TrustAssessment>) -> Option<TrustView> {
    match o {
        Some(x) => Some(x@),
        None => None,
    }
}

/// Copies a trust assessment, where there is one.
pub fn clone_opt_trust(o: &Option<TrustAssessment>) -> (r: Option<TrustAssessment>)
    ensures
        opt_trust(r) == opt_trust(*o),
{
    match o {
        Some(x) => Some(x.clone()),
        None => None,
    }
}

/// A posting of a cluster.
#[derive(Debug, PartialEq, Eq)]
pub struct ClusterMemberRef {
    pub key: String,
    pub board: Option<String>,
    pub url: String,
}

/// [`ClusterMemberRef`] as values.
#[verifier::ext_equal]
pub struct MemberView {
    pub key: Seq<char>,
    pub board: Option<Seq<char>>,
    pub url: Seq<char>,
}

impl View for ClusterMemberRef {
    type V = MemberView;

    open spec fn view(&self) -> MemberView {
        MemberView {
            key: self.key@,
            board: opt_text(self.board),
            url: self.url@,
        }
    }
}

impl Clone for ClusterMemberRef {
    fn clone(&self) -> (r: Self)
        ensures
            r@ == self@,
    {
        ClusterMemberRef {
            key: self.key.clone(),
            board: clone_opt_text(&self.board),
            url: self.url.clone(),
        }
    }
}

/// The members of a list as values.
pub open spec fn members_view(v: Seq<ClusterMemberRef>) -> Seq<MemberView> {
    Seq::new(v.len(), |i: int| v[i]@)
}

/// Copies a list of members.
pub fn clone_members(v: &Vec<ClusterMemberRef>) -> (r: Vec<ClusterMemberRef>)
    ensures
        members_view(r@) == members_view(v@),
{
    let mut out: Vec<ClusterMemberRef> = Vec::new();
    let mut i: usize = 0;
    while i < v.len()
        invariant
            i <= v@.len(),
            out@.len() == i,
            forall|k: int| 0 <= k < i ==> (#[trigger] out@[k])@ == v@[k]@,
        decreases v@.len() - i,
    {
        out.push(v[i].clone());
        i = i + 1;
    }
    assert(members_view(out@) =~= members_view(v@));
    out
}

/// How a board has been doing over the runs of this machine.
#[derive(Debug, PartialEq, Eq)]
pub struct BoardHealth {
    /// The wire name of the verdict.
    pub status: String,
    pub consecutive_failures: u32,
    pub last_success_at: Option<u64>,
    pub last_verified_at: Option<u64>,
    pub failing_since: Option<u64>,
    pub last_error: Option<String>,
    pub last_run_id: Option<String>,
    pub verified_runs: u32,
    pub failed_runs: u32,
}

/// [`BoardHealth`] as values.
#[verifier::ext_equal]
pub struct HealthView {
    pub status: Seq<char>,
    pub consecutive_failures: u32,
    pub last_success_at: Option<u64>,
    pub last_verified_at: Option<u64>,
    pub failing_since: Option<u64>,
    pub last_error: Option<Seq<char>>,
    pub last_run_id: Option<Seq<char>>,
    pub verified_runs: u32,
    pub failed_runs: u32,
}

impl View for BoardHealth {
    type V = HealthView;

    open spec fn view(&self) -> HealthView {
        HealthView {
            status: self.status@,
            consecutive_failures: self.consecutive_failures,
            last_success_at: self.last_success_at,
            last_verified_at: self.last_verified_at,
            failing_since: self.failing_since,
            last_error: opt_text(self.last_error),
            last_run_id: opt_text(self.last_run_id),
            verified_runs: self.verified_runs,
            failed_runs: self.failed_runs,
        }
    }
}

impl Clone for BoardHealth {
    fn clone(&self) -> (r: Self)
        ensures
            r@ == self@,
    {
        BoardHealth {
            status: self.status.clone(),
            consecutive_failures: self.consecutive_failures,
            last_success_at: self.last_success_at,
            last_verified_at: self.last_verified_at,
            failing_since: self.failing_since,
            last_error: clone_opt_text(&self.last_error),
            last_run_id: clone_opt_text(&self.last_run_id),
            verified_runs: self.verified_runs,
            failed_runs: self.failed_runs,
        }
    }
}

/// A verdict on a board as values, where there is one.
pub open spec fn opt_health(o: Option<BoardHealth>) -> Option<HealthView> {
    match o {
        Some(x) => Some(x@),
        None => None,
    }
}

/// Copies a verdict on a board, where there is one.
pub fn clone_opt_health(o: &Option<BoardHealth>) -> (r: Option<BoardHealth>)
    ensures
        opt_health(r) == opt_health(*o),
{
    match o {
        Some(x) => Some(x.clone()),
        None => None,
    }
}

/// How a board fared in a run.
#[derive(Debug, PartialEq, Eq)]
pub struct BoardScrapeSummary {
    pub board: String,
    /// How many postings it returned.
    pub count: usize,
    /// Why it failed.
    pub error: Option<String>,
    /// Why it was not asked.
    pub skipped: Option<String>,
    /// Why it returned only a part.
    pub truncated: Option<String>,
    pub notes: Vec<String>,
    /// How the board is doing over several runs. It is worked out for display and never kept.
    pub health: Option<BoardHealth>,
}

/// [`BoardScrapeSummary`] as values.
#[verifier::ext_equal]
pub struct SummaryView {
    pub board: Seq<char>,
    pub count: nat,
    pub error: Option<Seq<char>>,
    pub skipped: Option<Seq<char>>,
    pub truncated: Option<Seq<char>>,
    pub notes: Seq<Seq<char>>,
    pub health: Option<HealthView>,
}

impl View for BoardScrapeSummary {
    type V = SummaryView;

    open spec fn view(&self) -> SummaryView {
        SummaryView {
            board: self.board@,
            count: self.count as nat,
            error: opt_text(self.error),
            skipped: opt_text(self.skipped),
            truncated: opt_text(self.truncated),
            notes: texts(self.notes@),
            health: opt_health(self.health),
        }
    }
}

impl Clone for BoardScrapeSummary {
    fn clone(&self) -> (r: Self)
        ensures
            r@ == self@,
    {
        BoardScrapeSummary {
            board: self.board.clone(),
            count: self.count,
            error: clone_opt_text(&self.error),
            skipped: clone_opt_text(&self.skipped),
            truncated: clone_opt_text(&self.truncated),
            notes: clone_texts(&self.notes),
            health: clone_opt_health(&self.health),
        }
    }
}

/// The summaries of a list as values.
pub open spec fn summaries_view(v: Seq<BoardScrapeSummary>) -> Seq<SummaryView> {
    Seq::new(v.len(), |i: int| v[i]@)
}

/// Copies a list of summaries.
pub fn clone_summaries(v: &Vec<BoardScrapeSummary>) -> (r: Vec<BoardScrapeSummary>)
    ensures
        summaries_view(r@) == summaries_view(v@),
{
    let mut out: Vec<BoardScrapeSummary> = Vec::new();
    let mut i: usize = 0;
    while i < v.len()
        invariant
            i <= v@.len(),
            out@.len() == i,
            forall|k: int| 0 <= k < i ==> (#[trigger] out@[k])@ == v@[k]@,
        decreases v@.len() - i,
    {
        out.push(v[i].clone());
        i = i + 1;
    }
    assert(summaries_view(out@) =~= summaries_view(v@));
    out
}

// ── Records ─────────────────────────────────────────────────────────────────

/// What an autopilot searches for.
#[derive(Debug, PartialEq, Eq)]
pub struct AutopilotTarget {
    /// The boards to search.
    pub boards: Vec<String>,
    pub query: String,
    pub location: Option<String>,
    pub country_code: Option<String>,
    /// The wanted work types; none, or an empty list, means any.
    pub work_types: Option<Vec<WorkType>>,
    pub pages: u32,
    pub date_filter: Option<String>,
    /// How many of the best postings to apply to.
    pub top_n: u32,
    /// Whether a run searches only the companies that the user watches.
    pub watched_companies_only: Option<bool>,
}

/// [`AutopilotTarget`] as values.
#[verifier::ext_equal]
pub struct TargetView {
    pub boards: Seq<Seq<char>>,
    pub query: Seq<char>,
    pub location: Option<Seq<char>>,
    pub country_code: Option<Seq<char>>,
    pub work_types: Option<Seq<WorkType>>,
    pub pages: u32,
    pub date_filter: Option<Seq<char>>,
    pub top_n: u32,
    pub watched_companies_only: Option<bool>,
}

impl View for AutopilotTarget {
    type V = TargetView;

    open spec fn view(&self) -> TargetView {
        TargetView {
            boards: texts(self.boards@),
            query: self.query@,
            location: opt_text(self.location),
            country_code: opt_text(self.country_code),
            work_types: opt_work_types(self.work_types),
            pages: self.pages,
            date_filter: opt_text(self.date_filter),
            top_n: self.top_n,
            watched_companies_only: self.watched_companies_only,
        }
    }
}

impl Clone for AutopilotTarget {
    fn clone(&self) -> (r: Self)
        ensures
            r@ == self@,
    {
        AutopilotTarget {
            boards: clone_texts(&self.boards),
            query: self.query.clone(),
            location: clone_opt_text(&self.location),
            country_code: clone_opt_text(&self.country_code),
            work_types: clone_opt_work_types(&self.work_types),
            pages: self.pages,
            date_filter: clone_opt_text(&self.date_filter),
            top_n: self.top_n,
            watched_companies_only: self.watched_companies_only,
        }
    }
}

/// Which postings an autopilot keeps.
#[derive(Debug, PartialEq, Eq)]
pub struct AutopilotFilter {
    pub min_match_score: Real,
    pub keywords: Option<Vec<String>>,
    pub exclude_keywords: Option<Vec<String>>,
}

/// [`AutopilotFilter`] as values.
#[verifier::ext_equal]
pub struct FilterView {
    pub min_match_score: Seq<char>,
    pub keywords: Option<Seq<Seq<char>>>,
    pub exclude_keywords: Option<Seq<Seq<char>>>,
}

impl View for AutopilotFilter {
    type V = FilterView;

    open spec fn view(&self) -> FilterView {
        FilterView {
            min_match_score: self.min_match_score@,
            keywords: opt_texts(self.keywords),
            exclude_keywords: opt_texts(self.exclude_keywords),
        }
    }
}

impl Clone for AutopilotFilter {
    fn clone(&self) -> (r: Self)
        ensures
            r@ == self@,
    {
        AutopilotFilter {
            min_match_score: self.min_match_score.clone(),
            keywords: clone_opt_texts(&self.keywords),
            exclude_keywords: clone_opt_texts(&self.exclude_keywords),
        }
    }
}

/// A posting that a run of an autopilot found.
#[derive(Debug, PartialEq, Eq)]
pub struct FoundJob {
    pub title: String,
    pub company: String,
    pub url: String,
    pub location: Option<String>,
    /// The board that the posting came from.
    pub board: Option<String>,
    pub description: Option<String>,
    pub salary_min: Option<Real>,
    pub salary_max: Option<Real>,
    pub salary_currency: Option<String>,
    /// From 0 to 100, where the posting was ranked.
    pub score: Option<Real>,
    /// Whether the score was computed over a cut description.
    pub score_provisional: bool,
    /// What computed the score.
    pub score_source: ScoreSource,
    /// When the posting was first found, in milliseconds since the epoch.
    pub found_at: u64,
    /// When the posting was published, as the board reports it.
    pub posted_at: Option<i64>,
    /// Whether the latest run found the posting first.
    pub is_new: bool,
    /// Whether the user applied; filled in for display and kept as `false`.
    pub applied: bool,
    pub trust: Option<TrustAssessment>,
    /// A note that a model wrote on the posting.
    pub assistant_notes: Option<String>,
    /// The cluster of the posting.
    pub cluster_id: Option<String>,
    /// Whether the posting is the one to show of its cluster.
    pub cluster_canonical: bool,
    /// The postings of the cluster.
    pub cluster_members: Vec<ClusterMemberRef>,
    /// Whether the company is a staffing agency.
    pub is_agency: bool,
}

/// [`FoundJob`] as values.
#[verifier::ext_equal]
pub struct FoundJobView {
    pub title: Seq<char>,
    pub company: Seq<char>,
    pub url: Seq<char>,
    pub location: Option<Seq<char>>,
    pub board: Option<Seq<char>>,
    pub description: Option<Seq<char>>,
    pub salary_min: Option<Seq<char>>,
    pub salary_max: Option<Seq<char>>,
    pub salary_currency: Option<Seq<char>>,
    pub score: Option<Seq<char>>,
    pub score_provisional: bool,
    pub score_source: ScoreSource,
    pub found_at: u64,
    pub posted_at: Option<i64>,
    pub is_new: bool,
    pub applied: bool,
    pub trust: Option<TrustView>,
    pub assistant_notes: Option<Seq<char>>,
    pub cluster_id: Option<Seq<char>>,
    pub cluster_canonical: bool,
    pub cluster_members: Seq<MemberView>,
    pub is_agency: bool,
}

impl View for FoundJob {
    type V = FoundJobView;

    open spec fn view(&self) -> FoundJobView {
        FoundJobView {
            title: self.title@,
            company: self.company@,
            url: self.url@,
            location: opt_text(self.location),
            board: opt_text(self.board),
            description: opt_text(self.description),
            salary_min: opt_real(self.salary_min),
            salary_max: opt_real(self.salary_max),
            salary_currency: opt_text(self.salary_currency),
            score: opt_real(self.score),
            score_provisional: self.score_provisional,
            score_source: self.score_source,
            found_at: self.found_at,
            posted_at: self.posted_at,
            is_new: self.is_new,
            applied: self.applied,
            trust: opt_trust(self.trust),
            assistant_notes: opt_text(self.assistant_notes),
            cluster_id: opt_text(self.cluster_id),
            cluster_canonical: self.cluster_canonical,
            cluster_members: members_view(self.cluster_members@),
            is_agency: self.is_agency,
        }
    }
}

impl Clone for FoundJob {
    fn clone(&self) -> (r: Self)
        ensures
            r@ == self@,
    {
        FoundJob {
            title: self.title.clone(),
            company: self.company.clone(),
            url: self.url.clone(),
            location: clone_opt_text(&self.location),
            board: clone_opt_text(&self.board),
            description: clone_opt_text(&self.description),
            salary_min: clone_opt_real(&self.salary_min),
            salary_max: clone_opt_real(&self.salary_max),
            salary_currency: clone_opt_text(&self.salary_currency),
            score: clone_opt_real(&self.score),
            score_provisional: self.score_provisional,
            score_source: self.score_source,
            found_at: self.found_at,
            posted_at: self.posted_at,
            is_new: self.is_new,
            applied: self.applied,
            trust: clone_opt_trust(&self.trust),
            assistant_notes: clone_opt_text(&self.assistant_notes),
            cluster_id: clone_opt_text(&self.cluster_id),
            cluster_canonical: self.cluster_canonical,
            cluster_members: clone_members(&self.cluster_members),
            is_agency: self.is_agency,
        }
    }
}

/// The jobs of a list as values.
pub open spec fn jobs_view(v: Seq<FoundJob>) -> Seq<FoundJobView> {
    Seq::new(v.len(), |i: int| v[i]@)
}

/// Copies a list of jobs.
pub fn clone_jobs(v: &Vec<FoundJob>) -> (r: Vec<FoundJob>)
    ensures
        jobs_view(r@) == jobs_view(v@),
{
    let mut out: Vec<FoundJob> = Vec::new();
    let mut i: usize = 0;
    while i < v.len()
        invariant
            i <= v@.len(),
            out@.len() == i,
            forall|k: int| 0 <= k < i ==> (#[trigger] out@[k])@ == v@[k]@,
        decreases v@.len() - i,
    {
        out.push(v[i].clone());
        i = i + 1;
    }
    assert(jobs_view(out@) =~= jobs_view(v@));
    out
}

/// A saved search and what it has found.
#[derive(Debug, PartialEq, Eq)]
pub struct Autopilot {
    pub id: String,
    pub name: String,
    pub status: AutopilotStatus,
    pub target: AutopilotTarget,
    pub filter: AutopilotFilter,
    pub schedule: String,
    /// The hour of the day, from 0 to 23, at which it runs.
    pub schedule_hour: Option<u32>,
    /// The minute of the hour, from 0 to 59, at which it runs.
    pub schedule_minute: Option<u32>,
    pub resume_text: Option<String>,
    pub cover_letter: Option<String>,
    /// Whether a model writes notes on the best postings of a run.
    pub assistant: bool,
    pub assistant_provider: Option<String>,
    pub assistant_model: Option<String>,
    pub assistant_base_url: Option<String>,
    pub total_found: u32,
    pub total_applied: u32,
    pub found_jobs: Vec<FoundJob>,
    /// How the latest run went; none before the first.
    pub run_status: Option<RunStatus>,
    /// How each board fared in the latest run.
    pub last_run_summaries: Vec<BoardScrapeSummary>,
    pub last_run_at: Option<u64>,
    pub created_at: u64,
    pub updated_at: u64,
}

/// [`Autopilot`] as values.
#[verifier::ext_equal]
pub struct AutopilotView {
    pub id: Seq<char>,
    pub name: Seq<char>,
    pub status: AutopilotStatus,
    pub target: TargetView,
    pub filter: FilterView,
    pub schedule: Seq<char>,
    pub schedule_hour: Option<u32>,
    pub schedule_minute: Option<u32>,
    pub resume_text: Option<Seq<char>>,
    pub cover_letter: Option<Seq<char>>,
    pub assistant: bool,
    pub assistant_provider: Option<Seq<char>>,
    pub assistant_model: Option<Seq<char>>,
    pub assistant_base_url: Option<Seq<char>>,
    pub total_found: u32,
    pub total_applied: u32,
    pub found_jobs: Seq<FoundJobView>,
    pub run_status: Option<RunStatus>,
    pub last_run_summaries: Seq<SummaryView>,
    pub last_run_at: Option<u64>,
    pub created_at: u64,
    pub updated_at: u64,
}

impl View for Autopilot {
    type V = AutopilotView;

    open spec fn view(&self) -> AutopilotView {
        AutopilotView {
            id: self.id@,
            name: self.name@,
            status: self.status,
            target: self.target@,
            filter: self.filter@,
            schedule: self.schedule@,
            schedule_hour: self.schedule_hour,
            schedule_minute: self.schedule_minute,
            resume_text: opt_text(self.resume_text),
            cover_letter: opt_text(self.cover_letter),
            assistant: self.assistant,
            assistant_provider: opt_text(self.assistant_provider),
            assistant_model: opt_text(self.assistant_model),
            assistant_base_url: opt_text(self.assistant_base_url),
            total_found: self.total_found,
            total_applied: self.total_applied,
            found_jobs: jobs_view(self.found_jobs@),
            run_status: self.run_status,
            last_run_summaries: summaries_view(self.last_run_summaries@),
            last_run_at: self.last_run_at,
            created_at: self.created_at,
            updated_at: self.updated_at,
        }
    }
}

impl Clone for Autopilot {
    fn clone(&self) -> (r: Self)
        ensures
            r@ == self@,
    {
        Autopilot {
            id: self.id.clone(),
            name: self.name.clone(),
            status: self.status,
            target: self.target.clone(),
            filter: self.filter.clone(),
            schedule: self.schedule.clone(),
            schedule_hour: self.schedule_hour,
            schedule_minute: self.schedule_minute,
            resume_text: clone_opt_text(&self.resume_text),
            cover_letter: clone_opt_text(&self.cover_letter),
            assistant: self.assistant,
            assistant_provider: clone_opt_text(&self.assistant_provider),
            assistant_model: clone_opt_text(&self.assistant_model),
            assistant_base_url: clone_opt_text(&self.assistant_base_url),
            total_found: self.total_found,
            total_applied: self.total_applied,
            found_jobs: clone_jobs(&self.found_jobs),
            run_status: self.run_status,
            last_run_summaries: clone_summaries(&self.last_run_summaries),
            last_run_at: self.last_run_at,
            created_at: self.created_at,
            updated_at: self.updated_at,
        }
    }
}

/// The records of a list as values.
pub open spec fn autopilots_view(v: Seq<Autopilot>) -> Seq<AutopilotView> {
    Seq::new(v.len(), |i: int| v[i]@)
}

/// What is said of a value of [`TrustAssessment`] is said of its own fields, each by its name.
pub proof fn trust_shows_its_own_fields(x: &TrustAssessment)
    ensures
        x@.score == x.score,
        x@.level == x.level@,
        x@.flags == texts(x.flags@),
{
}

/// What is said of a value of [`ClusterMemberRef`] is said of its own fields, each by its name.
pub proof fn member_shows_its_own_fields(x: &ClusterMemberRef)
    ensures
        x@.key == x.key@,
        x@.board == opt_text(x.board),
        x@.url == x.url@,
{
}

/// What is said of a value of [`BoardHealth`] is said of its own fields, each by its name.
pub proof fn health_shows_its_own_fields(x: &BoardHealth)
    ensures
        x@.status == x.status@,
        x@.consecutive_failures == x.consecutive_failures,
        x@.last_success_at == x.last_success_at,
        x@.last_verified_at == x.last_verified_at,
        x@.failing_since == x.failing_since,
        x@.last_error == opt_text(x.last_error),
        x@.last_run_id == opt_text(x.last_run_id),
        x@.verified_runs == x.verified_runs,
        x@.failed_runs == x.failed_runs,
{
}

/// What is said of a value of [`BoardScrapeSummary`] is said of its own fields, each by its name.
pub proof fn summary_shows_its_own_fields(x: &BoardScrapeSummary)
    ensures
        x@.board == x.board@,
        x@.count == x.count as nat,
        x@.error == opt_text(x.error),
        x@.skipped == opt_text(x.skipped),
        x@.truncated == opt_text(x.truncated),
        x@.notes == texts(x.notes@),
        x@.health == opt_health(x.health),
{
}

/// What is said of a value of [`AutopilotTarget`] is said of its own fields, each by its name.
pub proof fn target_shows_its_own_fields(x: &AutopilotTarget)
    ensures
        x@.boards == texts(x.boards@),
        x@.query == x.query@,
        x@.location == opt_text(x.location),
        x@.country_code == opt_text(x.country_code),
        x@.work_types == opt_work_types(x.work_types),
        x@.pages == x.pages,
        x@.date_filter == opt_text(x.date_filter),
        x@.top_n == x.top_n,
        x@.watched_companies_only == x.watched_companies_only,
{
}

/// What is said of a value of [`AutopilotFilter`] is said of its own fields, each by its name.
pub proof fn filter_shows_its_own_fields(x: &AutopilotFilter)
    ensures
        x@.min_match_score == x.min_match_score@,
        x@.keywords == opt_texts(x.keywords),
        x@.exclude_keywords == opt_texts(x.exclude_keywords),
{
}

/// What is said of a value of [`FoundJob`] is said of its own fields, each by its name.
pub proof fn job_shows_its_own_fields(x: &FoundJob)
    ensures
        x@.title == x.title@,
        x@.company == x.company@,
        x@.url == x.url@,
        x@.location == opt_text(x.location),
        x@.board == opt_text(x.board),
        x@.description == opt_text(x.description),
        x@.salary_min == opt_real(x.salary_min),
        x@.salary_max == opt_real(x.salary_max),
        x@.salary_currency == opt_text(x.salary_currency),
        x@.score == opt_real(x.score),
        x@.score_provisional == x.score_provisional,
        x@.score_source == x.score_source,
        x@.found_at == x.found_at,
        x@.posted_at == x.posted_at,
        x@.is_new == x.is_new,
        x@.applied == x.applied,
        x@.trust == opt_trust(x.trust),
        x@.assistant_notes == opt_text(x.assistant_notes),
        x@.cluster_id == opt_text(x.cluster_id),
        x@.cluster_canonical == x.cluster_canonical,
        x@.cluster_members == members_view(x.cluster_members@),
        x@.is_agency == x.is_agency,
{
}

/// What is said of a value of [`Autopilot`] is said of its own fields, each by its name.
pub proof fn record_shows_its_own_fields(x: &Autopilot)
    ensures
        x@.id == x.id@,
        x@.name == x.name@,
        x@.status == x.status,
        x@.target == x.target@,
        x@.filter == x.filter@,
        x@.schedule == x.schedule@,
        x@.schedule_hour == x.schedule_hour,
        x@.schedule_minute == x.schedule_minute,
        x@.resume_text == opt_text(x.resume_text),
        x@.cover_letter == opt_text(x.cover_letter),
        x@.assistant == x.assistant,
        x@.assistant_provider == opt_text(x.assistant_provider),
        x@.assistant_model == opt_text(x.assistant_model),
        x@.assistant_base_url == opt_text(x.assistant_base_url),
        x@.total_found == x.total_found,
        x@.total_applied == x.total_applied,
        x@.found_jobs == jobs_view(x.found_jobs@),
        x@.run_status == x.run_status,
        x@.last_run_summaries == summaries_view(x.last_run_summaries@),
        x@.last_run_at == x.last_run_at,
        x@.created_at == x.created_at,
        x@.updated_at == x.updated_at,
{
}

} // verus!
