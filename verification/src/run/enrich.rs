//! Filling in the descriptions that a LinkedIn search does not carry.
use vstd::prelude::*;

use crate::autopilot::merge::description_blank;
use crate::autopilot::model::{jobs_view, FoundJob, FoundJobView};
use crate::posting::JobPosting;
use crate::text::{is_blank, list_contains, opt_text, str_eq, texts, white};

verus! {

/// The most descriptions that a run looks up.
pub const LINKEDIN_ENRICH_MAX: usize = 15;

/// Whether a job came from LinkedIn and has no description yet.
pub open spec fn needs_description(job: FoundJobView) -> bool {
    job.board == Some("linkedin"@) && description_blank(job.description)
}

/// The addresses of the jobs that need a description, each once, in the order of the jobs.
pub open spec fn wanting(jobs: Seq<FoundJobView>) -> Seq<Seq<char>>
    decreases jobs.len(),
{
    if jobs.len() == 0 {
        Seq::empty()
    } else {
        let done = wanting(jobs.drop_last());
        if needs_description(jobs.last()) && !done.contains(jobs.last().url) {
            done.push(jobs.last().url)
        } else {
            done
        }
    }
}

/// The addresses to look up in a run.
pub open spec fn enrichment_targets(jobs: Seq<FoundJobView>) -> Seq<Seq<char>> {
    if wanting(jobs).len() <= LINKEDIN_ENRICH_MAX {
        wanting(jobs)
    } else {
        wanting(jobs).take(LINKEDIN_ENRICH_MAX as int)
    }
}

proof fn lemma_wanting_grows(jobs: Seq<FoundJobView>, n: int)
    requires
        0 <= n <= jobs.len(),
    ensures
        wanting(jobs.take(n)).is_prefix_of(wanting(jobs)),
    decreases jobs.len() - n,
{
    if n == jobs.len() {
        assert(jobs.take(n) =~= jobs);
    } else {
        lemma_wanting_grows(jobs, n + 1);
        assert(jobs.take(n + 1).drop_last() =~= jobs.take(n));
        let a = wanting(jobs.take(n));
        let b = wanting(jobs.take(n + 1));
        let c = wanting(jobs);
        assert(a.is_prefix_of(b));
        assert forall|i: int| 0 <= i < a.len() implies a[i] == #[trigger] c.take(
            a.len() as int,
        )[i] by {
            assert(b == c.take(b.len() as int));
            assert(a == b.take(a.len() as int));
        }
        assert(a =~= c.take(a.len() as int));
    }
}

/// The addresses of the jobs from LinkedIn that have no description, each once, at most fifteen.
/// A job that an earlier run found counts too, so that a failed look-up is tried again.
pub fn select_linkedin_enrichment_targets(found_jobs: &[FoundJob]) -> (r: Vec<String>)
    ensures
        texts(r@) == enrichment_targets(jobs_view(found_jobs@)),
{
    let ghost jv = jobs_view(found_jobs@);
    let mut out: Vec<String> = Vec::new();
    let mut i: usize = 0;
    assert(jv.take(0) =~= Seq::empty());
    assert(texts(out@) =~= Seq::empty());
    while i < found_jobs.len() && out.len() < LINKEDIN_ENRICH_MAX
        invariant
            i <= found_jobs@.len(),
            jv == jobs_view(found_jobs@),
            texts(out@) == wanting(jv.take(i as int)),
            out@.len() <= LINKEDIN_ENRICH_MAX,
        decreases found_jobs@.len() - i,
    {
        let job: &FoundJob = &found_jobs[i];
        let ghost before = texts(out@);
        proof {
            assert(jv.take(i as int + 1).drop_last() =~= jv.take(i as int));
            assert(jv.take(i as int + 1).last() == job@);
        }
        let from_linkedin: bool = match &job.board {
            Some(b) => str_eq(b.as_str(), "linkedin"),
            None => false,
        };
        let bare: bool = match &job.description {
            Some(d) => is_blank(d.as_str()),
            None => true,
        };
        if from_linkedin && bare && !list_contains(&out, job.url.as_str()) {
            out.push(job.url.clone());
            assert(texts(out@) =~= before.push(job.url@));
        }
        i = i + 1;
    }
    proof {
        lemma_wanting_grows(jv, i as int);
        if i == jv.len() {
            assert(jv.take(i as int) =~= jv);
        } else {
            assert(texts(out@).len() == LINKEDIN_ENRICH_MAX);
            assert(texts(out@) =~= wanting(jv).take(LINKEDIN_ENRICH_MAX as int));
        }
    }
    out
}

/// What a look-up brought.
#[derive(Debug, PartialEq, Eq)]
pub enum EnrichOutcome {
    /// A description to keep.
    Description(String),
    /// Nothing to keep this time.
    Skip,
}

/// What a look-up brought: a description that is not blank, or nothing. A failed look-up, one
/// without a posting and one without a description are all the same.
pub fn classify_resolution<E>(result: Result<Option<JobPosting>, E>) -> (r: EnrichOutcome)
    ensures
        match r {
            EnrichOutcome::Description(d) => result matches Ok(Some(p)) && opt_text(p.description)
                == Some(d@) && !description_blank(Some(d@)),
            EnrichOutcome::Skip => result matches Ok(Some(p)) ==> description_blank(
                opt_text(p.description),
            ),
        },
{
    match result {
        Ok(Some(p)) => match p.description {
            Some(d) => if is_blank(d.as_str()) {
                EnrichOutcome::Skip
            } else {
                EnrichOutcome::Description(d)
            },
            None => EnrichOutcome::Skip,
        },
        Ok(None) => EnrichOutcome::Skip,
        Err(_) => EnrichOutcome::Skip,
    }
}

/// The addresses to look up are distinct, at most fifteen, and each is that of a LinkedIn job
/// without a description; where there are fewer than fifteen, every such job is among them.
pub proof fn enrichment_targets_are_wanting_jobs(jobs: Seq<FoundJobView>)
    ensures
        enrichment_targets(jobs).len() <= LINKEDIN_ENRICH_MAX,
        enrichment_targets(jobs).no_duplicates(),
        forall|url: Seq<char>| #[trigger]
            enrichment_targets(jobs).contains(url) ==> exists|i: int|
                0 <= i < jobs.len() && needs_description(#[trigger] jobs[i]) && jobs[i].url == url,
        enrichment_targets(jobs).len() < LINKEDIN_ENRICH_MAX ==> forall|i: int|
            0 <= i < jobs.len() && needs_description(#[trigger] jobs[i])
                ==> enrichment_targets(jobs).contains(jobs[i].url),
{
    lemma_wanting(jobs);
    let all = wanting(jobs);
    let some = enrichment_targets(jobs);
    assert forall|url: Seq<char>| #[trigger] some.contains(url) implies all.contains(url) by {
        let k = choose|k: int| 0 <= k < some.len() && some[k] == url;
        assert(all[k] == url);
    }
}

proof fn lemma_wanting(jobs: Seq<FoundJobView>)
    ensures
        wanting(jobs).no_duplicates(),
        forall|url: Seq<char>| #[trigger]
            wanting(jobs).contains(url) ==> exists|i: int|
                0 <= i < jobs.len() && needs_description(#[trigger] jobs[i]) && jobs[i].url == url,
        forall|i: int|
            0 <= i < jobs.len() && needs_description(#[trigger] jobs[i]) ==> wanting(
                jobs,
            ).contains(jobs[i].url),
    decreases jobs.len(),
{
    if jobs.len() > 0 {
        let rest = jobs.drop_last();
        let done = wanting(rest);
        let all = wanting(jobs);
        let n = jobs.len() - 1;
        lemma_wanting(rest);
        assert forall|url: Seq<char>| #[trigger] all.contains(url) implies exists|i: int|
            0 <= i < jobs.len() && needs_description(#[trigger] jobs[i]) && jobs[i].url == url by {
            if done.contains(url) {
                let i = choose|i: int|
                    0 <= i < rest.len() && needs_description(#[trigger] rest[i]) && rest[i].url
                        == url;
                assert(needs_description(jobs[i]));
            } else {
                let k = choose|k: int| 0 <= k < all.len() && all[k] == url;
                if k < done.len() {
                    assert(done[k] == url);
                }
                assert(needs_description(jobs[n]));
            }
        }
        assert forall|i: int|
            0 <= i < jobs.len() && needs_description(#[trigger] jobs[i]) implies all.contains(
            jobs[i].url,
        ) by {
            if i < n {
                assert(rest[i] == jobs[i]);
                let k = choose|k: int| 0 <= k < done.len() && done[k] == rest[i].url;
                assert(all[k] == jobs[i].url);
            } else if done.contains(jobs[n].url) {
                let k = choose|k: int| 0 <= k < done.len() && done[k] == jobs[n].url;
                assert(all[k] == jobs[n].url);
            } else {
                assert(all[done.len() as int] == jobs[n].url);
            }
        }
    }
}

// ── The pass over the addresses ─────────────────────────────────────────────

/// What a pass waits for.
#[derive(Debug, Clone, Copy, PartialEq, Eq, Structural)]
pub enum EnrichPhase {
    /// A free place among the requests to LinkedIn.
    Slot,
    /// The posting of an address.
    Lookup,
    /// The request to be counted.
    Count,
    /// The description to be kept.
    Keep,
    /// Nothing.
    Over,
}

/// What to do next.
#[derive(Debug, PartialEq, Eq)]
pub enum EnrichStep {
    /// Wait for a free place among the requests.
    WaitForSlot,
    /// Look up the posting of this address.
    Resolve(String),
    /// Count a request, whatever it brought.
    RecordRequest,
    /// Keep this description for this address.
    WriteBack { url: String, description: String },
    /// The pass is over.
    Done,
}

/// [`EnrichStep`] as values.
pub enum EnrichStepView {
    WaitForSlot,
    Resolve(Seq<char>),
    RecordRequest,
    WriteBack(Seq<char>, Seq<char>),
    Done,
}

impl View for EnrichStep {
    type V = EnrichStepView;

    open spec fn view(&self) -> EnrichStepView {
        match self {
            EnrichStep::WaitForSlot => EnrichStepView::WaitForSlot,
            EnrichStep::Resolve(url) => EnrichStepView::Resolve(url@),
            EnrichStep::RecordRequest => EnrichStepView::RecordRequest,
            EnrichStep::WriteBack { url, description } => EnrichStepView::WriteBack(
                url@,
                description@,
            ),
            EnrichStep::Done => EnrichStepView::Done,
        }
    }
}

/// A pass over addresses.
pub struct EnrichRun {
    urls: Vec<String>,
    at: usize,
    phase: EnrichPhase,
    found: Option<String>,
    enriched: usize,
}

/// [`EnrichRun`] as values: the addresses, how many are done, what it waits for, what the latest
/// look-up brought and how many descriptions were kept.
#[verifier::ext_equal]
pub struct EnrichState {
    pub urls: Seq<Seq<char>>,
    pub at: nat,
    pub phase: EnrichPhase,
    pub found: Option<Seq<char>>,
    pub enriched: nat,
}

impl View for EnrichRun {
    type V = EnrichState;

    closed spec fn view(&self) -> EnrichState {
        EnrichState {
            urls: texts(self.urls@),
            at: self.at as nat,
            phase: self.phase,
            found: opt_text(self.found),
            enriched: self.enriched as nat,
        }
    }
}

impl EnrichState {
    /// What holds of a pass at every time: it is at one of the addresses until it is over, and
    /// has kept at most one description for each address that is done.
    pub open spec fn valid(self) -> bool {
        &&& self.urls.len() <= usize::MAX
        &&& self.at <= self.urls.len()
        &&& (self.phase == EnrichPhase::Over <==> self.at == self.urls.len())
        &&& self.phase == EnrichPhase::Keep ==> self.found is Some
        &&& self.enriched <= self.at
    }

    /// The turn after an address is done.
    pub open spec fn to_next(self) -> (EnrichState, EnrichStepView) {
        if self.at + 1 < self.urls.len() {
            (
                EnrichState { at: self.at + 1, phase: EnrichPhase::Slot, found: None, ..self },
                EnrichStepView::WaitForSlot,
            )
        } else {
            (
                EnrichState { at: self.at + 1, phase: EnrichPhase::Over, found: None, ..self },
                EnrichStepView::Done,
            )
        }
    }

    /// The turn after a request was counted.
    pub open spec fn after_count(self) -> (EnrichState, EnrichStepView) {
        match self.found {
            Some(d) => (
                EnrichState { phase: EnrichPhase::Keep, ..self },
                EnrichStepView::WriteBack(self.urls[self.at as int], d),
            ),
            None => self.to_next(),
        }
    }

    /// The turn after a description was handed over; `kept` says whether it found its place.
    pub open spec fn after_keep(self, kept: bool) -> (EnrichState, EnrichStepView) {
        EnrichState {
            enriched: self.enriched + (if kept {
                1nat
            } else {
                0
            }),
            ..self
        }.to_next()
    }
}

impl EnrichRun {
    /// A pass over these addresses, and its first step.
    pub fn begin(urls: Vec<String>) -> (r: (Self, EnrichStep))
        ensures
            r.0@.valid(),
            r.0@ == (EnrichState {
                urls: texts(urls@),
                at: 0,
                phase: if urls@.len() == 0 {
                    EnrichPhase::Over
                } else {
                    EnrichPhase::Slot
                },
                found: None,
                enriched: 0,
            }),
            r.1@ == (if urls@.len() == 0 {
                EnrichStepView::Done
            } else {
                EnrichStepView::WaitForSlot
            }),
    {
        if urls.len() == 0 {
            (
                EnrichRun { urls, at: 0, phase: EnrichPhase::Over, found: None, enriched: 0 },
                EnrichStep::Done,
            )
        } else {
            (
                EnrichRun { urls, at: 0, phase: EnrichPhase::Slot, found: None, enriched: 0 },
                EnrichStep::WaitForSlot,
            )
        }
    }

    /// How many descriptions were kept.
    pub fn enriched(&self) -> (r: usize)
        ensures
            r == self@.enriched,
    {
        self.enriched
    }

    /// A place among the requests is free: look the posting up.
    pub fn slot_free(&mut self) -> (r: EnrichStep)
        requires
            old(self)@.valid(),
            old(self)@.phase == EnrichPhase::Slot,
        ensures
            final(self)@.valid(),
            final(self)@ == (EnrichState { phase: EnrichPhase::Lookup, ..old(self)@ }),
            r@ == EnrichStepView::Resolve(old(self)@.urls[old(self)@.at as int]),
    {
        self.phase = EnrichPhase::Lookup;
        EnrichStep::Resolve(self.urls[self.at].clone())
    }

    /// The look-up is over: its request is to be counted, whatever it brought.
    pub fn resolved<E>(&mut self, result: Result<Option<JobPosting>, E>) -> (r: EnrichStep)
        requires
            old(self)@.valid(),
            old(self)@.phase == EnrichPhase::Lookup,
        ensures
            final(self)@.valid(),
            final(self)@ == (EnrichState {
                phase: EnrichPhase::Count,
                found: usable_description(result),
                ..old(self)@
            }),
            r@ == EnrichStepView::RecordRequest,
    {
        self.found = match classify_resolution(result) {
            EnrichOutcome::Description(d) => Some(d),
            EnrichOutcome::Skip => None,
        };
        self.phase = EnrichPhase::Count;
        EnrichStep::RecordRequest
    }

    /// The request is counted: keep the description that it brought, or go on.
    pub fn recorded(&mut self) -> (r: EnrichStep)
        requires
            old(self)@.valid(),
            old(self)@.phase == EnrichPhase::Count,
        ensures
            final(self)@.valid(),
            (final(self)@, r@) == old(self)@.after_count(),
    {
        match &self.found {
            Some(d) => {
                let step = EnrichStep::WriteBack {
                    url: self.urls[self.at].clone(),
                    description: d.clone(),
                };
                self.phase = EnrichPhase::Keep;
                step
            },
            None => self.advance(),
        }
    }

    /// The description was handed over; `kept` says whether it found its place.
    pub fn written(&mut self, kept: bool) -> (r: EnrichStep)
        requires
            old(self)@.valid(),
            old(self)@.phase == EnrichPhase::Keep,
        ensures
            final(self)@.valid(),
            (final(self)@, r@) == old(self)@.after_keep(kept),
    {
        if kept {
            self.enriched = self.enriched + 1;
        }
        self.advance()
    }

    fn advance(&mut self) -> (r: EnrichStep)
        requires
            old(self)@.urls.len() <= usize::MAX,
            old(self)@.at < old(self)@.urls.len(),
            old(self)@.enriched <= old(self)@.at + 1,
        ensures
            final(self)@.valid(),
            (final(self)@, r@) == old(self)@.to_next(),
    {
        self.at = self.at + 1;
        self.found = None;
        if self.at < self.urls.len() {
            self.phase = EnrichPhase::Slot;
            EnrichStep::WaitForSlot
        } else {
            self.phase = EnrichPhase::Over;
            EnrichStep::Done
        }
    }
}

/// The description that a look-up brought, where it is not blank.
pub open spec fn usable_description<E>(result: Result<Option<JobPosting>, E>) -> Option<Seq<char>> {
    match result {
        Ok(Some(p)) => if description_blank(opt_text(p.description)) {
            None
        } else {
            opt_text(p.description)
        },
        _ => None,
    }
}

// ── Laws ────────────────────────────────────────────────────────────────────

/// A job of LinkedIn without a description: it is missing, or all of it is white space.
pub open spec fn bare_linkedin_job(job: FoundJobView) -> bool {
    &&& job.board == Some("linkedin"@)
    &&& match job.description {
        None => true,
        Some(d) => forall|i: int| 0 <= i < d.len() ==> white(#[trigger] d[i]),
    }
}

/// Every job of LinkedIn without a description is looked up, whether it is new or not, unless
/// fifteen others that stand before it are; and nothing else is.
pub proof fn every_bare_linkedin_job_is_looked_up(jobs: Seq<FoundJobView>)
    ensures
        enrichment_targets(jobs).len() <= 15,
        forall|i: int|
            0 <= i < jobs.len() && bare_linkedin_job(#[trigger] jobs[i]) ==> enrichment_targets(
                jobs,
            ).contains(jobs[i].url) || (enrichment_targets(jobs).len() == 15 && forall|url: Seq<
                char,
            >| #[trigger]
                enrichment_targets(jobs).contains(url) ==> exists|k: int|
                    0 <= k < i && bare_linkedin_job(#[trigger] jobs[k]) && jobs[k].url == url),
        forall|url: Seq<char>| #[trigger]
            enrichment_targets(jobs).contains(url) ==> exists|i: int|
                0 <= i < jobs.len() && bare_linkedin_job(#[trigger] jobs[i]) && jobs[i].url == url,
{
    let some = enrichment_targets(jobs);
    enrichment_targets_are_wanting_jobs(jobs);
    assert forall|i: int|
        0 <= i < jobs.len() && bare_linkedin_job(#[trigger] jobs[i]) implies some.contains(
        jobs[i].url,
    ) || (some.len() == 15 && forall|url: Seq<char>| #[trigger]
        some.contains(url) ==> exists|k: int|
            0 <= k < i && bare_linkedin_job(#[trigger] jobs[k]) && jobs[k].url == url) by {
        assert(needs_description(jobs[i]));
        if !some.contains(jobs[i].url) {
            let head = jobs.take(i);
            let before = wanting(head);
            lemma_wanting(head);
            lemma_wanting(jobs);
            lemma_wanting_grows(jobs, i);
            lemma_wanting_grows(jobs, i + 1);
            lemma_wanting(jobs.take(i + 1));
            assert(jobs.take(i + 1)[i] == jobs[i]);
            assert(jobs.take(i + 1).drop_last() =~= head);
            let all = wanting(jobs);
            if before.len() < 15 {
                let upto = wanting(jobs.take(i + 1));
                assert(upto.len() <= 15);
                assert(upto.contains(jobs[i].url));
                let k = choose|k: int| 0 <= k < upto.len() && upto[k] == jobs[i].url;
                assert(upto == all.take(upto.len() as int));
                assert(all[k] == jobs[i].url);
                assert(some[k] == jobs[i].url);
            }
            assert(before == all.take(before.len() as int));
            assert forall|url: Seq<char>| #[trigger] some.contains(url) implies exists|k: int|
                0 <= k < i && bare_linkedin_job(#[trigger] jobs[k]) && jobs[k].url == url by {
                let m = choose|m: int| 0 <= m < some.len() && some[m] == url;
                assert(before[m] == url);
                assert(before.contains(url));
                let k = choose|k: int|
                    0 <= k < head.len() && needs_description(#[trigger] head[k]) && head[k].url
                        == url;
                assert(head[k] == jobs[k]);
                assert(bare_linkedin_job(jobs[k]));
            }
        }
    }
    assert forall|url: Seq<char>| #[trigger] some.contains(url) implies exists|i: int|
        0 <= i < jobs.len() && bare_linkedin_job(#[trigger] jobs[i]) && jobs[i].url == url by {
        let i = choose|i: int|
            0 <= i < jobs.len() && needs_description(#[trigger] jobs[i]) && jobs[i].url == url;
        assert(bare_linkedin_job(jobs[i]));
    }
}

/// Which addresses are looked up depends on the boards, the descriptions and the addresses of the
/// jobs alone: two lists that agree in these are looked up alike, however they differ in what is
/// new, what was applied to, the scores or anything else.
pub proof fn look_ups_go_by_board_and_description(a: Seq<FoundJobView>, b: Seq<FoundJobView>)
    requires
        a.len() == b.len(),
        forall|i: int|
            0 <= i < a.len() ==> (#[trigger] a[i]).board == b[i].board && a[i].description
                == b[i].description && a[i].url == b[i].url,
    ensures
        enrichment_targets(a) == enrichment_targets(b),
{
    lemma_wanting_alike(a, b);
}

proof fn lemma_wanting_alike(a: Seq<FoundJobView>, b: Seq<FoundJobView>)
    requires
        a.len() == b.len(),
        forall|i: int|
            0 <= i < a.len() ==> (#[trigger] a[i]).board == b[i].board && a[i].description
                == b[i].description && a[i].url == b[i].url,
    ensures
        wanting(a) == wanting(b),
    decreases a.len(),
{
    if a.len() > 0 {
        assert forall|i: int| 0 <= i < a.len() - 1 implies (#[trigger] a.drop_last()[i]).board
            == b.drop_last()[i].board && a.drop_last()[i].description
            == b.drop_last()[i].description && a.drop_last()[i].url == b.drop_last()[i].url by {
            assert(a[i] == a.drop_last()[i]);
        }
        lemma_wanting_alike(a.drop_last(), b.drop_last());
        assert(a[a.len() - 1].board == b[b.len() - 1].board);
    }
}

/// The addresses are looked up in the order of the jobs: of two, the one looked up first stands
/// before the other.
pub proof fn look_ups_keep_the_order_of_jobs(jobs: Seq<FoundJobView>, a: int, b: int)
    requires
        0 <= a < b < enrichment_targets(jobs).len(),
    ensures
        exists|x: int, y: int|
            #![trigger jobs[x], jobs[y]]
            0 <= x < y < jobs.len() && bare_linkedin_job(jobs[x]) && bare_linkedin_job(jobs[y])
                && jobs[x].url == enrichment_targets(jobs)[a] && jobs[y].url
                == enrichment_targets(jobs)[b],
{
    lemma_wanting_order(jobs, a, b);
    let (x, y) = choose|x: int, y: int|
        #![trigger jobs[x], jobs[y]]
        0 <= x < y < jobs.len() && needs_description(jobs[x]) && needs_description(jobs[y])
            && jobs[x].url == wanting(jobs)[a] && jobs[y].url == wanting(jobs)[b];
    assert(bare_linkedin_job(jobs[x]) && bare_linkedin_job(jobs[y]));
}

proof fn lemma_wanting_order(jobs: Seq<FoundJobView>, a: int, b: int)
    requires
        0 <= a < b < wanting(jobs).len(),
    ensures
        exists|x: int, y: int|
            #![trigger jobs[x], jobs[y]]
            0 <= x < y < jobs.len() && needs_description(jobs[x]) && needs_description(jobs[y])
                && jobs[x].url == wanting(jobs)[a] && jobs[y].url == wanting(jobs)[b],
    decreases jobs.len(),
{
    let rest = jobs.drop_last();
    let done = wanting(rest);
    let n = jobs.len() - 1;
    if b < done.len() {
        lemma_wanting_order(rest, a, b);
        let (x, y) = choose|x: int, y: int|
            #![trigger rest[x], rest[y]]
            0 <= x < y < rest.len() && needs_description(rest[x]) && needs_description(rest[y])
                && rest[x].url == done[a] && rest[y].url == done[b];
        assert(jobs[x] == rest[x] && jobs[y] == rest[y]);
    } else {
        lemma_wanting(rest);
        assert(done.contains(done[a]));
        let x = choose|x: int|
            0 <= x < rest.len() && needs_description(#[trigger] rest[x]) && rest[x].url == done[a];
        assert(jobs[x] == rest[x]);
        assert(needs_description(jobs[n]) && jobs[n].url == wanting(jobs)[b]);
    }
}

/// A look-up brings a description exactly where it found a posting whose description has a
/// character that is no white space, and then that description as it is.
pub proof fn look_up_brings_what_was_found<E>(result: Result<Option<JobPosting>, E>)
    ensures
        usable_description(result) matches Some(d) ==> result matches Ok(Some(p))
            && p.description is Some && p.description->0@ == d && exists|i: int|
            0 <= i < d.len() && !white(#[trigger] d[i]),
        usable_description(result) is None ==> match result {
            Ok(Some(p)) => match p.description {
                Some(d) => forall|i: int| 0 <= i < d@.len() ==> white(#[trigger] d@[i]),
                None => true,
            },
            _ => true,
        },
{
}

/// What a look-up brought is kept for the very address that was looked up; where it brought
/// nothing, the pass goes on.
pub proof fn descriptions_go_to_their_address(s: EnrichState)
    requires
        s.valid(),
        s.phase == EnrichPhase::Count,
    ensures
        match s.found {
            Some(d) => {
                &&& s.after_count().1 == EnrichStepView::WriteBack(s.urls[s.at as int], d)
                &&& s.after_count().0.phase == EnrichPhase::Keep
                &&& s.after_count().0.at == s.at
                &&& s.after_count().0.urls == s.urls
                &&& s.after_count().0.enriched == s.enriched
            },
            None => {
                &&& s.after_count().0.at == s.at + 1
                &&& s.after_count().0.urls == s.urls
                &&& s.after_count().0.enriched == s.enriched
                &&& s.after_count().0.found is None
                &&& s.at + 1 < s.urls.len() ==> s.after_count().1 == EnrichStepView::WaitForSlot
                    && s.after_count().0.phase == EnrichPhase::Slot
                &&& s.at + 1 == s.urls.len() ==> s.after_count().1 == EnrichStepView::Done
                    && s.after_count().0.phase == EnrichPhase::Over
            },
        },
{
}

/// After a description was handed over the pass goes on with the next address until none is left,
/// and counts the description exactly where it found its place.
pub proof fn pass_goes_on_after_a_description(s: EnrichState, kept: bool)
    requires
        s.valid(),
        s.phase == EnrichPhase::Keep,
    ensures
        ({
            let (t, step) = s.after_keep(kept);
            &&& t.valid()
            &&& t.at == s.at + 1
            &&& t.urls == s.urls
            &&& t.found is None
            &&& t.enriched == s.enriched + (if kept {
                1int
            } else {
                0
            })
            &&& s.at + 1 < s.urls.len() ==> step == EnrichStepView::WaitForSlot && t.phase
                == EnrichPhase::Slot
            &&& s.at + 1 == s.urls.len() ==> step == EnrichStepView::Done && t.phase
                == EnrichPhase::Over
        }),
{
}

} // verus!
