//! Notes that a model writes on the best postings of a run.
//!
//! The text of a posting goes to the model only inside a fence that marks it as data. What is
//! spent is bounded: at most three calls in a run, and none for a job that is already known.
use vstd::prelude::*;
use vstd::string::StringExecFns;

use crate::autopilot::model::{jobs_view, FoundJob, FoundJobView};
use crate::json::opt_str;
use crate::text::{
    blank, first_chars, first_chars_are_a_prefix, is_blank, list_contains, opt_text, owned,
    take_chars, texts, trim, trimmed, trimmed_empty_iff_blank, white,
};

verus! {

/// The most calls to a model in a run.
pub const ASSISTANT_NOTES_MAX: usize = 3;

/// The most characters of a note that are kept.
pub const NOTE_CAP: usize = 800;

/// The most characters of a posting that go into a fence.
pub const JOB_CAP: usize = 8_000;

/// Whether notes are written at all: they are switched on, and there is a résumé to go by.
pub fn notes_enabled(assistant: bool, resume: Option<&str>) -> (r: bool)
    ensures
        r == (assistant && resume is Some && !blank(resume->0@)),
{
    assistant && match resume {
        Some(text) => !is_blank(text),
        None => false,
    }
}

// ── What the model is told of a posting ─────────────────────────────────────

/// The heading of a posting: its title and its company, or the one that there is.
pub open spec fn posting_heading(title: Seq<char>, company: Seq<char>) -> Seq<char> {
    let t = trimmed(title);
    let c = trimmed(company);
    if t.len() > 0 && c.len() > 0 {
        t + " at "@ + c
    } else if t.len() > 0 {
        t
    } else {
        c
    }
}

/// What the model is told of a posting: its heading, a blank line and its description.
pub open spec fn posting_text(
    title: Seq<char>,
    company: Seq<char>,
    description: Option<Seq<char>>,
) -> Seq<char> {
    posting_heading(title, company) + "\n\n"@ + trimmed(
        match description {
            Some(d) => d,
            None => Seq::empty(),
        },
    )
}

/// The heading, a blank line and the description of a posting.
pub fn note_job_text(title: &str, company: &str, description: Option<&str>) -> (r: String)
    ensures
        r@ == posting_text(title@, company@, opt_str(description)),
{
    let title: String = trim(title);
    let company: String = trim(company);
    let mut out: String = if !title.as_str().is_empty() && !company.as_str().is_empty() {
        let mut both: String = title.clone();
        both.append(" at ");
        both.append(company.as_str());
        both
    } else if !title.as_str().is_empty() {
        title.clone()
    } else {
        company.clone()
    };
    out.append("\n\n");
    match description {
        Some(d) => {
            out.append(trim(d).as_str());
        },
        None => {
            out.append(trim(String::new().as_str()).as_str());
        },
    }
    out
}

/// The message to the model: the fenced résumé, a blank line and the posting, fenced by `fence`
/// under the tag of a posting and cut at the length of one.
pub fn note_user_msg<F: Fn(&str, &str, usize) -> String>(
    resume_fence: &str,
    title: &str,
    company: &str,
    description: Option<&str>,
    fence: &F,
) -> (r: String)
    requires
        forall|tag: &str, text: &str, cap: usize| fence.requires((tag, text, cap)),
    ensures
        exists|tag: &str, text: &str, fenced: String| #[trigger]
            fence.ensures((tag, text, JOB_CAP), fenced) && tag@ == "job_posting"@ && text@
                == posting_text(title@, company@, opt_str(description)) && r@ == resume_fence@
                + "\n\n"@ + fenced@,
{
    let text: String = note_job_text(title, company, description);
    let tag: &str = "job_posting";
    let body: &str = text.as_str();
    let fenced: String = fence(tag, body, JOB_CAP);
    assert(fence.ensures((tag, body, JOB_CAP), fenced));
    let mut out: String = owned(resume_fence);
    out.append("\n\n");
    out.append(fenced.as_str());
    out
}

/// What is kept of a model's answer: its first characters without the white space round it,
/// nothing where that leaves nothing.
pub open spec fn note_of(answer: Seq<char>) -> Option<Seq<char>> {
    let text = first_chars(trimmed(answer), NOTE_CAP as nat);
    if text.len() > 0 {
        Some(text)
    } else {
        None
    }
}

/// What is kept of a model's answer.
pub fn keep_note(answer: &str) -> (r: Option<String>)
    ensures
        opt_text(r) == note_of(answer@),
{
    let text: String = take_chars(trim(answer).as_str(), NOTE_CAP);
    if text.as_str().is_empty() {
        None
    } else {
        Some(text)
    }
}

/// A note is never longer than its limit and never empty, and an answer leaves none exactly where
/// it is blank.
pub proof fn note_is_short_and_not_blank(answer: Seq<char>)
    ensures
        note_of(answer) is Some ==> 0 < note_of(answer)->0.len() <= NOTE_CAP,
        note_of(answer) is None <==> blank(answer),
{
    trimmed_empty_iff_blank(answer);
}

// ── Which jobs get a note ───────────────────────────────────────────────────

/// What the writing of notes waits for.
#[derive(Debug, Clone, Copy, PartialEq, Eq, Structural)]
pub enum NotePhase {
    /// Looking for the next job.
    Search,
    /// The day's budget to be charged for a job.
    Charge,
    /// The answer of the model on a job.
    Answer,
    /// Nothing.
    Over,
}

/// What to do next.
#[derive(Debug, Clone, Copy, PartialEq, Eq, Structural)]
pub enum NoteStep {
    /// Charge the day's budget for one call.
    Charge,
    /// Ask the model about the job at this place.
    Ask(usize),
    /// No more notes are written.
    Done,
}

/// What came of a call to the model.
pub enum NoteAnswer {
    /// The model answered.
    Text(String),
    /// The call failed.
    Failed,
    /// The run was cancelled before the answer.
    Cancelled,
}

/// The writing of notes in one run.
pub struct NoteRun {
    keys: Vec<String>,
    prior: Vec<String>,
    next: usize,
    phase: NotePhase,
    seen: Vec<String>,
    calls: usize,
    generated: usize,
}

/// [`NoteRun`] as values: the keys of the run's jobs, the keys that are known from before, the
/// place of the next job to look at, what it waits for, the keys that were looked at, the calls
/// that were paid and the notes that were written.
#[verifier::ext_equal]
pub struct NoteState {
    pub keys: Seq<Seq<char>>,
    pub prior: Seq<Seq<char>>,
    pub next: nat,
    pub phase: NotePhase,
    pub seen: Seq<Seq<char>>,
    pub calls: nat,
    pub generated: nat,
}

impl View for NoteRun {
    type V = NoteState;

    closed spec fn view(&self) -> NoteState {
        NoteState {
            keys: texts(self.keys@),
            prior: texts(self.prior@),
            next: self.next as nat,
            phase: self.phase,
            seen: texts(self.seen@),
            calls: self.calls as nat,
            generated: self.generated as nat,
        }
    }
}

impl NoteState {
    /// Whether the job at `i` may get a note: its key is known neither from before nor from a
    /// job of this run.
    pub open spec fn fresh(self, i: int) -> bool {
        !self.prior.contains(self.keys[i]) && !self.seen.contains(self.keys[i])
    }

    /// The place of the first job from `i` on that may get a note.
    pub open spec fn first_fresh(self, i: nat) -> Option<int>
        decreases self.keys.len() - i,
    {
        if i >= self.keys.len() {
            None
        } else if self.fresh(i as int) {
            Some(i as int)
        } else {
            self.first_fresh(i + 1)
        }
    }

    /// What holds of a run at every time: it has paid for at most three calls and written at
    /// most one note for each, the keys it looked at are distinct and none was known before,
    /// every job that it has passed has a key that it looked at or that was known, and while it
    /// waits for a job, that job's key is the latest it looked at and no job before has it.
    pub open spec fn valid(self) -> bool {
        &&& self.keys.len() <= usize::MAX
        &&& self.next <= self.keys.len()
        &&& self.calls <= ASSISTANT_NOTES_MAX
        &&& self.generated <= self.calls
        &&& self.seen.no_duplicates()
        &&& forall|i: int| 0 <= i < self.seen.len() ==> !self.prior.contains(#[trigger] self.seen[i])
        &&& (self.phase == NotePhase::Charge || self.phase == NotePhase::Answer) ==> self.next > 0
            && self.seen.len() > 0 && self.seen.last() == self.keys[self.next - 1] && (forall|j: int|
            0 <= j < self.next - 1 ==> #[trigger] self.keys[j] != self.keys[self.next - 1])
        &&& self.phase == NotePhase::Charge ==> self.calls < ASSISTANT_NOTES_MAX
        &&& self.phase == NotePhase::Answer ==> self.generated < self.calls
        &&& self.seen.len() <= self.next
        &&& forall|j: int|
            0 <= j < self.next ==> self.prior.contains(#[trigger] self.keys[j])
                || self.seen.contains(self.keys[j])
    }

    /// A run that writes no more notes.
    pub open spec fn over(self) -> NoteState {
        NoteState { phase: NotePhase::Over, ..self }
    }

    /// The turn that looks for the next job: where three calls are paid or no job is left, the
    /// run is over; otherwise the first job that may get a note is looked at, and it is paid
    /// for unless the run was cancelled.
    pub open spec fn at_search(self, cancelled: bool) -> (NoteState, NoteStep) {
        if self.calls >= ASSISTANT_NOTES_MAX {
            (self.over(), NoteStep::Done)
        } else {
            match self.first_fresh(self.next) {
                None => (
                    NoteState { next: self.keys.len(), ..self }.over(),
                    NoteStep::Done,
                ),
                Some(i) => {
                    let looked = NoteState {
                        next: (i + 1) as nat,
                        seen: self.seen.push(self.keys[i]),
                        ..self
                    };
                    if cancelled {
                        (looked.over(), NoteStep::Done)
                    } else {
                        (NoteState { phase: NotePhase::Charge, ..looked }, NoteStep::Charge)
                    }
                },
            }
        }
    }

    /// The turn after the budget was charged: a refused charge ends the run.
    pub open spec fn at_charged(self, accepted: bool) -> (NoteState, NoteStep) {
        if accepted {
            (
                NoteState { phase: NotePhase::Answer, calls: self.calls + 1, ..self },
                NoteStep::Ask((self.next - 1) as usize),
            )
        } else {
            (self.over(), NoteStep::Done)
        }
    }

    /// The state after an answer: a cancelled call ends the run, and any other outcome lets it
    /// go on.
    pub open spec fn at_answer(self, answer: NoteAnswer) -> NoteState {
        match answer {
            NoteAnswer::Cancelled => self.over(),
            NoteAnswer::Failed => NoteState { phase: NotePhase::Search, ..self },
            NoteAnswer::Text(text) => NoteState {
                phase: NotePhase::Search,
                generated: self.generated + (if note_of(text@) is Some {
                    1nat
                } else {
                    0
                }),
                ..self
            },
        }
    }
}

/// The jobs of a run after the answer on the job at `at`.
pub open spec fn with_note(jobs: Seq<FoundJobView>, at: int, answer: NoteAnswer) -> Seq<
    FoundJobView,
> {
    match answer {
        NoteAnswer::Text(text) => match note_of(text@) {
            Some(note) => jobs.update(
                at,
                FoundJobView { assistant_notes: Some(note), ..jobs[at] },
            ),
            None => jobs,
        },
        _ => jobs,
    }
}

proof fn lemma_first_fresh(s: NoteState, i: nat)
    ensures
        match s.first_fresh(i) {
            Some(k) => i <= k < s.keys.len() && s.fresh(k) && forall|m: int|
                i <= m < k ==> !#[trigger] s.fresh(m),
            None => forall|m: int| i <= m < s.keys.len() ==> !#[trigger] s.fresh(m),
        },
    decreases s.keys.len() - i,
{
    if i < s.keys.len() && !s.fresh(i as int) {
        lemma_first_fresh(s, i + 1);
        assert forall|m: int|
            i <= m < (match s.first_fresh(i) {
                Some(k) => k,
                None => s.keys.len() as int,
            }) implies !#[trigger] s.fresh(m) by {
            if m > i {
                assert(i + 1 <= m);
            }
        }
    }
}

proof fn lemma_search_keeps(s: NoteState, cancelled: bool)
    requires
        s.valid(),
        s.phase == NotePhase::Search,
    ensures
        s.at_search(cancelled).0.valid(),
{
    lemma_first_fresh(s, s.next);
    let t = s.at_search(cancelled).0;
    if s.calls < ASSISTANT_NOTES_MAX {
        if let Some(i) = s.first_fresh(s.next) {
            assert(t.seen.no_duplicates());
            assert forall|k: int| 0 <= k < t.seen.len() implies !t.prior.contains(
                #[trigger] t.seen[k],
            ) by {
                if k < s.seen.len() {
                    assert(t.seen[k] == s.seen[k]);
                }
            }
            assert(t.seen[s.seen.len() as int] == s.keys[i]);
        }
        assert forall|j: int| 0 <= j < t.next implies t.prior.contains(#[trigger] t.keys[j])
            || t.seen.contains(t.keys[j]) by {
            if s.first_fresh(s.next) != Some(j) {
                if j >= s.next {
                    assert(!s.fresh(j));
                }
                if s.seen.contains(s.keys[j]) {
                    let m = choose|m: int| 0 <= m < s.seen.len() && s.seen[m] == s.keys[j];
                    assert(t.seen[m] == s.keys[j]);
                }
            }
        }
        if let Some(i) = s.first_fresh(s.next) {
            assert forall|j: int| 0 <= j < i implies #[trigger] s.keys[j] != s.keys[i] by {
                if j >= s.next {
                    assert(!s.fresh(j));
                }
            }
        }
    }
}

impl NoteRun {
    /// The writing of notes on jobs with these merge keys, where the keys of `prior` are known
    /// from before.
    pub fn new(keys: Vec<String>, prior: Vec<String>) -> (r: Self)
        ensures
            r@.valid(),
            r@ == (NoteState {
                keys: texts(keys@),
                prior: texts(prior@),
                next: 0,
                phase: NotePhase::Search,
                seen: Seq::empty(),
                calls: 0,
                generated: 0,
            }),
    {
        let total: usize = keys.len();
        let r = NoteRun {
            keys,
            prior,
            next: 0,
            phase: NotePhase::Search,
            seen: Vec::new(),
            calls: 0,
            generated: 0,
        };
        assert(texts(r.seen@) =~= Seq::empty());
        assert(r@.keys.len() == total);
        r
    }

    /// How many notes were written.
    pub fn generated(&self) -> (r: usize)
        ensures
            r == self@.generated,
    {
        self.generated
    }

    /// How many calls were paid.
    pub fn calls(&self) -> (r: usize)
        ensures
            r == self@.calls,
    {
        self.calls
    }

    /// What the run waits for.
    pub fn phase(&self) -> (r: NotePhase)
        ensures
            r == self@.phase,
    {
        self.phase
    }

    /// Looks for the next job that gets a note.
    pub fn search(&mut self, cancelled: bool) -> (r: NoteStep)
        requires
            old(self)@.valid(),
            old(self)@.phase == NotePhase::Search,
        ensures
            final(self)@.valid(),
            (final(self)@, r) == old(self)@.at_search(cancelled),
    {
        if self.calls >= ASSISTANT_NOTES_MAX {
            self.phase = NotePhase::Over;
            return NoteStep::Done;
        }
        let ghost start = self@;
        let mut i: usize = self.next;
        while i < self.keys.len()
            invariant
                start.next <= i <= start.keys.len(),
                start == old(self)@,
                start == self@,
                start.valid(),
                start.phase == NotePhase::Search,
                start.keys == texts(self.keys@),
                start.first_fresh(start.next) == start.first_fresh(i as nat),
                start.calls < ASSISTANT_NOTES_MAX,
            ensures
                i == start.keys.len(),
                start == self@,
                start == old(self)@,
                start.first_fresh(start.next) is None,
            decreases start.keys.len() - i,
        {
            assert(start.keys[i as int] == self.keys@[i as int]@);
            if !list_contains(&self.prior, self.keys[i].as_str()) && !list_contains(
                &self.seen,
                self.keys[i].as_str(),
            ) {
                assert(start.fresh(i as int));
                let ghost seen = texts(self.seen@);
                self.seen.push(self.keys[i].clone());
                assert(texts(self.seen@) =~= seen.push(self.keys@[i as int]@));
                self.next = i + 1;
                proof {
                    lemma_search_keeps(start, cancelled);
                }
                if cancelled {
                    self.phase = NotePhase::Over;
                    return NoteStep::Done;
                }
                self.phase = NotePhase::Charge;
                return NoteStep::Charge;
            }
            assert(!start.fresh(i as int));
            i = i + 1;
        }
        proof {
            lemma_search_keeps(start, cancelled);
        }
        self.next = self.keys.len();
        self.phase = NotePhase::Over;
        NoteStep::Done
    }

    /// The budget was charged, or the charge was refused.
    pub fn charged(&mut self, accepted: bool) -> (r: NoteStep)
        requires
            old(self)@.valid(),
            old(self)@.phase == NotePhase::Charge,
        ensures
            final(self)@.valid(),
            (final(self)@, r) == old(self)@.at_charged(accepted),
    {
        if accepted {
            self.calls = self.calls + 1;
            self.phase = NotePhase::Answer;
            NoteStep::Ask(self.next - 1)
        } else {
            self.phase = NotePhase::Over;
            NoteStep::Done
        }
    }

    /// The model answered on a job, and what is kept of the answer becomes the job's note.
    pub fn answered(&mut self, jobs: &mut Vec<FoundJob>, answer: NoteAnswer)
        requires
            old(self)@.valid(),
            old(self)@.phase == NotePhase::Answer,
            old(jobs)@.len() == old(self)@.keys.len(),
        ensures
            final(self)@.valid(),
            final(self)@ == old(self)@.at_answer(answer),
            jobs_view(final(jobs)@) == with_note(
                jobs_view(old(jobs)@),
                old(self)@.next - 1,
                answer,
            ),
    {
        let ghost before = jobs_view(jobs@);
        match answer {
            NoteAnswer::Cancelled => {
                self.phase = NotePhase::Over;
            },
            NoteAnswer::Failed => {
                self.phase = NotePhase::Search;
            },
            NoteAnswer::Text(text) => {
                let at: usize = self.next - 1;
                if let Some(note) = keep_note(text.as_str()) {
                    let ghost n = note@;
                    jobs[at].assistant_notes = Some(note);
                    self.generated = self.generated + 1;
                    assert(jobs_view(jobs@) =~= before.update(
                        at as int,
                        FoundJobView { assistant_notes: Some(n), ..before[at as int] },
                    ));
                }
                self.phase = NotePhase::Search;
            },
        }
    }
}

// ── Laws ────────────────────────────────────────────────────────────────────

/// The model is asked only about a job whose key was not known before and that no earlier job of
/// the run has, so each key is asked about at most once, and no more than three calls are ever
/// paid.
pub proof fn asks_are_bounded(s: NoteState, accepted: bool)
    requires
        s.valid(),
        s.phase == NotePhase::Charge,
    ensures
        s.at_charged(accepted).0.calls <= ASSISTANT_NOTES_MAX,
        s.at_charged(accepted).1 matches NoteStep::Ask(at) ==> {
            &&& at < s.keys.len()
            &&& !s.prior.contains(s.keys[at as int])
            &&& forall|j: int| 0 <= j < at ==> #[trigger] s.keys[j] != s.keys[at as int]
            &&& s.seen.last() == s.keys[at as int]
            &&& forall|k: int| 0 <= k < s.seen.len() - 1 ==> #[trigger] s.seen[k] != s.keys[at as int]
        },
{
    assert(s.seen[s.seen.len() - 1] == s.keys[s.next - 1]);
}

/// Where every job is known from before, no call is made.
pub proof fn known_jobs_cost_nothing(s: NoteState, cancelled: bool)
    requires
        s.valid(),
        s.phase == NotePhase::Search,
        forall|i: int| 0 <= i < s.keys.len() ==> s.prior.contains(#[trigger] s.keys[i]),
    ensures
        s.at_search(cancelled).1 == NoteStep::Done,
        s.at_search(cancelled).0.calls == s.calls,
{
    lemma_no_fresh(s, s.next);
}

/// A job whose key an earlier job of the run has costs nothing: it is neither paid for nor asked
/// about.
pub proof fn repeated_jobs_cost_nothing(s: NoteState, cancelled: bool, j: int, k: int)
    requires
        s.valid(),
        s.phase == NotePhase::Search,
        0 <= j < k < s.keys.len(),
        s.keys[j] == s.keys[k],
    ensures
        s.at_search(cancelled).1 == NoteStep::Charge ==> {
            let t = s.at_search(cancelled).0;
            t.next != k + 1 && t.at_charged(true).1 != NoteStep::Ask(k as usize)
        },
{
    lemma_first_fresh(s, s.next);
    if s.first_fresh(s.next) == Some(k) {
        if j < s.next {
            assert(s.prior.contains(s.keys[j]) || s.seen.contains(s.keys[j]));
        } else {
            assert(!s.fresh(j));
        }
    }
}

proof fn lemma_no_fresh(s: NoteState, i: nat)
    requires
        forall|k: int| 0 <= k < s.keys.len() ==> s.prior.contains(#[trigger] s.keys[k]),
    ensures
        s.first_fresh(i) is None,
    decreases s.keys.len() - i,
{
    if i < s.keys.len() {
        assert(s.prior.contains(s.keys[i as int]));
        lemma_no_fresh(s, i + 1);
    }
}

/// A note changes nothing of a job but its note, and nothing of the other jobs.
pub proof fn note_changes_only_the_note(jobs: Seq<FoundJobView>, at: int, answer: NoteAnswer)
    requires
        0 <= at < jobs.len(),
    ensures
        with_note(jobs, at, answer).len() == jobs.len(),
        forall|i: int|
            0 <= i < jobs.len() ==> (#[trigger] with_note(jobs, at, answer)[i]) == (FoundJobView {
                assistant_notes: with_note(jobs, at, answer)[i].assistant_notes,
                ..jobs[i]
            }),
        forall|i: int|
            0 <= i < jobs.len() && i != at ==> (#[trigger] with_note(jobs, at, answer)[i])
                == jobs[i],
{
}

/// While fewer than three calls are paid and the run is not cancelled, no job that may get a note
/// is passed over: the next one that is paid for and asked about is the first from here on whose
/// key is neither known from before nor was looked at.
pub proof fn no_job_is_passed_over(s: NoteState, j: int)
    requires
        s.valid(),
        s.phase == NotePhase::Search,
        s.calls < 3,
        s.next <= j < s.keys.len(),
        !s.prior.contains(s.keys[j]),
        !s.seen.contains(s.keys[j]),
        forall|k: int|
            s.next <= k < j ==> s.prior.contains(#[trigger] s.keys[k]) || s.seen.contains(
                s.keys[k],
            ),
    ensures
        ({
            let (t, step) = s.at_search(false);
            let (u, ask) = t.at_charged(true);
            &&& step == NoteStep::Charge
            &&& t.phase == NotePhase::Charge
            &&& t.next == j + 1
            &&& t.calls == s.calls
            &&& t.generated == s.generated
            &&& t.seen == s.seen.push(s.keys[j])
            &&& t.keys == s.keys
            &&& t.prior == s.prior
            &&& ask == NoteStep::Ask(j as usize)
            &&& u.phase == NotePhase::Answer
            &&& u.calls == s.calls + 1
            &&& u.next == j + 1
        }),
{
    lemma_first_fresh(s, s.next);
    match s.first_fresh(s.next) {
        Some(k) => {
            if j < k {
                assert(!s.fresh(j));
            } else if k < j {
                assert(s.prior.contains(s.keys[k]) || s.seen.contains(s.keys[k]));
                assert(s.fresh(k));
            }
        },
        None => {
            assert(!s.fresh(j));
        },
    }
}

/// Where three calls are paid the run writes no more notes; a cancelled run or a refused charge
/// pays for nothing more.
pub proof fn run_stops_at_its_limits(s: NoteState, cancelled: bool)
    requires
        s.valid(),
    ensures
        s.calls <= 3,
        s.calls == 3 ==> s.at_search(cancelled).1 == NoteStep::Done && s.at_search(
            cancelled,
        ).0.phase == NotePhase::Over,
        s.at_search(true).1 == NoteStep::Done,
        s.at_search(true).0.phase == NotePhase::Over,
        s.at_search(cancelled).0.calls == s.calls,
        s.at_charged(false).1 == NoteStep::Done,
        s.at_charged(false).0.phase == NotePhase::Over,
        s.at_charged(false).0.calls == s.calls,
{
}

/// A call that failed lets the run go on, and one that was cancelled ends it. A note is counted
/// exactly where the answer has a character that is no white space.
pub proof fn answers_are_counted(s: NoteState, text: String)
    requires
        s.valid(),
        s.phase == NotePhase::Answer,
    ensures
        s.at_answer(NoteAnswer::Failed) == (NoteState { phase: NotePhase::Search, ..s }),
        s.at_answer(NoteAnswer::Cancelled) == (NoteState { phase: NotePhase::Over, ..s }),
        s.at_answer(NoteAnswer::Text(text)).phase == NotePhase::Search,
        s.at_answer(NoteAnswer::Text(text)).calls == s.calls,
        s.at_answer(NoteAnswer::Text(text)).next == s.next,
        (exists|i: int| 0 <= i < text@.len() && !white(#[trigger] text@[i])) ==> s.at_answer(
            NoteAnswer::Text(text),
        ).generated == s.generated + 1,
        (forall|i: int| 0 <= i < text@.len() ==> white(#[trigger] text@[i])) ==> s.at_answer(
            NoteAnswer::Text(text),
        ).generated == s.generated,
{
    note_is_short_and_not_blank(text@);
}

/// What is kept of an answer is its beginning without the white space round it: all of it where it
/// has at most 800 characters, and otherwise the first 800.
pub proof fn note_is_the_beginning_of_the_answer(answer: Seq<char>)
    ensures
        note_of(answer) matches Some(note) ==> note.is_prefix_of(trimmed(answer)) && note.len() == (
        if trimmed(answer).len() < 800 {
            trimmed(answer).len()
        } else {
            800
        }),
{
    first_chars_are_a_prefix(trimmed(answer), 800);
}

/// The note of an answer goes to the job that was asked about; an answer that leaves none, or a
/// call without an answer, changes no job.
pub proof fn note_goes_to_the_job_asked_about(
    jobs: Seq<FoundJobView>,
    at: int,
    text: String,
)
    requires
        0 <= at < jobs.len(),
    ensures
        (exists|i: int| 0 <= i < text@.len() && !white(#[trigger] text@[i])) ==> with_note(
            jobs,
            at,
            NoteAnswer::Text(text),
        )[at].assistant_notes == note_of(text@) && note_of(text@) is Some,
        (forall|i: int| 0 <= i < text@.len() ==> white(#[trigger] text@[i])) ==> with_note(
            jobs,
            at,
            NoteAnswer::Text(text),
        ) == jobs,
        with_note(jobs, at, NoteAnswer::Failed) == jobs,
        with_note(jobs, at, NoteAnswer::Cancelled) == jobs,
{
    note_is_short_and_not_blank(text@);
}

/// What the model is told of a posting is its title, its company behind an ` at ` where there are
/// both, and behind a blank line its description, each without the white space round it. A blank
/// title leaves the company alone, a blank company the title, and a missing description nothing.
pub proof fn posting_is_told_title_first(
    title: Seq<char>,
    company: Seq<char>,
    description: Option<Seq<char>>,
)
    ensures
        ({
            let t = exists|i: int| 0 <= i < title.len() && !white(#[trigger] title[i]);
            let c = exists|i: int| 0 <= i < company.len() && !white(#[trigger] company[i]);
            let text = posting_text(title, company, description);
            let rest = "\n\n"@ + (match description {
                Some(d) => trimmed(d),
                None => Seq::empty(),
            });
            &&& t && c ==> text == trimmed(title) + " at "@ + trimmed(company) + rest
            &&& t && !c ==> text == trimmed(title) + rest
            &&& !t && c ==> text == trimmed(company) + rest
            &&& !t && !c ==> text == rest
        }),
{
    trimmed_empty_iff_blank(title);
    trimmed_empty_iff_blank(company);
    trimmed_empty_iff_blank(Seq::<char>::empty());
    let end = match description {
        Some(d) => trimmed(d),
        None => trimmed(Seq::empty()),
    };
    let heading = posting_heading(title, company);
    assert(heading + "\n\n"@ + end =~= heading + ("\n\n"@ + end));
    if description is None {
        assert(end =~= Seq::empty());
    }
    if blank(title) && blank(company) {
        assert(heading + ("\n\n"@ + end) =~= "\n\n"@ + end);
    }
}

/// Where every job that is left has a key that is known or was looked at, the run is over.
pub proof fn run_is_over_without_fresh_jobs(s: NoteState, cancelled: bool)
    requires
        s.valid(),
        s.phase == NotePhase::Search,
        forall|k: int|
            s.next <= k < s.keys.len() ==> s.prior.contains(#[trigger] s.keys[k]) || s.seen.contains(
                s.keys[k],
            ),
    ensures
        s.at_search(cancelled).1 == NoteStep::Done,
        s.at_search(cancelled).0.phase == NotePhase::Over,
        s.at_search(cancelled).0.calls == s.calls,
        s.at_search(cancelled).0.generated == s.generated,
{
    lemma_first_fresh(s, s.next);
    if let Some(k) = s.first_fresh(s.next) {
        assert(s.fresh(k));
        assert(s.prior.contains(s.keys[k]) || s.seen.contains(s.keys[k]));
    }
}

} // verus!
