//! A search over several pages, as a machine that says what to do next.
//!
//! The machine is asked for a step and told what came of it: a page was loaded, a pause is
//! over. It never waits and never sends anything itself.
use vstd::prelude::*;

use crate::linkedin::url::{JobsSearchParams, SearchView};
use crate::posting::{postings_view, JobPosting, PostingView};
use crate::text::str_eq;

verus! {

/// How many results the endpoint returns for a request.
pub const PAGE_SIZE: usize = 10;

/// The most pages that a search walks.
pub const MAX_PAGES: usize = 10;

/// Whether a first page with this many cards is a refusal.
///
/// The endpoint pads every real first page, so a first page without a single card is no empty
/// result: it is a block, a login wall or a changed page layout.
pub fn page0_is_soft_block(card_count: usize) -> (r: bool)
    ensures
        r == (card_count == 0),
{
    card_count == 0
}

/// Where a search stands.
#[derive(Debug, Clone, Copy, PartialEq, Eq, Structural)]
pub enum Phase {
    /// Before a page.
    Ready,
    /// A page is being loaded.
    Loading,
    /// Waiting before the first page is loaded again without the exact place.
    RetryPause,
    /// The first page is being loaded again.
    Retrying,
    /// Waiting between two pages.
    PagePause,
    /// Nothing is left to do.
    Over,
}

/// What to do next.
pub enum Step {
    /// Load the page of these parameters and report it.
    Load(JobsSearchParams),
    /// Wait `base_ms` plus a random time below `spread_ms`, and report the end of the pause.
    Pause { base_ms: u64, spread_ms: u64 },
    /// The search is complete.
    Finish,
    /// The search failed: hand on the error of the load.
    FailLoad,
    /// The search failed: the first page held no cards.
    FailBlocked,
}

/// [`Step`] as values.
pub enum StepView {
    Load(SearchView),
    Pause(nat, nat),
    Finish,
    FailLoad,
    FailBlocked,
}

impl View for Step {
    type V = StepView;

    open spec fn view(&self) -> StepView {
        match self {
            Step::Load(p) => StepView::Load(p@),
            Step::Pause { base_ms, spread_ms } => StepView::Pause(
                *base_ms as nat,
                *spread_ms as nat,
            ),
            Step::Finish => StepView::Finish,
            Step::FailLoad => StepView::FailLoad,
            Step::FailBlocked => StepView::FailBlocked,
        }
    }
}

impl Step {
    /// Whether the whole search is to be reported as done. A search that failed reports no end.
    pub fn reports_end(&self) -> (r: bool)
        ensures
            r == (self@ == StepView::Finish),
    {
        match self {
            Step::Finish => true,
            _ => false,
        }
    }
}

/// A search over several pages.
pub struct PagedSearch {
    search: JobsSearchParams,
    max_pages: usize,
    page: usize,
    phase: Phase,
    collected: Vec<JobPosting>,
}

/// [`PagedSearch`] as values: the parameters in force, the pages to walk, the page at hand, the
/// phase and the postings so far.
#[verifier::ext_equal]
pub struct SearchState {
    pub search: SearchView,
    pub max_pages: nat,
    pub page: nat,
    pub phase: Phase,
    pub collected: Seq<PostingView>,
}

impl View for PagedSearch {
    type V = SearchState;

    closed spec fn view(&self) -> SearchState {
        SearchState {
            search: self.search@,
            max_pages: self.max_pages as nat,
            page: self.page as nat,
            phase: self.phase,
            collected: postings_view(self.collected@),
        }
    }
}

// ── Postings without repeats ────────────────────────────────────────────────

/// What a posting is told apart by: its id on the board, or else its own.
pub open spec fn posting_key(p: PostingView) -> Seq<char> {
    match p.external_id {
        Some(id) => id,
        None => p.id,
    }
}

/// Whether a posting of the list has this key.
pub open spec fn has_key(list: Seq<PostingView>, key: Seq<char>) -> bool {
    exists|i: int| 0 <= i < list.len() && posting_key(#[trigger] list[i]) == key
}

/// Whether no two postings of the list share a key.
pub open spec fn no_repeats(list: Seq<PostingView>) -> bool {
    forall|i: int, j: int|
        0 <= i < j < list.len() ==> posting_key(#[trigger] list[i]) != posting_key(
            #[trigger] list[j],
        )
}

/// `list` followed by the postings of `more` whose key is not there yet, in their order.
pub open spec fn with_new(list: Seq<PostingView>, more: Seq<PostingView>) -> Seq<PostingView>
    decreases more.len(),
{
    if more.len() == 0 {
        list
    } else {
        let done = with_new(list, more.drop_last());
        if has_key(done, posting_key(more.last())) {
            done
        } else {
            done.push(more.last())
        }
    }
}

/// Adding to a list without repeats leaves it without repeats, keeps what it holds in front and
/// makes every key of the new postings present.
pub proof fn with_new_keeps(list: Seq<PostingView>, more: Seq<PostingView>)
    requires
        no_repeats(list),
    ensures
        no_repeats(with_new(list, more)),
        list.is_prefix_of(with_new(list, more)),
        with_new(list, more).len() <= list.len() + more.len(),
        forall|i: int|
            0 <= i < more.len() ==> has_key(
                with_new(list, more),
                posting_key(#[trigger] more[i]),
            ),
    decreases more.len(),
{
    if more.len() > 0 {
        let rest = more.drop_last();
        with_new_keeps(list, rest);
        let done = with_new(list, rest);
        let all = with_new(list, more);
        let key = posting_key(more.last());
        if !has_key(done, key) {
            assert forall|i: int, j: int| 0 <= i < j < all.len() implies posting_key(
                #[trigger] all[i],
            ) != posting_key(#[trigger] all[j]) by {
                assert(all[i] == done[i]);
                if j < done.len() {
                    assert(all[j] == done[j]);
                }
            }
            assert(posting_key(all[done.len() as int]) == key);
        }
        assert forall|i: int| 0 <= i < more.len() implies has_key(
            all,
            posting_key(#[trigger] more[i]),
        ) by {
            if i < rest.len() {
                assert(rest[i] == more[i]);
                let k = choose|k: int|
                    0 <= k < done.len() && posting_key(#[trigger] done[k]) == posting_key(rest[i]);
                assert(all[k] == done[k]);
            }
        }
    } else {
        assert(list.is_prefix_of(list));
    }
}

proof fn lemma_some_stay(list: Seq<PostingView>, more: Seq<PostingView>)
    requires
        no_repeats(list),
    ensures
        more.len() > 0 || list.len() > 0 ==> with_new(list, more).len() > 0,
{
    with_new_keeps(list, more);
    if more.len() > 0 {
        assert(has_key(with_new(list, more), posting_key(more[0])));
    }
}

fn is_known(list: &Vec<JobPosting>, p: &JobPosting) -> (r: bool)
    ensures
        r == has_key(postings_view(list@), posting_key(p@)),
{
    let key: &String = match &p.external_id {
        Some(id) => id,
        None => &p.id,
    };
    let mut i: usize = 0;
    while i < list.len()
        invariant
            i <= list@.len(),
            key@ == posting_key(p@),
            forall|k: int|
                0 <= k < i ==> posting_key(#[trigger] postings_view(list@)[k]) != key@,
        decreases list@.len() - i,
    {
        let other: &String = match &list[i].external_id {
            Some(id) => id,
            None => &list[i].id,
        };
        if str_eq(other.as_str(), key.as_str()) {
            assert(posting_key(postings_view(list@)[i as int]) == key@);
            return true;
        }
        i = i + 1;
    }
    false
}

fn add_new(list: &mut Vec<JobPosting>, more: Vec<JobPosting>)
    ensures
        postings_view(final(list)@) == with_new(postings_view(old(list)@), postings_view(more@)),
{
    let ghost start = postings_view(list@);
    let ghost all = postings_view(more@);
    let mut i: usize = 0;
    assert(all.take(0) =~= Seq::empty());
    while i < more.len()
        invariant
            i <= more@.len(),
            all == postings_view(more@),
            postings_view(list@) == with_new(start, all.take(i as int)),
        decreases more@.len() - i,
    {
        let ghost before = postings_view(list@);
        proof {
            assert(all.take(i as int + 1).drop_last() =~= all.take(i as int));
            assert(all.take(i as int + 1).last() == more@[i as int]@);
        }
        if !is_known(list, &more[i]) {
            list.push(more[i].clone());
            assert(postings_view(list@) =~= before.push(more@[i as int]@));
        }
        i = i + 1;
    }
    assert(all.take(all.len() as int) =~= all);
}

// ── The machine ─────────────────────────────────────────────────────────────

/// The parameters of a page: those in force, from the page's first result on.
pub open spec fn page_search(s: SearchState) -> SearchView {
    SearchView { start: s.page * PAGE_SIZE as nat, ..s.search }
}

impl SearchState {
    /// What holds of a search at every time: it walks one to ten pages, the page at hand is one
    /// of them, it has no posting twice, none before its first page and some after it.
    pub open spec fn valid(self) -> bool {
        &&& 1 <= self.max_pages <= MAX_PAGES
        &&& no_repeats(self.collected)
        &&& self.page < self.max_pages
        &&& self.phase == Phase::RetryPause || self.phase == Phase::Retrying ==> self.page == 0
            && self.search.geo_id is None
        &&& self.phase == Phase::PagePause ==> self.page + 1 < self.max_pages
        &&& self.page == 0 && self.phase != Phase::PagePause && self.phase != Phase::Over
            ==> self.collected.len() == 0
        &&& self.page > 0 || self.phase == Phase::PagePause ==> self.collected.len() > 0
    }

    /// A search that has nothing left to do.
    pub open spec fn over(self) -> SearchState {
        SearchState { phase: Phase::Over, ..self }
    }

    /// The turn before a page: load it, unless the search was cancelled.
    pub open spec fn at_page(self, cancelled: bool) -> (SearchState, StepView) {
        if cancelled {
            (self.over(), StepView::Finish)
        } else {
            (
                SearchState { phase: Phase::Loading, ..self },
                StepView::Load(page_search(self)),
            )
        }
    }

    /// The turn after a page that was loaded for good: a first page without cards is a
    /// refusal, unless the search was cancelled; otherwise its new postings are taken, and
    /// the search goes on while the page held any and another page is left.
    pub open spec fn take_page(self, jobs: Seq<PostingView>, cancelled: bool) -> (
        SearchState,
        StepView,
    ) {
        let taken = SearchState { collected: with_new(self.collected, jobs), ..self };
        if self.page == 0 && jobs.len() == 0 && !cancelled {
            (self.over(), StepView::FailBlocked)
        } else if jobs.len() == 0 || self.page + 1 >= self.max_pages {
            (taken.over(), StepView::Finish)
        } else {
            (SearchState { phase: Phase::PagePause, ..taken }, StepView::Pause(500, 500))
        }
    }

    /// The turn after a load. A failed load ends the search: with an error where nothing was
    /// collected or the first page was being loaded again, and otherwise with what there is.
    /// An empty first page of an exact place is loaded once more without the place.
    pub open spec fn at_loaded(self, jobs: Option<Seq<PostingView>>, cancelled: bool) -> (
        SearchState,
        StepView,
    ) {
        match jobs {
            None => if self.phase == Phase::Retrying || self.collected.len() == 0 {
                (self.over(), StepView::FailLoad)
            } else {
                (self.over(), StepView::Finish)
            },
            Some(jobs) => if self.phase == Phase::Loading && self.page == 0 && jobs.len() == 0
                && self.search.geo_id is Some {
                (
                    SearchState {
                        search: SearchView { geo_id: None, distance: None, ..self.search },
                        phase: Phase::RetryPause,
                        ..self
                    },
                    StepView::Pause(300, 300),
                )
            } else {
                self.take_page(jobs, cancelled)
            },
        }
    }

    /// The turn after a pause: the first page again, or the next page.
    pub open spec fn at_resumed(self, cancelled: bool) -> (SearchState, StepView) {
        if cancelled {
            (self.over(), StepView::Finish)
        } else if self.phase == Phase::RetryPause {
            (
                SearchState { phase: Phase::Retrying, ..self },
                StepView::Load(page_search(self)),
            )
        } else {
            let next = SearchState { page: self.page + 1, ..self };
            (
                SearchState { phase: Phase::Loading, ..next },
                StepView::Load(page_search(next)),
            )
        }
    }

    /// What is reported of a page that was loaded: how many pages are done, and of how many. A
    /// page without postings is not reported.
    pub open spec fn report(self, found: bool) -> Option<(nat, nat)> {
        if found {
            Some((self.page + 1, self.max_pages))
        } else {
            None
        }
    }

    /// How many loads a search can still ask for.
    pub open spec fn loads_left(self) -> int {
        let retry: int = if self.page == 0 && self.search.geo_id is Some {
            1
        } else {
            0
        };
        match self.phase {
            Phase::Ready => self.max_pages - self.page + retry,
            Phase::Loading => self.max_pages - self.page - 1 + retry,
            Phase::RetryPause => self.max_pages - self.page as int,
            Phase::Retrying => self.max_pages - self.page - 1,
            Phase::PagePause => self.max_pages - self.page - 1,
            Phase::Over => 0,
        }
    }
}

impl PagedSearch {
    /// A search that is about to load its first page. The number of pages is brought into the
    /// range of one to ten.
    pub fn new(params: &JobsSearchParams, pages: usize) -> (r: Self)
        ensures
            r@ == (SearchState {
                search: params@,
                max_pages: if pages < 1 {
                    1
                } else if pages > MAX_PAGES {
                    MAX_PAGES as nat
                } else {
                    pages as nat
                },
                page: 0,
                phase: Phase::Ready,
                collected: Seq::empty(),
            }),
            r@.valid(),
    {
        let max_pages: usize = if pages < 1 {
            1
        } else if pages > MAX_PAGES {
            MAX_PAGES
        } else {
            pages
        };
        let r = PagedSearch {
            search: params.clone(),
            max_pages,
            page: 0,
            phase: Phase::Ready,
            collected: Vec::new(),
        };
        assert(r@.collected =~= Seq::empty());
        r
    }

    /// Where the search stands.
    pub fn phase(&self) -> (r: Phase)
        ensures
            r == self@.phase,
    {
        self.phase
    }

    /// What is reported once the page at hand is loaded: how many pages are done, and of how many.
    /// `found` says whether the page held any posting; one that held none is not reported.
    pub fn progress(&self, found: bool) -> (r: Option<(usize, usize)>)
        requires
            self@.valid(),
            self@.phase == Phase::Loading || self@.phase == Phase::Retrying,
        ensures
            match r {
                Some((done, all)) => self@.report(found) == Some((done as nat, all as nat)),
                None => self@.report(found) is None,
            },
    {
        if found {
            Some((self.page + 1, self.max_pages))
        } else {
            None
        }
    }

    /// The postings so far.
    pub fn collected(&self) -> (r: &Vec<JobPosting>)
        ensures
            postings_view(r@) == self@.collected,
    {
        &self.collected
    }

    /// The postings of a search.
    pub fn into_collected(self) -> (r: Vec<JobPosting>)
        ensures
            postings_view(r@) == self@.collected,
    {
        self.collected
    }

    fn load(&self) -> (r: Step)
        requires
            self@.valid(),
        ensures
            r@ == StepView::Load(page_search(self@)),
    {
        let mut params: JobsSearchParams = self.search.clone();
        params.start = self.page * PAGE_SIZE;
        assert(params@ =~= page_search(self@));
        Step::Load(params)
    }

    /// The first step.
    pub fn begin(&mut self, cancelled: bool) -> (r: Step)
        requires
            old(self)@.valid(),
            old(self)@.phase == Phase::Ready,
        ensures
            (final(self)@, r@) == old(self)@.at_page(cancelled),
            final(self)@.valid(),
    {
        if cancelled {
            self.phase = Phase::Over;
            return Step::Finish;
        }
        let r: Step = self.load();
        self.phase = Phase::Loading;
        r
    }

    /// The step after a load: `jobs` is what it brought, `None` where it failed.
    pub fn loaded(&mut self, jobs: Option<Vec<JobPosting>>, cancelled: bool) -> (r: Step)
        requires
            old(self)@.valid(),
            old(self)@.phase == Phase::Loading || old(self)@.phase == Phase::Retrying,
        ensures
            (final(self)@, r@) == old(self)@.at_loaded(
                (match jobs {
                    Some(v) => Some(postings_view(v@)),
                    None => None,
                }),
                cancelled,
            ),
            final(self)@.valid(),
    {
        let jobs: Vec<JobPosting> = match jobs {
            Some(jobs) => jobs,
            None => {
                let fatal: bool = self.phase == Phase::Retrying || self.collected.len() == 0;
                self.phase = Phase::Over;
                return if fatal {
                    Step::FailLoad
                } else {
                    Step::Finish
                };
            },
        };
        if self.phase == Phase::Loading && self.page == 0 && jobs.len() == 0
            && self.search.geo_id.is_some() {
            self.search.geo_id = None;
            self.search.distance = None;
            self.phase = Phase::RetryPause;
            return Step::Pause { base_ms: 300, spread_ms: 300 };
        }
        if self.page == 0 && page0_is_soft_block(jobs.len()) && !cancelled {
            self.phase = Phase::Over;
            return Step::FailBlocked;
        }
        let more: bool = jobs.len() != 0 && self.page + 1 < self.max_pages;
        proof {
            with_new_keeps(self@.collected, postings_view(jobs@));
            lemma_some_stay(self@.collected, postings_view(jobs@));
        }
        add_new(&mut self.collected, jobs);
        if more {
            self.phase = Phase::PagePause;
            Step::Pause { base_ms: 500, spread_ms: 500 }
        } else {
            self.phase = Phase::Over;
            Step::Finish
        }
    }

    /// The step after a pause; `cancelled` says whether the pause was cut short or the search
    /// was cancelled by its end.
    pub fn resumed(&mut self, cancelled: bool) -> (r: Step)
        requires
            old(self)@.valid(),
            old(self)@.phase == Phase::RetryPause || old(self)@.phase == Phase::PagePause,
        ensures
            (final(self)@, r@) == old(self)@.at_resumed(cancelled),
            final(self)@.valid(),
    {
        if cancelled {
            self.phase = Phase::Over;
            return Step::Finish;
        }
        if self.phase == Phase::RetryPause {
            let r: Step = self.load();
            self.phase = Phase::Retrying;
            r
        } else {
            self.page = self.page + 1;
            self.phase = Phase::Loading;
            self.load()
        }
    }
}

// ── Laws ────────────────────────────────────────────────────────────────────

/// Whether a search in state `s` can come to state `t` by one turn that asks for `step`.
pub open spec fn turns(s: SearchState, t: SearchState, step: StepView) -> bool {
    ||| s.phase == Phase::Ready && exists|c: bool| (t, step) == #[trigger] s.at_page(c)
    ||| (s.phase == Phase::Loading || s.phase == Phase::Retrying) && exists|
        jobs: Option<Seq<PostingView>>,
        c: bool,
    | (t, step) == #[trigger] s.at_loaded(jobs, c)
    ||| (s.phase == Phase::RetryPause || s.phase == Phase::PagePause) && exists|c: bool|
        (t, step) == #[trigger] s.at_resumed(c)
}

/// Every turn keeps a search valid and keeps what it has collected in front.
pub proof fn turn_keeps_postings(s: SearchState, t: SearchState, step: StepView)
    requires
        s.valid(),
        turns(s, t, step),
    ensures
        t.valid(),
        t.max_pages == s.max_pages,
        s.collected.is_prefix_of(t.collected),
{
    if s.phase == Phase::Loading || s.phase == Phase::Retrying {
        let (jobs, c) = choose|jobs: Option<Seq<PostingView>>, c: bool|
            (t, step) == #[trigger] s.at_loaded(jobs, c);
        if jobs is Some {
            with_new_keeps(s.collected, jobs->0);
            lemma_some_stay(s.collected, jobs->0);
        }
    }
    assert(s.collected.is_prefix_of(s.collected));
}

/// A search of `n` pages asks for at most `n` loads and one more where an exact place is set:
/// each turn uses up one load for each load that it asks for.
pub proof fn turn_uses_up_loads(s: SearchState, t: SearchState, step: StepView)
    requires
        s.valid(),
        turns(s, t, step),
    ensures
        t.loads_left() >= 0,
        t.loads_left() + (if step is Load {
            1int
        } else {
            0
        }) <= s.loads_left(),
        s.loads_left() <= s.max_pages + 1,
        s.search.geo_id is None ==> s.loads_left() <= s.max_pages,
{
}

/// Every load is of the page at hand, which is one of the pages of the search, and asks for what
/// the caller asked for; what it leaves out is at most the exact place and the radius round it.
pub proof fn turn_loads_its_page(s: SearchState, t: SearchState, p: SearchView)
    requires
        s.valid(),
        turns(s, t, StepView::Load(p)),
    ensures
        p.start == PAGE_SIZE * t.page,
        t.page < t.max_pages,
        p == (SearchView { start: p.start, ..s.search }),
        t.search == s.search,
{
}

/// An exact place leaves the parameters in force only where the first page came back empty, and
/// nothing else ever changes in them.
pub proof fn turn_changes_only_the_place(s: SearchState, t: SearchState, step: StepView)
    requires
        s.valid(),
        turns(s, t, step),
    ensures
        t.search == s.search || (t.search == (SearchView {
            geo_id: None,
            distance: None,
            ..s.search
        }) && s.search.geo_id is Some && s.page == 0 && s.phase == Phase::Loading && step
            == StepView::Pause(300, 300)),
{
}

/// A later page that cannot be loaded ends the search with what there is, which is something.
pub proof fn failed_later_page_keeps_what_there_is(s: SearchState, cancelled: bool)
    requires
        s.valid(),
        s.phase == Phase::Loading,
        s.page > 0,
    ensures
        s.at_loaded(None, cancelled) == (s.over(), StepView::Finish),
        s.collected.len() > 0,
{
}

/// Reports rise: each is of a page of the search, and the next load after it is of the next page.
pub proof fn reports_rise(s: SearchState, jobs: Seq<PostingView>, cancelled: bool)
    requires
        s.valid(),
        s.phase == Phase::Loading || s.phase == Phase::Retrying,
    ensures
        s.report(jobs.len() > 0) is Some <==> jobs.len() > 0,
        s.report(jobs.len() > 0) matches Some((done, all)) ==> {
            let t = s.at_loaded(Some(jobs), cancelled).0;
            &&& 1 <= done <= all
            &&& all == s.max_pages
            &&& t.phase == Phase::PagePause || t.phase == Phase::Over
            &&& t.phase == Phase::PagePause ==> done < all && (forall|c: bool|
                (#[trigger] t.at_resumed(c)).0.phase == Phase::Loading ==> t.at_resumed(
                    c,
                ).0.page == done)
        },
{
}

/// A search fails only before it has anything to show.
pub proof fn turn_fails_empty_handed(s: SearchState, t: SearchState, step: StepView)
    requires
        s.valid(),
        turns(s, t, step),
        step is FailLoad || step is FailBlocked,
    ensures
        s.collected.len() == 0,
        t.collected == s.collected,
{
}

/// A page that brought postings is not the last one while a page is left: the search pauses, and
/// then loads the next page, from ten results further on, with the same parameters.
pub proof fn search_goes_on_while_a_page_is_left(
    s: SearchState,
    jobs: Seq<PostingView>,
    cancelled: bool,
)
    requires
        s.valid(),
        s.phase == Phase::Loading || s.phase == Phase::Retrying,
        jobs.len() > 0,
        s.page + 1 < s.max_pages,
    ensures
        ({
            let (t, step) = s.at_loaded(Some(jobs), cancelled);
            let (u, next) = t.at_resumed(false);
            &&& t.phase == Phase::PagePause
            &&& step == StepView::Pause(500, 500)
            &&& t.page == s.page
            &&& t.max_pages == s.max_pages
            &&& t.search == s.search
            &&& t.collected.len() > 0
            &&& u.phase == Phase::Loading
            &&& u.page == s.page + 1
            &&& u.max_pages == s.max_pages
            &&& u.search == s.search
            &&& u.collected == t.collected
            &&& next == StepView::Load(SearchView { start: 10 * (s.page + 1), ..s.search })
        }),
{
    lemma_some_stay(s.collected, jobs);
}

/// The last page ends the search, and so does a later page that brought nothing. What they brought
/// is kept.
pub proof fn search_ends_after_its_last_page(
    s: SearchState,
    jobs: Seq<PostingView>,
    cancelled: bool,
)
    requires
        s.valid(),
        s.phase == Phase::Loading || s.phase == Phase::Retrying,
        jobs.len() > 0 && s.page + 1 == s.max_pages || jobs.len() == 0 && s.page > 0,
    ensures
        ({
            let (t, step) = s.at_loaded(Some(jobs), cancelled);
            &&& step == StepView::Finish
            &&& t.phase == Phase::Over
            &&& s.collected.is_prefix_of(t.collected)
            &&& jobs.len() == 0 ==> t.collected == s.collected
            &&& forall|i: int|
                0 <= i < jobs.len() ==> has_key(t.collected, posting_key(#[trigger] jobs[i]))
        }),
{
    with_new_keeps(s.collected, jobs);
}

/// A first page without postings is asked for once more where an exact place is set: after a pause
/// the first page is loaded again without the place and the radius round it. Without a place, or
/// the second time, it is a refusal; a search that was cancelled meanwhile ends without one.
pub proof fn empty_first_page_is_tried_once_more(s: SearchState, cancelled: bool)
    requires
        s.valid(),
        s.phase == Phase::Loading || s.phase == Phase::Retrying,
        s.page == 0,
    ensures
        ({
            let (t, step) = s.at_loaded(Some(Seq::empty()), cancelled);
            let (u, next) = t.at_resumed(false);
            &&& t.collected.len() == 0
            &&& s.search.geo_id is Some ==> {
                &&& step == StepView::Pause(300, 300)
                &&& t.phase == Phase::RetryPause
                &&& u.phase == Phase::Retrying
                &&& u.page == 0
                &&& u.search.geo_id is None
                &&& next == StepView::Load(
                    SearchView { start: 0, geo_id: None, distance: None, ..s.search },
                )
                &&& u.at_loaded(Some(Seq::empty()), false).1 == StepView::FailBlocked
            }
            &&& s.search.geo_id is None ==> t.phase == Phase::Over && step == (if cancelled {
                StepView::Finish
            } else {
                StepView::FailBlocked
            })
        }),
{
}

/// A load that fails ends the search: as a failure where it has nothing yet, and otherwise with
/// what it has. A search is refused only by a first page that came back empty.
pub proof fn failed_load_ends_the_search(s: SearchState, cancelled: bool)
    requires
        s.valid(),
        s.phase == Phase::Loading || s.phase == Phase::Retrying,
    ensures
        ({
            let (t, step) = s.at_loaded(None, cancelled);
            &&& t.phase == Phase::Over
            &&& t.collected == s.collected
            &&& s.page == 0 ==> step == StepView::FailLoad
            &&& s.page > 0 ==> step == StepView::Finish
        }),
        forall|jobs: Option<Seq<PostingView>>|
            (#[trigger] s.at_loaded(jobs, cancelled)).1 == StepView::FailBlocked ==> s.page == 0
                && jobs is Some && jobs->0.len() == 0 && !cancelled,
{
}

/// A search that is cancelled before a page or in a pause loads nothing more, and ends with what
/// it has; one that is not loads the page at hand or the one after it.
pub proof fn cancelled_search_loads_nothing_more(s: SearchState)
    requires
        s.valid(),
    ensures
        s.phase == Phase::Ready ==> {
            &&& s.at_page(true).1 == StepView::Finish
            &&& s.at_page(true).0.phase == Phase::Over
            &&& s.at_page(true).0.collected == s.collected
            &&& s.at_page(false).1 == StepView::Load(
                SearchView { start: 10 * s.page, ..s.search },
            )
            &&& s.at_page(false).0 == (SearchState { phase: Phase::Loading, ..s })
        },
        s.phase == Phase::RetryPause || s.phase == Phase::PagePause ==> {
            &&& s.at_resumed(true).1 == StepView::Finish
            &&& s.at_resumed(true).0.phase == Phase::Over
            &&& s.at_resumed(true).0.collected == s.collected
            &&& s.at_resumed(false).1 is Load
        },
{
}

/// Whether the states are those of an undisturbed search: the first waits for the first page, and
/// each next one for the page after a page that was loaded.
pub open spec fn undisturbed(
    start: SearchState,
    pages: Seq<Seq<PostingView>>,
    states: Seq<SearchState>,
) -> bool {
    &&& states.len() == pages.len()
    &&& pages.len() > 0
    &&& states[0] == start.at_page(false).0
    &&& forall|k: int|
        0 <= k < pages.len() - 1 ==> states[k + 1] == (#[trigger] states[k]).at_loaded(
            Some(pages[k]),
            false,
        ).0.at_resumed(false).0
}

/// An undisturbed search whose pages all bring postings loads every one of its pages, each once
/// and in order, and ends with the last: it waits for page `k` after `k` pages, and has every
/// posting of those.
pub proof fn undisturbed_search_loads_every_page(
    start: SearchState,
    pages: Seq<Seq<PostingView>>,
    states: Seq<SearchState>,
    k: int,
)
    requires
        start.valid(),
        start.phase == Phase::Ready,
        start.page == 0,
        pages.len() == start.max_pages,
        forall|i: int| 0 <= i < pages.len() ==> (#[trigger] pages[i]).len() > 0,
        undisturbed(start, pages, states),
        0 <= k < pages.len(),
    ensures
        states[k].valid(),
        states[k].phase == Phase::Loading,
        states[k].page == k,
        states[k].max_pages == start.max_pages,
        states[k].search == start.search,
        k == 0 ==> start.at_page(false).1 == StepView::Load(
            SearchView { start: 0, ..start.search },
        ),
        k > 0 ==> states[k - 1].at_loaded(Some(pages[k - 1]), false).0.at_resumed(false).1
            == StepView::Load(SearchView { start: 10 * k as nat, ..start.search }),
        forall|i: int, j: int|
            0 <= i < k && 0 <= j < pages[i].len() ==> has_key(
                states[k].collected,
                posting_key(#[trigger] pages[i][j]),
            ),
        states[k].at_loaded(Some(pages[k]), false).1 == (if k == pages.len() - 1 {
            StepView::Finish
        } else {
            StepView::Pause(500, 500)
        }),
    decreases k,
{
    if k > 0 {
        undisturbed_search_loads_every_page(start, pages, states, k - 1);
        let s = states[k - 1];
        assert(pages[k - 1].len() > 0);
        assert(states[k - 1 + 1] == s.at_loaded(Some(pages[k - 1]), false).0.at_resumed(false).0);
        search_goes_on_while_a_page_is_left(s, pages[k - 1], false);
        with_new_keeps(s.collected, pages[k - 1]);
        lemma_some_stay(s.collected, pages[k - 1]);
        assert forall|i: int, j: int| 0 <= i < k && 0 <= j < pages[i].len() implies has_key(
            states[k].collected,
            posting_key(#[trigger] pages[i][j]),
        ) by {
            if i < k - 1 {
                let key = posting_key(pages[i][j]);
                assert(has_key(s.collected, key));
                let x = choose|x: int|
                    0 <= x < s.collected.len() && posting_key(#[trigger] s.collected[x]) == key;
                assert(states[k].collected[x] == s.collected[x]);
            }
        }
    }
    assert(pages[k].len() > 0);
    if k < pages.len() - 1 {
        search_goes_on_while_a_page_is_left(states[k], pages[k], false);
    } else {
        search_ends_after_its_last_page(states[k], pages[k], false);
    }
}

/// Where a posting of a list is told apart from another: by its id on the board where it has one,
/// and otherwise by its own.
pub open spec fn same_posting(a: PostingView, b: PostingView) -> bool {
    let x = match a.external_id {
        Some(id) => id,
        None => a.id,
    };
    let y = match b.external_id {
        Some(id) => id,
        None => b.id,
    };
    x == y
}

/// What is added to a list are postings of the page, in their order and as they came: exactly
/// those that are no repeat of a posting of the list or of an earlier one of the page. `r` is
/// where on the page they stand.
pub proof fn only_repeats_are_left_out(list: Seq<PostingView>, more: Seq<PostingView>) -> (r: Seq<
    int,
>)
    ensures
        with_new(list, more).len() == list.len() + r.len(),
        list.is_prefix_of(with_new(list, more)),
        forall|k: int|
            0 <= k < r.len() ==> 0 <= #[trigger] r[k] < more.len() && with_new(
                list,
                more,
            )[list.len() + k] == more[r[k]],
        forall|j: int, k: int| 0 <= j < k < r.len() ==> #[trigger] r[j] < #[trigger] r[k],
        forall|i: int|
            0 <= i < more.len() ==> (r.contains(i) <==> {
                &&& forall|x: int|
                    0 <= x < list.len() ==> !same_posting(
                        #[trigger] list[x],
                        #[trigger] more[i],
                    )
                &&& forall|x: int|
                    0 <= x < i ==> !same_posting(#[trigger] more[x], #[trigger] more[i])
            }),
    decreases more.len(),
{
    if more.len() == 0 {
        assert(list.is_prefix_of(list));
        Seq::empty()
    } else {
        let rest = more.drop_last();
        let last = more.last();
        let n = rest.len() as int;
        let before = only_repeats_are_left_out(list, rest);
        let done = with_new(list, rest);
        let all = with_new(list, more);
        let fresh = !has_key(done, posting_key(last));
        let r = if fresh {
            before.push(n)
        } else {
            before
        };
        assert forall|k: int| 0 <= k < r.len() implies 0 <= #[trigger] r[k] < more.len() && all[
            list.len() + k] == more[r[k]] by {
            if k < before.len() {
                assert(r[k] == before[k]);
                assert(done[list.len() + k] == rest[before[k]]);
            }
        }
        assert forall|j: int, k: int| 0 <= j < k < r.len() implies #[trigger] r[j]
            < #[trigger] r[k] by {
            assert(r[j] == before[j]);
            if k < before.len() {
                assert(r[k] == before[k]);
            }
        }
        assert forall|i: int| 0 <= i < more.len() implies (r.contains(i) <==> {
            &&& forall|x: int|
                0 <= x < list.len() ==> !same_posting(#[trigger] list[x], #[trigger] more[i])
            &&& forall|x: int| 0 <= x < i ==> !same_posting(#[trigger] more[x], #[trigger] more[i])
        }) by {
            if i < n {
                assert(more[i] == rest[i]);
                assert forall|x: int| 0 <= x < i implies more[x] == #[trigger] rest[x] by {}
                assert(r.contains(i) <==> before.contains(i)) by {
                    if r.contains(i) {
                        let k = choose|k: int| 0 <= k < r.len() && r[k] == i;
                        assert(k < before.len());
                        assert(before[k] == i);
                    }
                    if before.contains(i) {
                        let k = choose|k: int| 0 <= k < before.len() && before[k] == i;
                        assert(r[k] == i);
                    }
                }
                if !before.contains(i) {
                    if forall|x: int|
                        0 <= x < list.len() ==> !same_posting(#[trigger] list[x], #[trigger] more[i]) {
                        let x = choose|x: int|
                            0 <= x < i && same_posting(#[trigger] rest[x], #[trigger] rest[i]);
                        assert(same_posting(more[x], more[i]));
                    }
                } else {
                    assert forall|x: int| 0 <= x < i implies !same_posting(
                        #[trigger] more[x],
                        #[trigger] more[i],
                    ) by {
                        assert(!same_posting(rest[x], rest[i]));
                    }
                }
            } else {
                if fresh {
                    assert(r[before.len() as int] == n);
                    assert forall|x: int| 0 <= x < list.len() implies !same_posting(
                        #[trigger] list[x],
                        #[trigger] more[i],
                    ) by {
                        assert(done[x] == list[x]);
                        assert(posting_key(done[x]) != posting_key(last));
                    }
                    assert forall|x: int| 0 <= x < i implies !same_posting(
                        #[trigger] more[x],
                        #[trigger] more[i],
                    ) by {
                        lemma_key_of_each(list, rest, x);
                        assert(rest[x] == more[x]);
                        let y = choose|y: int|
                            0 <= y < done.len() && posting_key(#[trigger] done[y]) == posting_key(
                                rest[x],
                            );
                        assert(posting_key(done[y]) != posting_key(last));
                    }
                } else {
                    if r.contains(n) {
                        let k = choose|k: int| 0 <= k < before.len() && before[k] == n;
                        assert(before[k] < rest.len());
                    }
                    let y = choose|y: int|
                        0 <= y < done.len() && posting_key(#[trigger] done[y]) == posting_key(last);
                    if y < list.len() {
                        assert(done[y] == list[y]);
                        assert(same_posting(list[y], more[i]));
                    } else {
                        let k = y - list.len();
                        assert(0 <= before[k] < rest.len());
                        assert(done[list.len() + k] == rest[before[k]]);
                        assert(more[before[k]] == rest[before[k]]);
                        assert(same_posting(more[before[k]], more[i]));
                    }
                }
            }
        }
        r
    }
}

proof fn lemma_key_of_each(list: Seq<PostingView>, more: Seq<PostingView>, i: int)
    requires
        0 <= i < more.len(),
    ensures
        has_key(with_new(list, more), posting_key(more[i])),
    decreases more.len(),
{
    let rest = more.drop_last();
    let done = with_new(list, rest);
    let all = with_new(list, more);
    if i < rest.len() {
        lemma_key_of_each(list, rest, i);
        let k = choose|k: int|
            0 <= k < done.len() && posting_key(#[trigger] done[k]) == posting_key(rest[i]);
        assert(all[k] == done[k]);
        assert(posting_key(all[k]) == posting_key(more[i]));
    } else if !has_key(done, posting_key(more.last())) {
        assert(posting_key(all[done.len() as int]) == posting_key(more[i]));
    }
}

/// What a page that was loaded leaves in the search is what it had, and the new ones of the page;
/// a page that is tried once more leaves nothing.
pub proof fn loaded_page_adds_its_postings(
    s: SearchState,
    jobs: Seq<PostingView>,
    cancelled: bool,
)
    requires
        s.valid(),
        s.phase == Phase::Loading || s.phase == Phase::Retrying,
    ensures
        jobs.len() > 0 ==> s.at_loaded(Some(jobs), cancelled).0.collected == with_new(
            s.collected,
            jobs,
        ),
        jobs.len() == 0 ==> s.at_loaded(Some(jobs), cancelled).0.collected == s.collected,
{
}

} // verus!
