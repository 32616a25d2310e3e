//! What the functions of a search hand back, in the fields of what they take and give.
use vstd::prelude::*;

use crate::decimal::decimal;
use crate::linkedin::cards::{page_cards, page_read, undisturbed_walk_is_whole, PageError};
use crate::linkedin::client::{GuestRequest, LinkedInJobsApiClient};
use crate::linkedin::html::{
    all_matches, attribute, document, first_match, inner_text, parsable, selector,
};
use crate::linkedin::pages::{
    has_key, page0_is_soft_block, posting_key, same_posting, with_new, with_new_keeps, PagedSearch,
    Phase, Step, StepView,
};
use crate::linkedin::posted::{
    age_millis, days_are_counted, hours_are_counted, minutes_are_counted, months_are_counted,
    parse_relative_time, relative_time, weeks_are_counted, years_are_counted, OutOfCalendar,
};
use crate::linkedin::url::{
    address_begins_with_keywords_and_start, address_names_what_is_asked_for, adds, encoded,
    guest_search_url, search_address, JobsSearchParams, SearchView,
};
use crate::posting::{postings_view, JobPosting};
use crate::text::{lowered, trimmed};

verus! {

// ── The pages ───────────────────────────────────────────────────────────────

/// A search starts with nothing, before its first page, and walks as many pages as asked for, but
/// at least one and at most ten.
pub proof fn search_walks_as_many_pages_as_asked(
    params: &JobsSearchParams,
    pages: usize,
    r: PagedSearch,
)
    requires
        call_ensures(PagedSearch::new, (params, pages), r),
    ensures
        1 <= pages <= 10 ==> r@.max_pages == pages,
        pages == 0 ==> r@.max_pages == 1,
        pages > 10 ==> r@.max_pages == 10,
        r@.page == 0,
        r@.phase == Phase::Ready,
        r@.collected.len() == 0,
        r@.search == params@,
        r@.valid(),
{
}

/// The first step loads the first page, unless the search is cancelled.
pub proof fn search_begins_with_its_first_page(s: &mut PagedSearch, cancelled: bool, r: Step)
    requires
        call_ensures(PagedSearch::begin, (s, cancelled), r),
        old(s)@.valid(),
        old(s)@.phase == Phase::Ready,
        old(s)@.page == 0,
    ensures
        !cancelled ==> r@ == StepView::Load(SearchView { start: 0, ..old(s)@.search })
            && final(s)@.phase == Phase::Loading && final(s)@.page == 0,
        cancelled ==> r@ == StepView::Finish,
        final(s)@.collected == old(s)@.collected,
        final(s)@.max_pages == old(s)@.max_pages,
        final(s)@.search == old(s)@.search,
{
}

/// A page that brought postings is followed by a pause while a page is left, and ends the search
/// where none is; its postings that are no repeats are collected, in their order.
pub proof fn page_with_postings_goes_on(
    s: &mut PagedSearch,
    jobs: Vec<JobPosting>,
    cancelled: bool,
    r: Step,
)
    requires
        call_ensures(PagedSearch::loaded, (s, Some(jobs), cancelled), r),
        old(s)@.valid(),
        old(s)@.phase == Phase::Loading || old(s)@.phase == Phase::Retrying,
        jobs@.len() > 0,
    ensures
        old(s)@.page + 1 < old(s)@.max_pages ==> r@ == StepView::Pause(500, 500) && final(s)@.phase
            == Phase::PagePause,
        old(s)@.page + 1 == old(s)@.max_pages ==> r@ == StepView::Finish && final(s)@.phase
            == Phase::Over,
        final(s)@.page == old(s)@.page,
        final(s)@.max_pages == old(s)@.max_pages,
        final(s)@.search == old(s)@.search,
        old(s)@.collected.is_prefix_of(final(s)@.collected),
        forall|i: int|
            0 <= i < jobs@.len() ==> exists|k: int|
                0 <= k < final(s)@.collected.len() && same_posting(
                    #[trigger] final(s)@.collected[k],
                    (#[trigger] jobs@[i])@,
                ),
        final(s)@.collected.len() <= old(s)@.collected.len() + jobs@.len(),
{
    let v = postings_view(jobs@);
    let all = with_new(old(s)@.collected, v);
    with_new_keeps(old(s)@.collected, v);
    assert(final(s)@.collected == all);
    assert forall|i: int| 0 <= i < jobs@.len() implies exists|k: int|
        0 <= k < all.len() && same_posting(#[trigger] all[k], (#[trigger] jobs@[i])@) by {
        assert(v[i] == jobs@[i]@);
        assert(has_key(all, posting_key(v[i])));
        let k = choose|k: int|
            0 <= k < all.len() && posting_key(#[trigger] all[k]) == posting_key(v[i]);
        assert(same_posting(all[k], jobs@[i]@));
    }
}

/// A page without postings ends the search where it is a later one, is tried once more where it is
/// the first of an exact place, and is a refusal otherwise, unless the search was cancelled.
pub proof fn page_without_postings_ends_or_tries_again(
    s: &mut PagedSearch,
    jobs: Vec<JobPosting>,
    cancelled: bool,
    r: Step,
)
    requires
        call_ensures(PagedSearch::loaded, (s, Some(jobs), cancelled), r),
        old(s)@.valid(),
        old(s)@.phase == Phase::Loading || old(s)@.phase == Phase::Retrying,
        jobs@.len() == 0,
    ensures
        old(s)@.page > 0 ==> r@ == StepView::Finish,
        old(s)@.page == 0 && old(s)@.search.geo_id is Some ==> r@ == StepView::Pause(300, 300)
            && final(s)@.phase == Phase::RetryPause && final(s)@.search == (SearchView {
            geo_id: None,
            distance: None,
            ..old(s)@.search
        }),
        old(s)@.page == 0 && old(s)@.search.geo_id is None && !cancelled ==> r@
            == StepView::FailBlocked,
        old(s)@.page == 0 && old(s)@.search.geo_id is None && cancelled ==> r@ == StepView::Finish,
        final(s)@.collected == old(s)@.collected,
        final(s)@.page == old(s)@.page,
{
    assert(postings_view(jobs@).len() == 0);
}

/// A load that failed ends the search, as a failure on the first page and with what there is on a
/// later one.
pub proof fn failed_load_is_told_apart_by_its_page(s: &mut PagedSearch, cancelled: bool, r: Step)
    requires
        call_ensures(PagedSearch::loaded, (s, None::<Vec<JobPosting>>, cancelled), r),
        old(s)@.valid(),
        old(s)@.phase == Phase::Loading || old(s)@.phase == Phase::Retrying,
    ensures
        old(s)@.page == 0 ==> r@ == StepView::FailLoad,
        old(s)@.page > 0 ==> r@ == StepView::Finish,
        final(s)@.phase == Phase::Over,
        final(s)@.collected == old(s)@.collected,
{
}

/// After a pause between pages the next page is loaded, from ten results further on; after the
/// pause before a second try the first page is. A cancelled search loads nothing more.
pub proof fn pause_leads_to_the_next_page(s: &mut PagedSearch, cancelled: bool, r: Step)
    requires
        call_ensures(PagedSearch::resumed, (s, cancelled), r),
        old(s)@.valid(),
        old(s)@.phase == Phase::RetryPause || old(s)@.phase == Phase::PagePause,
    ensures
        cancelled ==> r@ == StepView::Finish && final(s)@.phase == Phase::Over,
        !cancelled && old(s)@.phase == Phase::PagePause ==> r@ == StepView::Load(
            SearchView { start: 10 * (old(s)@.page + 1), ..old(s)@.search },
        ) && final(s)@.phase == Phase::Loading && final(s)@.page == old(s)@.page + 1,
        !cancelled && old(s)@.phase == Phase::RetryPause ==> r@ == StepView::Load(
            SearchView { start: 0, ..old(s)@.search },
        ) && final(s)@.phase == Phase::Retrying && final(s)@.page == 0,
        final(s)@.collected == old(s)@.collected,
        final(s)@.max_pages == old(s)@.max_pages,
        final(s)@.search == old(s)@.search,
{
}

/// What is reported of a page is its number, counted from one, and how many there are; a page that
/// held nothing is not reported.
pub proof fn pages_are_reported_from_one(
    s: &PagedSearch,
    found: bool,
    r: Option<(usize, usize)>,
)
    requires
        call_ensures(PagedSearch::progress, (s, found), r),
    ensures
        found ==> (r matches Some((done, all)) && done == s@.page + 1 && all == s@.max_pages),
        !found ==> r is None,
{
}

/// Only a search that is complete reports its end.
pub proof fn only_complete_searches_report_their_end(step: &Step, r: bool)
    requires
        call_ensures(Step::reports_end, (step,), r),
    ensures
        r <==> *step is Finish,
{
}

/// A first page is a refusal exactly where it holds no card.
pub proof fn only_empty_first_pages_are_refusals(cards: usize, r: bool)
    requires
        call_ensures(page0_is_soft_block, (cards,), r),
    ensures
        r <==> cards == 0,
{
}

// ── The address ─────────────────────────────────────────────────────────────

/// The address of a search names what the search asks for, each thing under its own name.
pub proof fn address_says_what_the_search_asks(p: &JobsSearchParams, r: String)
    requires
        call_ensures(guest_search_url, (p,), r),
    ensures
        ("https://www.linkedin.com/jobs-guest/jobs/api/seeMoreJobPostings/search?keywords="@
            + encoded(p.keywords@) + "&start="@ + decimal(p.start as nat)).is_prefix_of(r@),
        p.location matches Some(v) ==> adds(
            r@,
            search_address(SearchView { location: None, ..p@ }),
            "&location="@ + encoded(v@),
        ),
        p.geo_id matches Some(v) ==> adds(
            r@,
            search_address(SearchView { geo_id: None, ..p@ }),
            "&geoId="@ + encoded(v@),
        ),
        p.distance matches Some(d) ==> adds(
            r@,
            search_address(SearchView { distance: None, ..p@ }),
            "&distance="@ + decimal(d as nat),
        ),
        p.job_type matches Some(v) ==> adds(
            r@,
            search_address(SearchView { job_type: None, ..p@ }),
            "&f_JT="@ + encoded(v@),
        ),
        p.work_type matches Some(v) ==> adds(
            r@,
            search_address(SearchView { work_type: None, ..p@ }),
            "&f_WT="@ + encoded(v@),
        ),
        p.experience_level matches Some(v) ==> adds(
            r@,
            search_address(SearchView { experience_level: None, ..p@ }),
            "&f_E="@ + encoded(v@),
        ),
        p.sort_by matches Some(v) ==> adds(
            r@,
            search_address(SearchView { sort_by: None, ..p@ }),
            "&sortBy="@ + encoded(v@),
        ),
        p.easy_apply == Some(true) ==> adds(
            r@,
            search_address(SearchView { easy_apply: None, ..p@ }),
            "&f_EA=true"@,
        ),
        p.actively_hiring == Some(true) ==> adds(
            r@,
            search_address(SearchView { actively_hiring: None, ..p@ }),
            "&f_AL=true"@,
        ),
        p.verified == Some(true) ==> adds(
            r@,
            search_address(SearchView { verified: None, ..p@ }),
            "&f_VJ=true"@,
        ),
{
    address_begins_with_keywords_and_start(p@);
    address_names_what_is_asked_for(p@);
}

/// A request goes to the address of its search under the session that the client has.
pub proof fn requests_go_to_the_address<S>(
    client: &LinkedInJobsApiClient<S>,
    params: &JobsSearchParams,
    r: GuestRequest<'_, S>,
)
    requires
        call_ensures(LinkedInJobsApiClient::<S>::guest_request, (client, params), r),
    ensures
        r.url@ == search_address(params@),
        r.session is Some <==> client.client.session is Some,
        r.session is Some ==> *r.session->0 == client.client.session->0,
{
}

// ── Cards ───────────────────────────────────────────────────────────────────

/// The text of the first element below another that a selector picks, without the white space
/// round it.
pub open spec fn text_below(element: scraper::ElementRef, css: Seq<char>) -> Seq<char> {
    match first_match(element, selector(css)->0) {
        Some(found) => trimmed(inner_text(found)),
        None => trimmed(Seq::empty()),
    }
}

/// A card says what stands in its element: the title, the company and the place are the texts of
/// their elements, the link and the name of the job are attributes of theirs, and the time has its
/// attribute and its text.
pub proof fn cards_say_what_their_elements_say(html: Seq<char>, i: int)
    requires
        page_cards(html) is Some,
        0 <= i < page_cards(html)->0.len(),
    ensures
        ({
            let found = all_matches(document(html), selector("li"@)->0);
            let element = found[i];
            let card = page_cards(html)->0[i];
            let link = first_match(
                element,
                selector("a.base-card__full-link, a.base-search-card__link"@)->0,
            );
            let urn = first_match(element, selector("[data-entity-urn]"@)->0);
            let time = first_match(element, selector("time"@)->0);
            &&& page_cards(html)->0.len() == found.len()
            &&& card.title == text_below(
                element,
                ".base-search-card__title, .job-card-container__title"@,
            )
            &&& card.company == text_below(
                element,
                ".base-search-card__subtitle, .job-card-container__subtitle"@,
            )
            &&& card.location == text_below(
                element,
                ".job-search-card__location, .job-card-container__location"@,
            )
            &&& link is Some && attribute(link->0, "href"@) is Some ==> Some(card.link)
                == attribute(link->0, "href"@)
            &&& link is None || attribute(link->0, "href"@) is None ==> card.link.len() == 0
            &&& urn is Some ==> card.entity_urn == attribute(urn->0, "data-entity-urn"@)
            &&& urn is None ==> card.entity_urn is None
            &&& time is Some ==> card.time == Some(
                (attribute(time->0, "datetime"@), inner_text(time->0)),
            )
            &&& time is None ==> card.time is None
        }),
{
}

/// A page that is too long is refused for that, one whose selectors do not compile for that, and
/// one that is never cancelled has the postings of all its cards or is refused for its dates.
pub proof fn pages_are_read_whole(
    html: Seq<char>,
    now: i64,
    r: Result<Vec<JobPosting>, PageError>,
)
    requires
        page_read(html, now, true, false, r),
    ensures
        !parsable(html) <==> r == Err::<Vec<JobPosting>, PageError>(PageError::TooLong),
        parsable(html) && page_cards(html) is None <==> r == Err::<Vec<JobPosting>, PageError>(
            PageError::Selector,
        ),
        r matches Ok(v) ==> crate::linkedin::cards::page_postings(
            page_cards(html)->0,
            page_cards(html)->0.len(),
            now,
        ) == Ok::<Seq<crate::posting::PostingView>, crate::linkedin::posted::OutOfCalendar>(
            postings_view(v@),
        ),
        r == Err::<Vec<JobPosting>, PageError>(PageError::OutOfCalendar)
            ==> crate::linkedin::cards::page_postings(
            page_cards(html)->0,
            page_cards(html)->0.len(),
            now,
        ) is Err,
{
    if parsable(html) && page_cards(html) is Some {
        let cards = page_cards(html)->0;
        match r {
            Ok(v) => {
                undisturbed_walk_is_whole(cards, now, true, Ok(postings_view(v@)));
            },
            Err(_) => {
                undisturbed_walk_is_whole(
                    cards,
                    now,
                    true,
                    Err(crate::linkedin::posted::OutOfCalendar),
                );
            },
        }
    }
}

// ── Ages ────────────────────────────────────────────────────────────────────

/// A text such as "3 days ago" names the instant that many days before now, and so for the other
/// units.
pub proof fn ages_lead_back_from_now(s: &str, now: i64, n: nat, r: Option<i64>)
    requires
        call_ensures(relative_time, (s, now), r),
        n <= i64::MAX,
    ensures
        s@ == decimal(n) + " minutes ago"@ ==> (r matches Some(at) && at + n * 60_000 == now),
        s@ == decimal(n) + " hours ago"@ ==> (r matches Some(at) && at + n * 3_600_000 == now),
        s@ == decimal(n) + " days ago"@ ==> (r matches Some(at) && at + n * 86_400_000 == now),
        s@ == decimal(n) + " weeks ago"@ ==> (r matches Some(at) && at + n * 604_800_000 == now),
        s@ == decimal(n) + " months ago"@ ==> (r matches Some(at) && at + n * 2_592_000_000 == now),
        s@ == decimal(n) + " years ago"@ ==> (r matches Some(at) && at + n * 31_536_000_000 == now),
{
    minutes_are_counted(n);
    hours_are_counted(n);
    days_are_counted(n);
    weeks_are_counted(n);
    months_are_counted(n);
    years_are_counted(n);
}

/// A text in any case names an age by its lower-case form, back from now; an instant outside the
/// calendar is an error.
pub proof fn ages_are_read_in_lower_case(
    text: &str,
    now: i64,
    r: Result<Option<i64>, OutOfCalendar>,
)
    requires
        call_ensures(parse_relative_time, (text, now), r),
    ensures
        match age_millis(lowered(text@)) {
            None => r matches Ok(None),
            Some(age) => if -8_334_601_228_800_000 <= now - age <= 8_210_266_876_799_999 {
                r matches Ok(Some(at)) && at + age == now
            } else {
                r is Err
            },
        },
{
}

} // verus!
