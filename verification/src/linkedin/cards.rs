//! From the HTML of a search page to postings.
use vstd::prelude::*;
use vstd::string::StringExecFns;

use crate::clock::current_millis;
use crate::linkedin::html::{
    all_matches, attribute, document, first_match, fits_parser, inner_text, parsable,
    parse_document, parse_selector, read_attribute, read_text, select_all, select_first, selector,
};
use crate::linkedin::posted::{
    age_millis, in_calendar, iso_millis, parse_iso_date, parse_relative_time, OutOfCalendar,
};
use crate::posting::{postings_view, JobPosting, PostingView};
use crate::text::{
    after_last, before_first, lowercase, lowered, opt_text, owned,
    split_after_last, split_before_first, str_eq, trim, trimmed,
};

verus! {

// ── Cards ───────────────────────────────────────────────────────────────────

/// The `<time>` element of a card.
#[derive(Debug, PartialEq, Eq)]
pub struct CardTime {
    pub datetime: Option<String>,
    pub text: String,
}

/// What a search page says of one result.
#[derive(Debug, PartialEq, Eq)]
pub struct GuestCard {
    pub link: String,
    pub entity_urn: Option<String>,
    pub title: String,
    pub company: String,
    pub location: String,
    pub time: Option<CardTime>,
}

/// [`GuestCard`] as values; a time is its attribute and its text.
#[verifier::ext_equal]
pub struct CardView {
    pub link: Seq<char>,
    pub entity_urn: Option<Seq<char>>,
    pub title: Seq<char>,
    pub company: Seq<char>,
    pub location: Seq<char>,
    pub time: Option<(Option<Seq<char>>, Seq<char>)>,
}

impl View for GuestCard {
    type V = CardView;

    open spec fn view(&self) -> CardView {
        CardView {
            link: self.link@,
            entity_urn: opt_text(self.entity_urn),
            title: self.title@,
            company: self.company@,
            location: self.location@,
            time: match self.time {
                Some(t) => Some((opt_text(t.datetime), t.text@)),
                None => None,
            },
        }
    }
}

/// The cards of a list as values.
pub open spec fn cards_view(v: Seq<GuestCard>) -> Seq<CardView> {
    Seq::new(v.len(), |i: int| v[i]@)
}

/// The selectors of a search page.
pub struct CardSelectors {
    pub card: scraper::Selector,
    pub link: scraper::Selector,
    pub entity_urn: scraper::Selector,
    pub title: scraper::Selector,
    pub company: scraper::Selector,
    pub location: scraper::Selector,
    pub time: scraper::Selector,
}

/// The selectors of a search page, `None` where one of them does not compile.
pub open spec fn card_selectors() -> Option<CardSelectors> {
    match (
        selector("li"@),
        selector("a.base-card__full-link, a.base-search-card__link"@),
        selector("[data-entity-urn]"@),
        selector(".base-search-card__title, .job-card-container__title"@),
        selector(".base-search-card__subtitle, .job-card-container__subtitle"@),
        selector(".job-search-card__location, .job-card-container__location"@),
        selector("time"@),
    ) {
        (
            Some(card),
            Some(link),
            Some(entity_urn),
            Some(title),
            Some(company),
            Some(location),
            Some(time),
        ) => Some(CardSelectors { card, link, entity_urn, title, company, location, time }),
        _ => None,
    }
}

fn compile_selectors() -> (r: Option<CardSelectors>)
    ensures
        r == card_selectors(),
{
    match (
        parse_selector("li"),
        parse_selector("a.base-card__full-link, a.base-search-card__link"),
        parse_selector("[data-entity-urn]"),
        parse_selector(".base-search-card__title, .job-card-container__title"),
        parse_selector(".base-search-card__subtitle, .job-card-container__subtitle"),
        parse_selector(".job-search-card__location, .job-card-container__location"),
        parse_selector("time"),
    ) {
        (
            Some(card),
            Some(link),
            Some(entity_urn),
            Some(title),
            Some(company),
            Some(location),
            Some(time),
        ) => Some(CardSelectors { card, link, entity_urn, title, company, location, time }),
        _ => None,
    }
}

/// An attribute of the first match below an element.
pub open spec fn first_attribute(
    element: scraper::ElementRef,
    wanted: scraper::Selector,
    name: Seq<char>,
) -> Option<Seq<char>> {
    match first_match(element, wanted) {
        Some(found) => attribute(found, name),
        None => None,
    }
}

/// The text of the first match below an element without the white space round it, empty where
/// nothing matches.
pub open spec fn first_text(element: scraper::ElementRef, wanted: scraper::Selector) -> Seq<char> {
    match first_match(element, wanted) {
        Some(found) => trimmed(inner_text(found)),
        None => trimmed(Seq::empty()),
    }
}

/// The card that an element is.
pub open spec fn card_of(element: scraper::ElementRef, with: CardSelectors) -> CardView {
    CardView {
        link: match first_attribute(element, with.link, "href"@) {
            Some(link) => link,
            None => Seq::empty(),
        },
        entity_urn: first_attribute(element, with.entity_urn, "data-entity-urn"@),
        title: first_text(element, with.title),
        company: first_text(element, with.company),
        location: first_text(element, with.location),
        time: match first_match(element, with.time) {
            Some(found) => Some((attribute(found, "datetime"@), inner_text(found))),
            None => None,
        },
    }
}

/// The cards of a search page, `None` where a selector does not compile.
pub open spec fn page_cards(html: Seq<char>) -> Option<Seq<CardView>> {
    match card_selectors() {
        None => None,
        Some(with) => {
            let found = all_matches(document(html), with.card);
            Some(Seq::new(found.len(), |i: int| card_of(found[i], with)))
        },
    }
}

fn read_first_attribute(
    element: &scraper::ElementRef,
    wanted: &scraper::Selector,
    name: &str,
) -> (r: Option<String>)
    ensures
        opt_text(r) == first_attribute(*element, *wanted, name@),
{
    match select_first(element, wanted) {
        Some(found) => read_attribute(&found, name),
        None => None,
    }
}

fn read_first_text(element: &scraper::ElementRef, wanted: &scraper::Selector) -> (r: String)
    ensures
        r@ == first_text(*element, *wanted),
{
    match select_first(element, wanted) {
        Some(found) => trim(read_text(&found).as_str()),
        None => trim(String::new().as_str()),
    }
}

fn read_card(element: &scraper::ElementRef, with: &CardSelectors) -> (r: GuestCard)
    ensures
        r@ == card_of(*element, *with),
{
    let link: String = match read_first_attribute(element, &with.link, "href") {
        Some(link) => link,
        None => String::new(),
    };
    let time: Option<CardTime> = match select_first(element, &with.time) {
        Some(found) => Some(
            CardTime { datetime: read_attribute(&found, "datetime"), text: read_text(&found) },
        ),
        None => None,
    };
    GuestCard {
        link,
        entity_urn: read_first_attribute(element, &with.entity_urn, "data-entity-urn"),
        title: read_first_text(element, &with.title),
        company: read_first_text(element, &with.company),
        location: read_first_text(element, &with.location),
        time,
    }
}

/// Reads the cards of a search page, in the order in which the parser made their elements.
pub fn read_guest_cards(html: &str) -> (r: Option<Vec<GuestCard>>)
    requires
        parsable(html@),
    ensures
        match r {
            Some(cards) => page_cards(html@) == Some(cards_view(cards@)),
            None => page_cards(html@) is None,
        },
{
    let with: CardSelectors = match compile_selectors() {
        Some(with) => with,
        None => return None,
    };
    let page: scraper::Html = parse_document(html);
    let found: Vec<scraper::ElementRef> = select_all(&page, &with.card);
    let mut cards: Vec<GuestCard> = Vec::new();
    let mut i: usize = 0;
    while i < found.len()
        invariant
            i <= found@.len(),
            cards@.len() == i,
            forall|k: int| 0 <= k < i ==> (#[trigger] cards@[k])@ == card_of(found@[k], with),
        decreases found@.len() - i,
    {
        cards.push(read_card(&found[i], &with));
        i = i + 1;
    }
    assert(cards_view(cards@) =~= Seq::new(found@.len(), |k: int| card_of(found@[k], with)));
    Some(cards)
}

// ── From cards to postings ──────────────────────────────────────────────────

/// The job id of a card: what stands behind the last colon of its URN.
pub open spec fn card_id(card: CardView) -> Option<Seq<char>> {
    match card.entity_urn {
        Some(urn) => Some(after_last(urn, ':')),
        None => None,
    }
}

/// Whether the card at `i` has an id that no card before it has.
pub open spec fn first_with_id(cards: Seq<CardView>, i: int) -> bool {
    &&& card_id(cards[i]) is Some
    &&& forall|j: int| 0 <= j < i ==> card_id(#[trigger] cards[j]) != card_id(cards[i])
}

/// When a card's posting was published as seen from `now`: by the `datetime` attribute, or else
/// by the visible text, which says when the posting was last refreshed. An instant outside the
/// calendar is an error.
pub open spec fn card_posted(card: CardView, now: i64) -> Result<Option<i64>, OutOfCalendar> {
    match card.time {
        None => Ok(None),
        Some((datetime, text)) => {
            let iso = match datetime {
                Some(value) => iso_millis(value),
                None => None,
            };
            if iso is Some {
                Ok(iso)
            } else {
                match age_millis(lowered(lowered(trimmed(text)))) {
                    None => Ok(None),
                    Some(age) => if in_calendar(now - age) {
                        Ok(Some((now - age) as i64))
                    } else {
                        Err(OutOfCalendar)
                    },
                }
            }
        },
    }
}

/// The posting of a card. A search page never carries a description, so it is blank.
pub open spec fn posting_of(
    card: CardView,
    id: Seq<char>,
    posted_at: Option<i64>,
    now: i64,
) -> PostingView {
    PostingView {
        id: "linkedin:"@ + id,
        source: "linkedin"@,
        external_id: Some(id),
        url: before_first(card.link, '?'),
        title: card.title,
        company: card.company,
        location: Some(card.location),
        description: Some(Seq::empty()),
        captured_at: now,
        posted_at,
    }
}

/// The postings of the first `n` cards, one for each job id, or the error of the first of them
/// that was published outside the calendar.
pub open spec fn page_postings(cards: Seq<CardView>, n: nat, now: i64) -> Result<
    Seq<PostingView>,
    OutOfCalendar,
>
    decreases n,
{
    if n == 0 {
        Ok(Seq::empty())
    } else {
        let card = cards[n - 1];
        match page_postings(cards, (n - 1) as nat, now) {
            Err(e) => Err(e),
            Ok(done) => if first_with_id(cards, n - 1) {
                match card_posted(card, now) {
                    Err(e) => Err(e),
                    Ok(posted_at) => Ok(
                        done.push(posting_of(card, card_id(card)->0, posted_at, now)),
                    ),
                }
            } else {
                Ok(done)
            },
        }
    }
}

/// Whether the list comes out of a walk over the cards that went to the end or was cancelled
/// before a card. The walk is asked before each card whether it goes on: `may_go` and `may_stop`
/// say which answers there can be.
pub open spec fn walked(
    cards: Seq<CardView>,
    now: i64,
    may_go: bool,
    may_stop: bool,
    r: Result<Seq<PostingView>, OutOfCalendar>,
) -> bool {
    exists|n: nat|
        #![trigger page_postings(cards, n, now)]
        n <= cards.len() && r == page_postings(cards, n, now) && (n > 0 ==> may_go) && (n
            == cards.len() || may_stop || r is Err)
}

fn read_posted(card: &GuestCard, now: i64) -> (r: Result<Option<i64>, OutOfCalendar>)
    ensures
        r == card_posted(card@, now),
{
    match &card.time {
        None => Ok(None),
        Some(time) => {
            let iso: Option<i64> = match &time.datetime {
                Some(value) => parse_iso_date(value.as_str()),
                None => None,
            };
            if iso.is_some() {
                return Ok(iso);
            }
            let text: String = lowercase(trim(time.text.as_str()).as_str());
            parse_relative_time(text.as_str(), now)
        },
    }
}

fn make_posting(card: &GuestCard, id: &str, posted_at: Option<i64>, now: i64) -> (r: JobPosting)
    ensures
        r@ == posting_of(card@, id@, posted_at, now),
{
    let mut full_id = owned("linkedin:");
    full_id.append(id);
    JobPosting {
        id: full_id,
        source: owned("linkedin"),
        external_id: Some(owned(id)),
        url: split_before_first(card.link.as_str(), '?'),
        title: card.title.clone(),
        company: card.company.clone(),
        location: Some(card.location.clone()),
        description: Some(String::new()),
        captured_at: now,
        posted_at,
    }
}

fn seen_before(cards: &Vec<GuestCard>, upto: usize, id: &str) -> (r: bool)
    requires
        upto <= cards@.len(),
    ensures
        r == exists|j: int|
            0 <= j < upto && card_id((#[trigger] cards_view(cards@)[j])) == Some(id@),
{
    let mut j: usize = 0;
    while j < upto
        invariant
            j <= upto <= cards@.len(),
            forall|k: int|
                0 <= k < j ==> card_id((#[trigger] cards_view(cards@)[k])) != Some(id@),
        decreases upto - j,
    {
        if let Some(urn) = &cards[j].entity_urn {
            if str_eq(split_after_last(urn.as_str(), ':').as_str(), id) {
                assert(card_id(cards_view(cards@)[j as int]) == Some(id@));
                return true;
            }
        }
        j = j + 1;
    }
    false
}

/// The postings of the cards, one for each job id, in the order of the cards. `cancelled` is
/// asked before each card, and the walk stops where it says so.
pub fn guest_postings(cards: &Vec<GuestCard>, now: i64, cancelled: impl Fn() -> bool) -> (r: Result<
    Vec<JobPosting>,
    OutOfCalendar,
>)
    requires
        cancelled.requires(()),
    ensures
        walked(
            cards_view(cards@),
            now,
            cancelled.ensures((), false),
            cancelled.ensures((), true),
            (match r {
                Ok(v) => Ok(postings_view(v@)),
                Err(e) => Err(e),
            }),
        ),
{
    let ghost view = cards_view(cards@);
    let mut out: Vec<JobPosting> = Vec::new();
    let mut i: usize = 0;
    assert(postings_view(out@) =~= Seq::empty());
    while i < cards.len()
        invariant
            i <= cards@.len(),
            view == cards_view(cards@),
            cancelled.requires(()),
            i > 0 ==> cancelled.ensures((), false),
            page_postings(view, i as nat, now) == Ok::<Seq<PostingView>, OutOfCalendar>(
                postings_view(out@),
            ),
        decreases cards@.len() - i,
    {
        if cancelled() {
            return Ok(out);
        }
        let ghost before = postings_view(out@);
        if let Some(urn) = &cards[i].entity_urn {
            let id: String = split_after_last(urn.as_str(), ':');
            if !seen_before(cards, i, id.as_str()) {
                assert(first_with_id(view, i as int));
                match read_posted(&cards[i], now) {
                    Err(e) => {
                        assert(page_postings(view, i as nat + 1, now) == Err::<
                            Seq<PostingView>,
                            OutOfCalendar,
                        >(e));
                        return Err(e);
                    },
                    Ok(posted_at) => {
                        out.push(make_posting(&cards[i], id.as_str(), posted_at, now));
                        assert(postings_view(out@) =~= before.push(out@.last()@));
                    },
                }
            } else {
                assert(!first_with_id(view, i as int));
            }
        }
        i = i + 1;
    }
    Ok(out)
}

/// Why a search page could not be read.
#[derive(Debug, Clone, Copy, PartialEq, Eq, Structural)]
pub enum PageError {
    /// The page is too long to be parsed.
    TooLong,
    /// A selector of the page does not compile.
    Selector,
    /// A posting was published outside the calendar.
    OutOfCalendar,
}

/// Whether a result is what reading a search page at an instant gives: its cards, read and walked.
pub open spec fn page_read(
    html: Seq<char>,
    now: i64,
    may_go: bool,
    may_stop: bool,
    r: Result<Vec<JobPosting>, PageError>,
) -> bool {
    if !parsable(html) {
        r == Err::<Vec<JobPosting>, PageError>(PageError::TooLong)
    } else {
        match page_cards(html) {
            None => r == Err::<Vec<JobPosting>, PageError>(PageError::Selector),
            Some(cards) => match r {
                Ok(v) => walked(cards, now, may_go, may_stop, Ok(postings_view(v@))),
                Err(e) => e == PageError::OutOfCalendar && walked(
                    cards,
                    now,
                    may_go,
                    may_stop,
                    Err(OutOfCalendar),
                ),
            },
        }
    }
}

/// The postings of a search page's HTML, as seen from `now`: its cards, read and walked.
/// `cancelled` is asked before each card, and the walk stops where it says so.
pub fn read_guest_page(html: &str, now: i64, cancelled: impl Fn() -> bool) -> (r: Result<
    Vec<JobPosting>,
    PageError,
>)
    requires
        cancelled.requires(()),
    ensures
        page_read(html@, now, cancelled.ensures((), false), cancelled.ensures((), true), r),
{
    if !fits_parser(html) {
        return Err(PageError::TooLong);
    }
    match read_guest_cards(html) {
        None => Err(PageError::Selector),
        Some(cards) => match guest_postings(&cards, now, cancelled) {
            Ok(v) => Ok(v),
            Err(_) => Err(PageError::OutOfCalendar),
        },
    }
}

/// The postings of a search page's HTML, as seen from the time of the call.
pub fn read_guest_page_now(html: &str, cancelled: impl Fn() -> bool) -> (r: Result<
    Vec<JobPosting>,
    PageError,
>)
    requires
        cancelled.requires(()),
    ensures
        exists|now: i64| #[trigger]
            page_read(html@, now, cancelled.ensures((), false), cancelled.ensures((), true), r),
{
    let now: i64 = current_millis();
    read_guest_page(html, now, cancelled)
}

// ── Laws ────────────────────────────────────────────────────────────────────

/// A walk that is cancelled from the start reads no card.
pub proof fn cancelled_walk_is_empty(
    cards: Seq<CardView>,
    now: i64,
    may_stop: bool,
    r: Result<Seq<PostingView>, OutOfCalendar>,
)
    requires
        walked(cards, now, false, may_stop, r),
    ensures
        r == Ok::<Seq<PostingView>, OutOfCalendar>(Seq::empty()),
{
}

/// A walk that is never cancelled reads every card.
pub proof fn undisturbed_walk_is_whole(
    cards: Seq<CardView>,
    now: i64,
    may_go: bool,
    r: Result<Seq<PostingView>, OutOfCalendar>,
)
    requires
        walked(cards, now, may_go, false, r),
    ensures
        r == page_postings(cards, cards.len(), now),
{
    let n = choose|n: nat|
        #![trigger page_postings(cards, n, now)]
        n <= cards.len() && r == page_postings(cards, n, now) && (n == cards.len() || r is Err);
    if r is Err {
        lemma_errors_stay(cards, n, cards.len(), now);
    }
}

proof fn lemma_errors_stay(cards: Seq<CardView>, n: nat, m: nat, now: i64)
    requires
        n <= m,
        page_postings(cards, n, now) is Err,
    ensures
        page_postings(cards, m, now) == page_postings(cards, n, now),
    decreases m,
{
    if n < m {
        lemma_errors_stay(cards, n, (m - 1) as nat, now);
    }
}

/// No two postings of a page share a job id.
pub proof fn page_ids_distinct(cards: Seq<CardView>, n: nat, now: i64)
    requires
        n <= cards.len(),
        page_postings(cards, n, now) is Ok,
    ensures
        forall|i: int, j: int|
            0 <= i < j < page_postings(cards, n, now)->Ok_0.len() ==> (
            #[trigger] page_postings(cards, n, now)->Ok_0[i]).external_id != (
            #[trigger] page_postings(cards, n, now)->Ok_0[j]).external_id,
    decreases n,
{
    lemma_page_ids(cards, n, now);
}

proof fn lemma_page_ids(cards: Seq<CardView>, n: nat, now: i64)
    requires
        n <= cards.len(),
        page_postings(cards, n, now) is Ok,
    ensures
        forall|i: int|
            0 <= i < page_postings(cards, n, now)->Ok_0.len() ==> exists|c: int|
                0 <= c < n && card_id(#[trigger] cards[c]) == (#[trigger] page_postings(
                    cards,
                    n,
                    now,
                )->Ok_0[i]).external_id,
        forall|i: int, j: int|
            0 <= i < j < page_postings(cards, n, now)->Ok_0.len() ==> (
            #[trigger] page_postings(cards, n, now)->Ok_0[i]).external_id != (
            #[trigger] page_postings(cards, n, now)->Ok_0[j]).external_id,
    decreases n,
{
    if n > 0 {
        lemma_page_ids(cards, (n - 1) as nat, now);
        let done = page_postings(cards, (n - 1) as nat, now)->Ok_0;
        let all = page_postings(cards, n, now)->Ok_0;
        if first_with_id(cards, n - 1) {
            assert forall|i: int| 0 <= i < all.len() implies exists|c: int|
                0 <= c < n && card_id(#[trigger] cards[c]) == (#[trigger] all[i]).external_id by {
                if i < done.len() {
                    assert(all[i] == done[i]);
                    let c = choose|c: int|
                        0 <= c < n - 1 && card_id(#[trigger] cards[c]) == done[i].external_id;
                    assert(card_id(cards[c]) == all[i].external_id);
                } else {
                    assert(card_id(cards[n - 1]) == all[i].external_id);
                }
            }
            assert forall|i: int, j: int| 0 <= i < j < all.len() implies (
            #[trigger] all[i]).external_id != (#[trigger] all[j]).external_id by {
                assert(all[i] == done[i]);
                if j < done.len() {
                    assert(all[j] == done[j]);
                } else {
                    let c = choose|c: int|
                        0 <= c < n - 1 && card_id(#[trigger] cards[c]) == done[i].external_id;
                    assert(card_id(cards[c]) != card_id(cards[n - 1]));
                }
            }
        }
    }
}

/// The postings of a page are those of its cards that name a job, each job once, at its first
/// card, in the order of the cards. A posting says what its card says: the id behind the last
/// colon of the card's name for the job, the link up to its question mark, the title, the company
/// and the place. `r` is where the cards stand.
pub proof fn postings_say_what_their_cards_say(cards: Seq<CardView>, n: nat, now: i64) -> (r: Seq<
    int,
>)
    requires
        n <= cards.len(),
        page_postings(cards, n, now) is Ok,
    ensures
        r.len() == page_postings(cards, n, now)->Ok_0.len(),
        forall|j: int, k: int| 0 <= j < k < r.len() ==> #[trigger] r[j] < #[trigger] r[k],
        forall|k: int|
            0 <= k < r.len() ==> {
                let card = cards[#[trigger] r[k]];
                let p = page_postings(cards, n, now)->Ok_0[k];
                &&& 0 <= r[k] < n
                &&& card.entity_urn is Some
                &&& p.external_id == Some(after_last(card.entity_urn->0, ':'))
                &&& p.id == "linkedin:"@ + after_last(card.entity_urn->0, ':')
                &&& p.source == "linkedin"@
                &&& p.url == before_first(card.link, '?')
                &&& p.title == card.title
                &&& p.company == card.company
                &&& p.location == Some(card.location)
                &&& p.description == Some(Seq::<char>::empty())
                &&& p.captured_at == now
                &&& card_posted(card, now) == Ok::<Option<i64>, OutOfCalendar>(p.posted_at)
            },
        forall|i: int|
            0 <= i < n ==> (r.contains(i) <==> (#[trigger] cards[i]).entity_urn is Some && forall|
                j: int,
            |
                0 <= j < i && (#[trigger] cards[j]).entity_urn is Some ==> after_last(
                    cards[j].entity_urn->0,
                    ':',
                ) != after_last(cards[i].entity_urn->0, ':')),
    decreases n,
{
    if n == 0 {
        Seq::empty()
    } else {
        let m = n - 1;
        let before = postings_say_what_their_cards_say(cards, m as nat, now);
        let done = page_postings(cards, m as nat, now)->Ok_0;
        let all = page_postings(cards, n, now)->Ok_0;
        let fresh = first_with_id(cards, m);
        let r = if fresh {
            before.push(m)
        } else {
            before
        };
        assert forall|k: int| 0 <= k < r.len() implies {
            let card = cards[#[trigger] r[k]];
            let p = all[k];
            &&& 0 <= r[k] < n
            &&& card.entity_urn is Some
            &&& p.external_id == Some(after_last(card.entity_urn->0, ':'))
            &&& p.id == "linkedin:"@ + after_last(card.entity_urn->0, ':')
            &&& p.source == "linkedin"@
            &&& p.url == before_first(card.link, '?')
            &&& p.title == card.title
            &&& p.company == card.company
            &&& p.location == Some(card.location)
            &&& p.description == Some(Seq::<char>::empty())
            &&& p.captured_at == now
            &&& card_posted(card, now) == Ok::<Option<i64>, OutOfCalendar>(p.posted_at)
        } by {
            if k < before.len() {
                assert(r[k] == before[k]);
                assert(all[k] == done[k]);
            }
        }
        assert forall|j: int, k: int| 0 <= j < k < r.len() implies #[trigger] r[j]
            < #[trigger] r[k] by {
            assert(r[j] == before[j]);
            if k < before.len() {
                assert(r[k] == before[k]);
            }
        }
        assert forall|i: int| 0 <= i < n implies (r.contains(i) <==> (
        #[trigger] cards[i]).entity_urn is Some && forall|j: int|
            0 <= j < i && (#[trigger] cards[j]).entity_urn is Some ==> after_last(
                cards[j].entity_urn->0,
                ':',
            ) != after_last(cards[i].entity_urn->0, ':')) by {
            if i < m {
                if before.contains(i) {
                    let k = choose|k: int| 0 <= k < before.len() && before[k] == i;
                    assert(r[k] == i);
                }
                if r.contains(i) {
                    let k = choose|k: int| 0 <= k < r.len() && r[k] == i;
                    assert(before[k] == i);
                }
            } else {
                if fresh {
                    assert(r[before.len() as int] == m);
                    assert forall|j: int|
                        0 <= j < i && (#[trigger] cards[j]).entity_urn is Some implies after_last(
                        cards[j].entity_urn->0,
                        ':',
                    ) != after_last(cards[i].entity_urn->0, ':') by {
                        assert(card_id(cards[j]) != card_id(cards[i]));
                    }
                } else {
                    if r.contains(m) {
                        let k = choose|k: int| 0 <= k < before.len() && before[k] == m;
                        assert(0 <= before[k] < m);
                    }
                    if cards[m].entity_urn is Some {
                        let j = choose|j: int|
                            0 <= j < m && card_id(#[trigger] cards[j]) == card_id(cards[m]);
                        assert(cards[j].entity_urn is Some);
                    }
                }
            }
        }
        r
    }
}

/// A posting was published when its card's date says. Only where that is missing or unreadable
/// the visible age counts, back from now; without either nothing is known, and an age that leads
/// out of the calendar is an error.
pub proof fn date_of_a_card_counts_before_its_age(card: CardView, now: i64)
    ensures
        ({
            let date = match card.time {
                Some((Some(value), _)) => iso_millis(value),
                _ => None,
            };
            let age = match card.time {
                Some((_, text)) => age_millis(lowered(lowered(trimmed(text)))),
                None => None,
            };
            &&& date is Some ==> card_posted(card, now) == Ok::<Option<i64>, OutOfCalendar>(date)
            &&& date is None && age is None ==> card_posted(card, now) == Ok::<
                Option<i64>,
                OutOfCalendar,
            >(None)
            &&& date is None && age is Some && -8_334_601_228_800_000 <= now - age->0
                <= 8_210_266_876_799_999 ==> (card_posted(card, now) matches Ok(Some(at)) && at
                + age->0 == now)
            &&& date is None && age is Some && !(-8_334_601_228_800_000 <= now - age->0
                <= 8_210_266_876_799_999) ==> card_posted(card, now) is Err
        }),
{
}

/// A page is refused only for a card that names a job first and whose age leads out of the
/// calendar, and for every such card.
pub proof fn pages_are_refused_for_ages_out_of_the_calendar(
    cards: Seq<CardView>,
    n: nat,
    now: i64,
)
    requires
        n <= cards.len(),
    ensures
        page_postings(cards, n, now) is Err <==> exists|i: int|
            0 <= i < n && first_with_id(cards, i) && card_posted(#[trigger] cards[i], now) is Err,
    decreases n,
{
    if n > 0 {
        let m = n - 1;
        pages_are_refused_for_ages_out_of_the_calendar(cards, m as nat, now);
        if page_postings(cards, m as nat, now) is Err {
            let i = choose|i: int|
                0 <= i < m && first_with_id(cards, i) && card_posted(#[trigger] cards[i], now) is Err;
            assert(0 <= i < n && first_with_id(cards, i) && card_posted(cards[i], now) is Err);
        } else if first_with_id(cards, m) && card_posted(cards[m], now) is Err {
            assert(page_postings(cards, n, now) is Err);
        } else {
            assert(page_postings(cards, n, now) is Ok);
        }
    }
}

/// What is said of a value of [`GuestCard`] is said of its own fields, each by its name.
pub proof fn card_shows_its_own_fields(x: &GuestCard)
    ensures
        x@.link == x.link@,
        x@.entity_urn == opt_text(x.entity_urn),
        x@.title == x.title@,
        x@.company == x.company@,
        x@.location == x.location@,
        x@.time == (match x.time {
                Some(t) => Some((opt_text(t.datetime), t.text@)),
                None => None,
            }),
{
}

/// However a walk is cancelled, what it read are the first postings of the page.
pub proof fn cancelled_walks_read_the_first_postings(
    cards: Seq<CardView>,
    now: i64,
    may_go: bool,
    may_stop: bool,
    list: Seq<PostingView>,
)
    requires
        walked(cards, now, may_go, may_stop, Ok(list)),
        page_postings(cards, cards.len(), now) is Ok,
    ensures
        list.is_prefix_of(page_postings(cards, cards.len(), now)->Ok_0),
        !may_stop ==> list == page_postings(cards, cards.len(), now)->Ok_0,
{
    let r = Ok::<Seq<PostingView>, OutOfCalendar>(list);
    let n = choose|n: nat|
        #![trigger page_postings(cards, n, now)]
        n <= cards.len() && r == page_postings(cards, n, now) && (n > 0 ==> may_go) && (n
            == cards.len() || may_stop || r is Err);
    lemma_pages_grow(cards, n, cards.len(), now);
}

proof fn lemma_pages_grow(cards: Seq<CardView>, n: nat, m: nat, now: i64)
    requires
        n <= m <= cards.len(),
        page_postings(cards, m, now) is Ok,
    ensures
        page_postings(cards, n, now) is Ok,
        page_postings(cards, n, now)->Ok_0.is_prefix_of(page_postings(cards, m, now)->Ok_0),
    decreases m,
{
    if n < m {
        lemma_pages_grow(cards, n, (m - 1) as nat, now);
    }
}

} // verus!
