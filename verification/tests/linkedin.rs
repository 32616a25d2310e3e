use std::cell::Cell;

use job_hunter::linkedin::cards::{
    guest_postings, read_guest_cards, read_guest_page, read_guest_page_now, CardTime, GuestCard,
    PageError,
};
use job_hunter::linkedin::client::{LinkedInHttpClient, LinkedInJobsApiClient};
use job_hunter::linkedin::html::{fits_parser, BUFFER_BYTES};
use job_hunter::linkedin::pages::{page0_is_soft_block, PagedSearch, Phase, Step};
use job_hunter::linkedin::posted::{
    parse_iso_date, parse_relative_time, relative_time, OutOfCalendar, CALENDAR_FIRST_MS,
    CALENDAR_LAST_MS,
};
use job_hunter::linkedin::url::{guest_search_url, JobsSearchParams};
use job_hunter::posting::JobPosting;

const NOW: i64 = 1_767_225_600_000;
const HOUR: i64 = 3_600_000;
const DAY: i64 = 86_400_000;

fn params(keywords: &str) -> JobsSearchParams {
    JobsSearchParams {
        keywords: keywords.to_string(),
        location: None,
        start: 0,
        date_filter: None,
        job_type: None,
        work_type: None,
        experience_level: None,
        easy_apply: None,
        actively_hiring: None,
        verified: None,
        sort_by: None,
        geo_id: None,
        distance: None,
    }
}

const BASE: &str =
    "https://www.linkedin.com/jobs-guest/jobs/api/seeMoreJobPostings/search?keywords=";

// ── The address of a search ─────────────────────────────────────────────────

#[test]
fn a_bare_search_has_keywords_and_start() {
    assert_eq!(guest_search_url(&params("rust")), format!("{BASE}rust&start=0"));
    let mut p = params("c++ & go");
    p.start = 120;
    assert_eq!(guest_search_url(&p), format!("{BASE}c%2B%2B%20%26%20go&start=120"));
}

#[test]
fn every_parameter_has_its_place() {
    let p = JobsSearchParams {
        keywords: "rust".into(),
        location: Some("Köln".into()),
        start: 10,
        date_filter: Some("week".into()),
        job_type: Some("F,C".into()),
        work_type: Some("2".into()),
        experience_level: Some("4".into()),
        easy_apply: Some(true),
        actively_hiring: Some(true),
        verified: Some(true),
        sort_by: Some("DD".into()),
        geo_id: Some("101".into()),
        distance: Some(25),
    };
    assert_eq!(
        guest_search_url(&p),
        format!(
            "{BASE}rust&start=10&location=K%C3%B6ln&geoId=101&distance=25&f_JT=F%2CC\
             &f_TPR=r604800&f_WT=2&f_E=4&f_EA=true&f_AL=true&f_VJ=true&sortBy=DD"
        )
    );
}

#[test]
fn dates_have_their_codes() {
    for (name, code) in [
        ("15m", "r900"),
        ("30m", "r1800"),
        ("1h", "r3600"),
        ("2h", "r7200"),
        ("4h", "r14400"),
        ("8h", "r28800"),
        ("24h", "r86400"),
        ("week", "r604800"),
        ("month", "r2592000"),
    ] {
        let mut p = params("x");
        p.date_filter = Some(name.into());
        assert_eq!(guest_search_url(&p), format!("{BASE}x&start=0&f_TPR={code}"));
    }
    let mut p = params("x");
    p.date_filter = Some("year".into());
    p.easy_apply = Some(false);
    assert_eq!(guest_search_url(&p), format!("{BASE}x&start=0"));
}

// ── Dates ───────────────────────────────────────────────────────────────────

#[test]
fn iso_dates_are_read() {
    assert_eq!(parse_iso_date("1970-01-02"), Some(DAY));
    assert_eq!(parse_iso_date(" 2026-01-01 "), Some(1_767_225_600_000));
    assert_eq!(parse_iso_date("2026-01-01T01:00:00+01:00"), Some(1_767_225_600_000));
    assert_eq!(parse_iso_date("2026-01-01T00:00:00.5Z"), Some(1_767_225_600_500));
    assert_eq!(parse_iso_date("yesterday"), None);
    assert_eq!(parse_iso_date("2026-13-01"), None);
    assert_eq!(parse_iso_date(""), None);
}

#[test]
fn relative_times_are_read() {
    let at = |text: &str| parse_relative_time(text, NOW).unwrap();
    assert_eq!(at("30 minutes ago"), Some(NOW - 30 * 60_000));
    assert_eq!(at("5 min ago"), Some(NOW - 5 * 60_000));
    assert_eq!(at("1 hour ago"), Some(NOW - HOUR));
    assert_eq!(at("2 HRS"), Some(NOW - 2 * HOUR));
    assert_eq!(at("3 days ago"), Some(NOW - 3 * DAY));
    assert_eq!(at("2 weeks ago"), Some(NOW - 14 * DAY));
    assert_eq!(at("1 month ago"), Some(NOW - 30 * DAY));
    assert_eq!(at("2 Years ago"), Some(NOW - 730 * DAY));
    assert_eq!(at("-1 day"), Some(NOW + DAY));
    assert_eq!(at("just now"), None);
    assert_eq!(at("3 fortnights"), None);
    assert_eq!(at(""), None);
    assert_eq!(relative_time("4 weeks", NOW), Some(NOW - 28 * DAY));
}

#[test]
fn times_outside_the_calendar_are_refused() {
    assert_eq!(parse_relative_time("9223372036854775807 years", NOW), Err(OutOfCalendar));
    assert_eq!(parse_relative_time("-9223372036854775808 minutes", NOW), Err(OutOfCalendar));
    assert_eq!(parse_relative_time("0 days", CALENDAR_LAST_MS), Ok(Some(CALENDAR_LAST_MS)));
    assert_eq!(parse_relative_time("0 days", CALENDAR_FIRST_MS), Ok(Some(CALENDAR_FIRST_MS)));
    assert_eq!(parse_relative_time("1 day", CALENDAR_FIRST_MS), Err(OutOfCalendar));
}

// ── Cards ───────────────────────────────────────────────────────────────────

const PAGE: &str = r#"<!doctype html><ul>
  <li>
    <div data-entity-urn="urn:li:jobPosting:11">
      <a class="base-card__full-link" href="https://de.linkedin.com/jobs/view/rust-11?trk=x&pos=1">go</a>
      <h3 class="base-search-card__title">  Rust <b>Engineer</b> </h3>
      <h4 class="base-search-card__subtitle">Acme</h4>
      <span class="job-search-card__location"> Berlin </span>
      <time datetime="2026-01-01">1 hour ago</time>
    </div>
  </li>
  <li><p>no posting</p></li>
  <li><div data-entity-urn="urn:li:jobPosting:11"><h3 class="base-search-card__title">Again</h3></div></li>
  <li>
    <div data-entity-urn="urn:li:jobPosting:12">
      <a class="base-search-card__link" href="https://de.linkedin.com/jobs/view/go-12">go</a>
      <h3 class="job-card-container__title">Go Engineer</h3>
      <time> 2 Days ago </time>
    </div>
  </li>
</ul>"#;

#[test]
fn cards_of_a_page_are_read() {
    let cards = read_guest_cards(PAGE).expect("the selectors compile");
    assert_eq!(cards.len(), 4);
    assert_eq!(
        cards[0],
        GuestCard {
            link: "https://de.linkedin.com/jobs/view/rust-11?trk=x&pos=1".into(),
            entity_urn: Some("urn:li:jobPosting:11".into()),
            title: "Rust Engineer".into(),
            company: "Acme".into(),
            location: "Berlin".into(),
            time: Some(CardTime {
                datetime: Some("2026-01-01".into()),
                text: "1 hour ago".into()
            }),
        }
    );
    assert_eq!(cards[1].entity_urn, None);
    assert_eq!(cards[1].link, "");
    assert_eq!(cards[3].time.as_ref().unwrap().datetime, None);
}

#[test]
fn a_page_gives_one_posting_for_each_id() {
    let postings = read_guest_page(PAGE, NOW, || false).unwrap();
    assert_eq!(
        postings[0],
        JobPosting {
            id: "linkedin:11".into(),
            source: "linkedin".into(),
            external_id: Some("11".into()),
            url: "https://de.linkedin.com/jobs/view/rust-11".into(),
            title: "Rust Engineer".into(),
            company: "Acme".into(),
            location: Some("Berlin".into()),
            description: Some(String::new()),
            captured_at: NOW,
            posted_at: Some(1_767_225_600_000),
        }
    );
    assert_eq!(postings.len(), 2);
    assert_eq!(postings[1].id, "linkedin:12");
    assert_eq!(postings[1].title, "Go Engineer");
    assert_eq!(postings[1].location.as_deref(), Some(""));
    assert_eq!(postings[1].posted_at, Some(NOW - 2 * DAY));
    assert!(read_guest_page("<p>nothing</p>", NOW, || false).unwrap().is_empty());
}

#[test]
fn a_cancelled_walk_keeps_what_it_has() {
    let asked = Cell::new(0);
    let after_two = || {
        asked.set(asked.get() + 1);
        asked.get() > 2
    };
    assert_eq!(read_guest_page(PAGE, NOW, after_two).unwrap().len(), 1);
    assert!(read_guest_page(PAGE, NOW, || true).unwrap().is_empty());
}

#[test]
fn a_card_outside_the_calendar_fails_the_page() {
    let card = GuestCard {
        link: String::new(),
        entity_urn: Some("7".into()),
        title: String::new(),
        company: String::new(),
        location: String::new(),
        time: Some(CardTime { datetime: None, text: "99999999999999 years ago".into() }),
    };
    assert_eq!(guest_postings(&vec![card], NOW, || false), Err(OutOfCalendar));
    let page = r#"<li><i data-entity-urn="7"></i><time>99999999999999 years ago</time></li>"#;
    assert_eq!(read_guest_page(page, NOW, || false), Err(PageError::OutOfCalendar));
}

#[test]
fn an_id_is_what_stands_behind_the_last_colon() {
    let card = |urn: &str| GuestCard {
        link: "l?q".into(),
        entity_urn: Some(urn.into()),
        title: String::new(),
        company: String::new(),
        location: String::new(),
        time: None,
    };
    let cards = vec![card("a:b:1"), card("2"), card("x:1"), card("y:")];
    let ids: Vec<Option<String>> = guest_postings(&cards, NOW, || false)
        .unwrap()
        .into_iter()
        .map(|p| p.external_id)
        .collect();
    assert_eq!(
        ids,
        vec![Some("1".to_string()), Some("2".to_string()), Some(String::new())]
    );
}

// ── Pages ───────────────────────────────────────────────────────────────────

fn posting(id: &str) -> JobPosting {
    JobPosting {
        id: format!("linkedin:{id}"),
        source: "linkedin".into(),
        external_id: Some(id.into()),
        url: format!("https://x/{id}"),
        title: String::new(),
        company: String::new(),
        location: None,
        description: None,
        captured_at: 0,
        posted_at: None,
    }
}

fn start_of(step: &Step) -> usize {
    match step {
        Step::Load(p) => p.start,
        _ => panic!("a page is to be loaded"),
    }
}

fn ids(search: &PagedSearch) -> Vec<String> {
    search.collected().iter().map(|p| p.id.clone()).collect()
}

#[test]
fn pages_are_walked_ten_by_ten() {
    let mut search = PagedSearch::new(&params("rust"), 2);
    assert_eq!(start_of(&search.begin(false)), 0);
    assert_eq!(search.progress(true), Some((1, 2)));
    assert_eq!(search.progress(false), None);
    let step = search.loaded(Some(vec![posting("1"), posting("2")]), false);
    assert!(matches!(step, Step::Pause { base_ms: 500, spread_ms: 500 }));
    assert!(!step.reports_end());
    assert_eq!(search.phase(), Phase::PagePause);
    assert_eq!(start_of(&search.resumed(false)), 10);
    assert_eq!(search.progress(true), Some((2, 2)));
    let step = search.loaded(Some(vec![posting("2"), posting("3")]), false);
    assert!(matches!(step, Step::Finish));
    assert!(step.reports_end());
    assert_eq!(ids(&search), vec!["linkedin:1", "linkedin:2", "linkedin:3"]);
    assert_eq!(search.into_collected().len(), 3);
}

#[test]
fn the_number_of_pages_is_clamped() {
    for (pages, walked) in [(0, 1), (7, 7), (99, 10)] {
        let mut search = PagedSearch::new(&params("x"), pages);
        search.begin(false);
        assert_eq!(search.progress(true), Some((1, walked)));
    }
}

#[test]
fn a_failed_first_page_fails_the_search() {
    let mut search = PagedSearch::new(&params("x"), 3);
    search.begin(false);
    let step = search.loaded(None, false);
    assert!(matches!(step, Step::FailLoad));
    assert!(!step.reports_end());
}

#[test]
fn a_failed_later_page_keeps_what_there_is() {
    let mut search = PagedSearch::new(&params("x"), 3);
    search.begin(false);
    search.loaded(Some(vec![posting("1")]), false);
    search.resumed(false);
    assert!(matches!(search.loaded(None, false), Step::Finish));
    assert_eq!(ids(&search), vec!["linkedin:1"]);
}

#[test]
fn an_empty_first_page_is_a_block() {
    assert!(page0_is_soft_block(0));
    assert!(!page0_is_soft_block(1));
    let mut search = PagedSearch::new(&params("x"), 1);
    search.begin(false);
    assert!(matches!(search.loaded(Some(vec![]), false), Step::FailBlocked));
    let mut search = PagedSearch::new(&params("x"), 1);
    search.begin(false);
    assert!(matches!(search.loaded(Some(vec![]), true), Step::Finish));
}

#[test]
fn an_empty_page_with_an_exact_place_is_tried_without_it() {
    let mut p = params("x");
    p.geo_id = Some("101".into());
    p.distance = Some(5);
    let mut search = PagedSearch::new(&p, 2);
    search.begin(false);
    let step = search.loaded(Some(vec![]), false);
    assert!(matches!(step, Step::Pause { base_ms: 300, spread_ms: 300 }));
    let Step::Load(retry) = search.resumed(false) else { panic!("the page is loaded again") };
    assert_eq!((retry.start, retry.geo_id, retry.distance), (0, None, None));
    search.loaded(Some(vec![posting("1")]), false);
    let Step::Load(next) = search.resumed(false) else { panic!("the next page is loaded") };
    assert_eq!((next.start, next.geo_id), (10, None));

    let mut search = PagedSearch::new(&p, 2);
    search.begin(false);
    search.loaded(Some(vec![]), false);
    search.resumed(false);
    assert!(matches!(search.loaded(None, false), Step::FailLoad));
    let mut search = PagedSearch::new(&p, 2);
    search.begin(false);
    search.loaded(Some(vec![]), false);
    search.resumed(false);
    assert!(matches!(search.loaded(Some(vec![]), false), Step::FailBlocked));
}

#[test]
fn an_empty_later_page_ends_the_search() {
    let mut search = PagedSearch::new(&params("x"), 5);
    search.begin(false);
    search.loaded(Some(vec![posting("1")]), false);
    search.resumed(false);
    assert!(matches!(search.loaded(Some(vec![]), false), Step::Finish));
}

#[test]
fn a_cancelled_search_ends_where_it_is() {
    let mut search = PagedSearch::new(&params("x"), 5);
    assert!(matches!(search.begin(true), Step::Finish));
    let mut search = PagedSearch::new(&params("x"), 5);
    search.begin(false);
    search.loaded(Some(vec![posting("1")]), false);
    assert!(matches!(search.resumed(true), Step::Finish));
    assert_eq!(search.phase(), Phase::Over);
    assert_eq!(ids(&search), vec!["linkedin:1"]);
}

#[test]
fn a_client_keeps_the_latest_session() {
    let mut client = LinkedInJobsApiClient::new(LinkedInHttpClient { session: None });
    assert_eq!(client.guest_request(&params("rust")).session, None);
    client.update_session("first");
    assert_eq!(client.guest_request(&params("rust")).session, Some(&"first"));
    client.update_session("second");
    assert_eq!(client.client.session, Some("second"));
    let request = client.guest_request(&params("rust"));
    assert_eq!(request.session, Some(&"second"));
    assert_eq!(request.url, guest_search_url(&params("rust")));
}

#[test]
fn a_page_can_be_read_as_of_now() {
    let postings = read_guest_page_now(PAGE, || false).unwrap();
    assert_eq!(postings.len(), 2);
    assert!(postings[0].captured_at > NOW);
    assert_eq!(postings[0].posted_at, Some(1_767_225_600_000));
    assert!(read_guest_page_now(PAGE, || true).unwrap().is_empty());
}

#[test]
fn a_page_beyond_the_limit_is_not_parsed() {
    assert!(fits_parser(PAGE));
    let page = String::from_utf8(vec![0; BUFFER_BYTES / 3 + 1]).unwrap();
    assert_eq!(read_guest_page(&page, NOW, || false), Err(PageError::TooLong));
    assert!(fits_parser(&page[1..]));
}
