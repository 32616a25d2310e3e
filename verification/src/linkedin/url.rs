//! The address of a guest search request.
use vstd::prelude::*;
use vstd::string::StringExecFns;

use crate::decimal::{
    decimal, decimal_grows_by_a_digit, decimal_tells_numbers_apart, push_decimal,
};
use crate::text::{clone_opt_text, opt_text, owned, str_eq};

verus! {

/// What a guest search asks for.
#[derive(Debug, PartialEq, Eq)]
pub struct JobsSearchParams {
    pub keywords: String,
    pub location: Option<String>,
    /// How many results to skip.
    pub start: usize,
    pub date_filter: Option<String>,
    pub job_type: Option<String>,
    pub work_type: Option<String>,
    pub experience_level: Option<String>,
    pub easy_apply: Option<bool>,
    pub actively_hiring: Option<bool>,
    pub verified: Option<bool>,
    pub sort_by: Option<String>,
    /// The id of an exact place. It pins the search to that place, where the free-text
    /// `location` may leak results of other countries.
    pub geo_id: Option<String>,
    /// The search radius in kilometres around the place.
    pub distance: Option<u32>,
}

/// [`JobsSearchParams`] as values.
#[verifier::ext_equal]
pub struct SearchView {
    pub keywords: Seq<char>,
    pub location: Option<Seq<char>>,
    pub start: nat,
    pub date_filter: Option<Seq<char>>,
    pub job_type: Option<Seq<char>>,
    pub work_type: Option<Seq<char>>,
    pub experience_level: Option<Seq<char>>,
    pub easy_apply: Option<bool>,
    pub actively_hiring: Option<bool>,
    pub verified: Option<bool>,
    pub sort_by: Option<Seq<char>>,
    pub geo_id: Option<Seq<char>>,
    pub distance: Option<u32>,
}

impl View for JobsSearchParams {
    type V = SearchView;

    open spec fn view(&self) -> SearchView {
        SearchView {
            keywords: self.keywords@,
            location: opt_text(self.location),
            start: self.start as nat,
            date_filter: opt_text(self.date_filter),
            job_type: opt_text(self.job_type),
            work_type: opt_text(self.work_type),
            experience_level: opt_text(self.experience_level),
            easy_apply: self.easy_apply,
            actively_hiring: self.actively_hiring,
            verified: self.verified,
            sort_by: opt_text(self.sort_by),
            geo_id: opt_text(self.geo_id),
            distance: self.distance,
        }
    }
}

impl Clone for JobsSearchParams {
    fn clone(&self) -> (r: Self)
        ensures
            r@ == self@,
    {
        JobsSearchParams {
            keywords: self.keywords.clone(),
            location: clone_opt_text(&self.location),
            start: self.start,
            date_filter: clone_opt_text(&self.date_filter),
            job_type: clone_opt_text(&self.job_type),
            work_type: clone_opt_text(&self.work_type),
            experience_level: clone_opt_text(&self.experience_level),
            easy_apply: self.easy_apply,
            actively_hiring: self.actively_hiring,
            verified: self.verified,
            sort_by: clone_opt_text(&self.sort_by),
            geo_id: clone_opt_text(&self.geo_id),
            distance: self.distance,
        }
    }
}

// ── Percent encoding ────────────────────────────────────────────────────────

/// Whether a byte stands for itself in a percent-encoded text.
pub open spec fn unreserved(b: u8) -> bool {
    ||| 48 <= b <= 57
    ||| 65 <= b <= 90
    ||| 97 <= b <= 122
    ||| b == 45
    ||| b == 46
    ||| b == 95
    ||| b == 126
}

/// The upper-case hexadecimal digit of a number below sixteen.
pub open spec fn hex_digit(n: int) -> char {
    if n < 10 {
        (48 + n) as char
    } else {
        (55 + n) as char
    }
}

/// Bytes with every reserved one written as a percent sign and two hexadecimal digits.
pub open spec fn percent_encoded(bytes: Seq<u8>) -> Seq<char>
    decreases bytes.len(),
{
    if bytes.len() == 0 {
        Seq::empty()
    } else {
        let b = bytes.last();
        percent_encoded(bytes.drop_last()) + (if unreserved(b) {
            seq![b as char]
        } else {
            seq!['%', hex_digit(b as int / 16), hex_digit(b as int % 16)]
        })
    }
}

/// The percent-encoding of a text's UTF-8 bytes.
pub open spec fn encoded(s: Seq<char>) -> Seq<char> {
    percent_encoded(vstd::utf8::encode_utf8(s))
}

/// `urlencoding::encode`: every UTF-8 byte but letters, digits, `-`, `_`, `.` and `~` becomes
/// a percent sign and two upper-case hexadecimal digits.
#[verifier::external_body]
fn encode(s: &str) -> (r: String)
    ensures
        r@ == encoded(s@),
{
    urlencoding::encode(s).into_owned()
}

// ── The address ─────────────────────────────────────────────────────────────

/// The endpoint's code for a date filter, `None` where the filter is not known.
pub open spec fn posted_within(filter: Option<Seq<char>>) -> Option<Seq<char>> {
    match filter {
        None => None,
        Some(f) => if f == "15m"@ {
            Some("r900"@)
        } else if f == "30m"@ {
            Some("r1800"@)
        } else if f == "1h"@ {
            Some("r3600"@)
        } else if f == "2h"@ {
            Some("r7200"@)
        } else if f == "4h"@ {
            Some("r14400"@)
        } else if f == "8h"@ {
            Some("r28800"@)
        } else if f == "24h"@ {
            Some("r86400"@)
        } else if f == "week"@ {
            Some("r604800"@)
        } else if f == "month"@ {
            Some("r2592000"@)
        } else {
            None
        },
    }
}

fn posted_within_code(filter: &Option<String>) -> (r: Option<&'static str>)
    ensures
        match r {
            Some(code) => posted_within(opt_text(*filter)) == Some(code@),
            None => posted_within(opt_text(*filter)) is None,
        },
{
    match filter {
        None => None,
        Some(s) => {
            let f: &str = s.as_str();
            if str_eq(f, "15m") {
                Some("r900")
            } else if str_eq(f, "30m") {
                Some("r1800")
            } else if str_eq(f, "1h") {
                Some("r3600")
            } else if str_eq(f, "2h") {
                Some("r7200")
            } else if str_eq(f, "4h") {
                Some("r14400")
            } else if str_eq(f, "8h") {
                Some("r28800")
            } else if str_eq(f, "24h") {
                Some("r86400")
            } else if str_eq(f, "week") {
                Some("r604800")
            } else if str_eq(f, "month") {
                Some("r2592000")
            } else {
                None
            }
        },
    }
}

/// A query parameter with an encoded value, nothing where there is no value.
pub open spec fn text_param(name: Seq<char>, value: Option<Seq<char>>) -> Seq<char> {
    match value {
        Some(v) => name + encoded(v),
        None => Seq::empty(),
    }
}

/// A query parameter that is written only where its switch is on.
pub open spec fn flag_param(text: Seq<char>, on: Option<bool>) -> Seq<char> {
    if on == Some(true) {
        text
    } else {
        Seq::empty()
    }
}

/// The query parameter of the search radius.
pub open spec fn distance_param(distance: Option<u32>) -> Seq<char> {
    match distance {
        Some(d) => "&distance="@ + decimal(d as nat),
        None => Seq::empty(),
    }
}

/// The query parameter of the date filter, nothing where the filter is not known.
pub open spec fn posted_param(filter: Option<Seq<char>>) -> Seq<char> {
    match posted_within(filter) {
        Some(code) => "&f_TPR="@ + code,
        None => Seq::empty(),
    }
}

/// The address that a search is sent to.
pub open spec fn search_address(p: SearchView) -> Seq<char> {
    "https://www.linkedin.com/jobs-guest/jobs/api/seeMoreJobPostings/search?keywords="@ + encoded(
        p.keywords,
    ) + "&start="@ + decimal(p.start) + text_param("&location="@, p.location) + text_param(
        "&geoId="@,
        p.geo_id,
    ) + distance_param(p.distance) + text_param("&f_JT="@, p.job_type) + posted_param(p.date_filter)
        + text_param("&f_WT="@, p.work_type) + text_param("&f_E="@, p.experience_level)
        + flag_param("&f_EA=true"@, p.easy_apply) + flag_param("&f_AL=true"@, p.actively_hiring)
        + flag_param("&f_VJ=true"@, p.verified) + text_param("&sortBy="@, p.sort_by)
}

fn push_text_param(url: &mut String, name: &str, value: &Option<String>)
    ensures
        final(url)@ == old(url)@ + text_param(name@, opt_text(*value)),
{
    if let Some(v) = value {
        url.append(name);
        url.append(encode(v.as_str()).as_str());
    }
    assert(url@ =~= old(url)@ + text_param(name@, opt_text(*value)));
}

fn push_flag_param(url: &mut String, text: &str, on: Option<bool>)
    ensures
        final(url)@ == old(url)@ + flag_param(text@, on),
{
    if on.unwrap_or(false) {
        url.append(text);
    }
    assert(url@ =~= old(url)@ + flag_param(text@, on));
}

fn push_distance_param(url: &mut String, distance: Option<u32>)
    ensures
        final(url)@ == old(url)@ + distance_param(distance),
{
    if let Some(d) = distance {
        url.append("&distance=");
        push_decimal(url, d as u64);
    }
    assert(url@ =~= old(url)@ + distance_param(distance));
}

fn push_posted_param(url: &mut String, filter: &Option<String>)
    ensures
        final(url)@ == old(url)@ + posted_param(opt_text(*filter)),
{
    if let Some(code) = posted_within_code(filter) {
        url.append("&f_TPR=");
        url.append(code);
    }
    assert(url@ =~= old(url)@ + posted_param(opt_text(*filter)));
}

/// The address of a search: the keywords and the offset, then the place, then the filters
/// that are set.
pub fn guest_search_url(p: &JobsSearchParams) -> (r: String)
    ensures
        r@ == search_address(p@),
{
    let mut url = owned(
        "https://www.linkedin.com/jobs-guest/jobs/api/seeMoreJobPostings/search?keywords=",
    );
    url.append(encode(p.keywords.as_str()).as_str());
    url.append("&start=");
    push_decimal(&mut url, p.start as u64);
    push_text_param(&mut url, "&location=", &p.location);
    push_text_param(&mut url, "&geoId=", &p.geo_id);
    push_distance_param(&mut url, p.distance);
    push_text_param(&mut url, "&f_JT=", &p.job_type);
    push_posted_param(&mut url, &p.date_filter);
    push_text_param(&mut url, "&f_WT=", &p.work_type);
    push_text_param(&mut url, "&f_E=", &p.experience_level);
    push_flag_param(&mut url, "&f_EA=true", p.easy_apply);
    push_flag_param(&mut url, "&f_AL=true", p.actively_hiring);
    push_flag_param(&mut url, "&f_VJ=true", p.verified);
    push_text_param(&mut url, "&sortBy=", &p.sort_by);
    url
}

// ── Laws ────────────────────────────────────────────────────────────────────

/// `s` with a piece put in at a place.
pub open spec fn with_piece(s: Seq<char>, piece: Seq<char>, at: int) -> Seq<char> {
    s.subrange(0, at) + piece + s.subrange(at, s.len() as int)
}

/// Whether a text is another one with one piece put in.
pub open spec fn adds(with: Seq<char>, without: Seq<char>, piece: Seq<char>) -> bool {
    exists|at: int| 0 <= at <= without.len() && with == #[trigger] with_piece(without, piece, at)
}

spec fn joined(parts: Seq<Seq<char>>) -> Seq<char>
    decreases parts.len(),
{
    if parts.len() == 0 {
        Seq::empty()
    } else {
        joined(parts.drop_last()) + parts.last()
    }
}

spec fn parts(p: SearchView) -> Seq<Seq<char>> {
    seq![
        "https://www.linkedin.com/jobs-guest/jobs/api/seeMoreJobPostings/search?keywords="@,
        encoded(p.keywords),
        "&start="@,
        decimal(p.start),
        text_param("&location="@, p.location),
        text_param("&geoId="@, p.geo_id),
        distance_param(p.distance),
        text_param("&f_JT="@, p.job_type),
        posted_param(p.date_filter),
        text_param("&f_WT="@, p.work_type),
        text_param("&f_E="@, p.experience_level),
        flag_param("&f_EA=true"@, p.easy_apply),
        flag_param("&f_AL=true"@, p.actively_hiring),
        flag_param("&f_VJ=true"@, p.verified),
        text_param("&sortBy="@, p.sort_by),
    ]
}

proof fn lemma_joined(s: Seq<Seq<char>>, more: Seq<char>) -> (r: Seq<Seq<char>>)
    ensures
        r == s.push(more),
        joined(r) == joined(s) + more,
{
    assert(s.push(more).drop_last() =~= s);
    s.push(more)
}

proof fn lemma_joined_all(
    a0: Seq<char>,
    a1: Seq<char>,
    a2: Seq<char>,
    a3: Seq<char>,
    a4: Seq<char>,
    a5: Seq<char>,
    a6: Seq<char>,
    a7: Seq<char>,
    a8: Seq<char>,
    a9: Seq<char>,
    a10: Seq<char>,
    a11: Seq<char>,
    a12: Seq<char>,
    a13: Seq<char>,
    a14: Seq<char>,
)
    ensures
        joined(
            seq![a0, a1, a2, a3, a4, a5, a6, a7, a8, a9, a10, a11, a12, a13, a14],
        ) == a0 + a1 + a2 + a3 + a4 + a5 + a6 + a7 + a8 + a9 + a10 + a11 + a12 + a13 + a14,
{
    let s = seq![a0];
    assert(s.drop_last() =~= Seq::empty());
    assert(joined(s.drop_last()) =~= Seq::empty());
    assert(joined(s) =~= a0);
    let s = lemma_joined(s, a1);
    let s = lemma_joined(s, a2);
    let s = lemma_joined(s, a3);
    let s = lemma_joined(s, a4);
    let s = lemma_joined(s, a5);
    let s = lemma_joined(s, a6);
    let s = lemma_joined(s, a7);
    let s = lemma_joined(s, a8);
    let s = lemma_joined(s, a9);
    let s = lemma_joined(s, a10);
    let s = lemma_joined(s, a11);
    let s = lemma_joined(s, a12);
    let s = lemma_joined(s, a13);
    let s = lemma_joined(s, a14);
    assert(s =~= seq![a0, a1, a2, a3, a4, a5, a6, a7, a8, a9, a10, a11, a12, a13, a14]);
}

proof fn lemma_parts(p: SearchView)
    ensures
        search_address(p) == joined(parts(p)),
{
    lemma_joined_all(
        "https://www.linkedin.com/jobs-guest/jobs/api/seeMoreJobPostings/search?keywords="@,
        encoded(p.keywords),
        "&start="@,
        decimal(p.start),
        text_param("&location="@, p.location),
        text_param("&geoId="@, p.geo_id),
        distance_param(p.distance),
        text_param("&f_JT="@, p.job_type),
        posted_param(p.date_filter),
        text_param("&f_WT="@, p.work_type),
        text_param("&f_E="@, p.experience_level),
        flag_param("&f_EA=true"@, p.easy_apply),
        flag_param("&f_AL=true"@, p.actively_hiring),
        flag_param("&f_VJ=true"@, p.verified),
        text_param("&sortBy="@, p.sort_by),
    );
}

proof fn lemma_part_added(s: Seq<Seq<char>>, k: int, piece: Seq<char>)
    requires
        0 <= k < s.len(),
    ensures
        adds(joined(s.update(k, piece)), joined(s.update(k, Seq::empty())), piece),
    decreases s.len(),
{
    let a = s.update(k, piece);
    let b = s.update(k, Seq::empty());
    let n = s.len() - 1;
    if k == n {
        assert(a.drop_last() =~= s.drop_last());
        assert(b.drop_last() =~= s.drop_last());
        let at = joined(b).len() as int;
        assert(joined(a) =~= with_piece(joined(b), piece, at));
    } else {
        let rest = s.drop_last();
        lemma_part_added(rest, k, piece);
        assert(a.drop_last() =~= rest.update(k, piece));
        assert(b.drop_last() =~= rest.update(k, Seq::empty()));
        let x = joined(rest.update(k, piece));
        let y = joined(rest.update(k, Seq::empty()));
        let at = choose|at: int| 0 <= at <= y.len() && x == #[trigger] with_piece(y, piece, at);
        assert(joined(a) =~= with_piece(joined(b), piece, at));
    }
}

/// An address begins with the endpoint and the keywords, and goes on with where to start.
pub proof fn address_begins_with_keywords_and_start(p: SearchView)
    ensures
        ("https://www.linkedin.com/jobs-guest/jobs/api/seeMoreJobPostings/search?keywords="@
            + encoded(p.keywords) + "&start="@ + decimal(p.start)).is_prefix_of(search_address(p)),
{
}

proof fn lemma_unset(p: SearchView, q: SearchView, k: int)
    requires
        0 <= k < parts(p).len(),
        parts(q) =~= parts(p).update(k, Seq::empty()),
    ensures
        adds(search_address(p), search_address(q), parts(p)[k]),
        parts(p)[k].len() == 0 ==> search_address(p) == search_address(q),
{
    lemma_parts(p);
    lemma_parts(q);
    assert(parts(p).update(k, parts(p)[k]) =~= parts(p));
    lemma_part_added(parts(p), k, parts(p)[k]);
    if parts(p)[k].len() == 0 {
        assert(parts(p)[k] =~= Seq::empty());
    }
}

proof fn lemma_asked_location(p: SearchView)
    ensures
        p.location matches Some(v) ==> adds(
            search_address(p),
            search_address(SearchView { location: None, ..p }),
            "&location="@ + encoded(v),
        ),
{
    lemma_unset(p, SearchView { location: None, ..p }, 4);
}

proof fn lemma_asked_geo_id(p: SearchView)
    ensures
        p.geo_id matches Some(v) ==> adds(
            search_address(p),
            search_address(SearchView { geo_id: None, ..p }),
            "&geoId="@ + encoded(v),
        ),
{
    lemma_unset(p, SearchView { geo_id: None, ..p }, 5);
}

proof fn lemma_asked_distance(p: SearchView)
    ensures
        p.distance matches Some(v) ==> adds(
            search_address(p),
            search_address(SearchView { distance: None, ..p }),
            "&distance="@ + decimal(v as nat),
        ),
{
    lemma_unset(p, SearchView { distance: None, ..p }, 6);
}

proof fn lemma_asked_job_type(p: SearchView)
    ensures
        p.job_type matches Some(v) ==> adds(
            search_address(p),
            search_address(SearchView { job_type: None, ..p }),
            "&f_JT="@ + encoded(v),
        ),
{
    lemma_unset(p, SearchView { job_type: None, ..p }, 7);
}

proof fn lemma_asked_date_filter(p: SearchView)
    ensures
        posted_within(p.date_filter) matches Some(code) ==> adds(
            search_address(p),
            search_address(SearchView { date_filter: None, ..p }),
            "&f_TPR="@ + code,
        ),
        posted_within(p.date_filter) is None ==> search_address(p) == search_address(
            SearchView { date_filter: None, ..p },
        ),
{
    lemma_unset(p, SearchView { date_filter: None, ..p }, 8);
}

proof fn lemma_asked_work_type(p: SearchView)
    ensures
        p.work_type matches Some(v) ==> adds(
            search_address(p),
            search_address(SearchView { work_type: None, ..p }),
            "&f_WT="@ + encoded(v),
        ),
{
    lemma_unset(p, SearchView { work_type: None, ..p }, 9);
}

proof fn lemma_asked_experience_level(p: SearchView)
    ensures
        p.experience_level matches Some(v) ==> adds(
            search_address(p),
            search_address(SearchView { experience_level: None, ..p }),
            "&f_E="@ + encoded(v),
        ),
{
    lemma_unset(p, SearchView { experience_level: None, ..p }, 10);
}

proof fn lemma_asked_easy_apply(p: SearchView)
    ensures
        p.easy_apply == Some(true) ==> adds(
            search_address(p),
            search_address(SearchView { easy_apply: None, ..p }),
            "&f_EA=true"@,
        ),
        p.easy_apply == Some(false) ==> search_address(p) == search_address(
            SearchView { easy_apply: None, ..p },
        ),
{
    lemma_unset(p, SearchView { easy_apply: None, ..p }, 11);
}

proof fn lemma_asked_actively_hiring(p: SearchView)
    ensures
        p.actively_hiring == Some(true) ==> adds(
            search_address(p),
            search_address(SearchView { actively_hiring: None, ..p }),
            "&f_AL=true"@,
        ),
        p.actively_hiring == Some(false) ==> search_address(p) == search_address(
            SearchView { actively_hiring: None, ..p },
        ),
{
    lemma_unset(p, SearchView { actively_hiring: None, ..p }, 12);
}

proof fn lemma_asked_verified(p: SearchView)
    ensures
        p.verified == Some(true) ==> adds(
            search_address(p),
            search_address(SearchView { verified: None, ..p }),
            "&f_VJ=true"@,
        ),
        p.verified == Some(false) ==> search_address(p) == search_address(
            SearchView { verified: None, ..p },
        ),
{
    lemma_unset(p, SearchView { verified: None, ..p }, 13);
}

proof fn lemma_asked_sort_by(p: SearchView)
    ensures
        p.sort_by matches Some(v) ==> adds(
            search_address(p),
            search_address(SearchView { sort_by: None, ..p }),
            "&sortBy="@ + encoded(v),
        ),
{
    lemma_unset(p, SearchView { sort_by: None, ..p }, 14);
}

/// Each thing that a search asks for stands in its address under its own name, and setting it
/// changes nothing else of the address. A switch that is off, and a date that is not known, are
/// as if they were not set.
pub proof fn address_names_what_is_asked_for(p: SearchView)
    ensures
        p.location matches Some(v) ==> adds(
            search_address(p),
            search_address(SearchView { location: None, ..p }),
            "&location="@ + encoded(v),
        ),
        p.geo_id matches Some(v) ==> adds(
            search_address(p),
            search_address(SearchView { geo_id: None, ..p }),
            "&geoId="@ + encoded(v),
        ),
        p.distance matches Some(v) ==> adds(
            search_address(p),
            search_address(SearchView { distance: None, ..p }),
            "&distance="@ + decimal(v as nat),
        ),
        p.job_type matches Some(v) ==> adds(
            search_address(p),
            search_address(SearchView { job_type: None, ..p }),
            "&f_JT="@ + encoded(v),
        ),
        posted_within(p.date_filter) matches Some(code) ==> adds(
            search_address(p),
            search_address(SearchView { date_filter: None, ..p }),
            "&f_TPR="@ + code,
        ),
        posted_within(p.date_filter) is None ==> search_address(p) == search_address(
            SearchView { date_filter: None, ..p },
        ),
        p.work_type matches Some(v) ==> adds(
            search_address(p),
            search_address(SearchView { work_type: None, ..p }),
            "&f_WT="@ + encoded(v),
        ),
        p.experience_level matches Some(v) ==> adds(
            search_address(p),
            search_address(SearchView { experience_level: None, ..p }),
            "&f_E="@ + encoded(v),
        ),
        p.easy_apply == Some(true) ==> adds(
            search_address(p),
            search_address(SearchView { easy_apply: None, ..p }),
            "&f_EA=true"@,
        ),
        p.easy_apply == Some(false) ==> search_address(p) == search_address(
            SearchView { easy_apply: None, ..p },
        ),
        p.actively_hiring == Some(true) ==> adds(
            search_address(p),
            search_address(SearchView { actively_hiring: None, ..p }),
            "&f_AL=true"@,
        ),
        p.actively_hiring == Some(false) ==> search_address(p) == search_address(
            SearchView { actively_hiring: None, ..p },
        ),
        p.verified == Some(true) ==> adds(
            search_address(p),
            search_address(SearchView { verified: None, ..p }),
            "&f_VJ=true"@,
        ),
        p.verified == Some(false) ==> search_address(p) == search_address(
            SearchView { verified: None, ..p },
        ),
        p.sort_by matches Some(v) ==> adds(
            search_address(p),
            search_address(SearchView { sort_by: None, ..p }),
            "&sortBy="@ + encoded(v),
        ),
{
    lemma_asked_location(p);
    lemma_asked_geo_id(p);
    lemma_asked_distance(p);
    lemma_asked_job_type(p);
    lemma_asked_date_filter(p);
    lemma_asked_work_type(p);
    lemma_asked_experience_level(p);
    lemma_asked_easy_apply(p);
    lemma_asked_actively_hiring(p);
    lemma_asked_verified(p);
    lemma_asked_sort_by(p);
}

proof fn lemma_numbers()
    ensures
        "r900"@ == "r"@ + decimal(900),
        "r1800"@ == "r"@ + decimal(1800),
        "r3600"@ == "r"@ + decimal(3600),
        "r7200"@ == "r"@ + decimal(7200),
        "r14400"@ == "r"@ + decimal(14400),
        "r28800"@ == "r"@ + decimal(28800),
        "r86400"@ == "r"@ + decimal(86400),
        "r604800"@ == "r"@ + decimal(604800),
        "r2592000"@ == "r"@ + decimal(2592000),
        "15m"@ == decimal(15) + "m"@,
        "30m"@ == decimal(30) + "m"@,
        "1h"@ == decimal(1) + "h"@,
        "2h"@ == decimal(2) + "h"@,
        "4h"@ == decimal(4) + "h"@,
        "8h"@ == decimal(8) + "h"@,
        "24h"@ == decimal(24) + "h"@,
{
    reveal_with_fuel(decimal, 8);
    reveal_strlit("r");
    reveal_strlit("m");
    reveal_strlit("h");
    reveal_strlit("r900");
    reveal_strlit("r1800");
    reveal_strlit("r3600");
    reveal_strlit("r7200");
    reveal_strlit("r14400");
    reveal_strlit("r28800");
    reveal_strlit("r86400");
    reveal_strlit("r604800");
    reveal_strlit("r2592000");
    reveal_strlit("15m");
    reveal_strlit("30m");
    reveal_strlit("1h");
    reveal_strlit("2h");
    reveal_strlit("4h");
    reveal_strlit("8h");
    reveal_strlit("24h");
    assert("r900"@ =~= "r"@ + decimal(900));
    assert("r1800"@ =~= "r"@ + decimal(1800));
    assert("r3600"@ =~= "r"@ + decimal(3600));
    assert("r7200"@ =~= "r"@ + decimal(7200));
    assert("r14400"@ =~= "r"@ + decimal(14400));
    assert("r28800"@ =~= "r"@ + decimal(28800));
    assert("r86400"@ =~= "r"@ + decimal(86400));
    assert("r604800"@ =~= "r"@ + decimal(604800));
    assert("r2592000"@ =~= "r"@ + decimal(2592000));
    assert("15m"@ =~= decimal(15) + "m"@);
    assert("30m"@ =~= decimal(30) + "m"@);
    assert("1h"@ =~= decimal(1) + "h"@);
    assert("2h"@ =~= decimal(2) + "h"@);
    assert("4h"@ =~= decimal(4) + "h"@);
    assert("8h"@ =~= decimal(8) + "h"@);
    assert("24h"@ =~= decimal(24) + "h"@);
}

proof fn lemma_same_count(n: nat, m: nat, unit: Seq<char>)
    requires
        decimal(n) + unit == decimal(m) + unit,
    ensures
        n == m,
{
    let a = decimal(n) + unit;
    let b = decimal(m) + unit;
    assert(a.len() == b.len());
    assert(decimal(n) =~= a.subrange(0, a.len() - unit.len()));
    assert(decimal(m) =~= b.subrange(0, b.len() - unit.len()));
    decimal_tells_numbers_apart(n, m);
}

/// The code of a date filter is the letter `r` and the length of its time in seconds: a number of
/// minutes, a number of hours, a week or a month of thirty days. It is known for 15 and 30 minutes,
/// for 1, 2, 4, 8 and 24 hours, for a week and for a month.
pub proof fn date_codes_count_seconds(n: nat)
    ensures
        n == 15 || n == 30 ==> posted_within(Some(decimal(n) + "m"@)) == Some(
            "r"@ + decimal(n * 60),
        ),
        posted_within(Some(decimal(n) + "m"@)) is Some ==> n == 15 || n == 30,
        n == 1 || n == 2 || n == 4 || n == 8 || n == 24 ==> posted_within(
            Some(decimal(n) + "h"@),
        ) == Some("r"@ + decimal(n * 3600)),
        posted_within(Some(decimal(n) + "h"@)) is Some ==> n == 1 || n == 2 || n == 4 || n == 8
            || n == 24,
        posted_within(Some("week"@)) == Some("r"@ + decimal(7 * 24 * 3600)),
        posted_within(Some("month"@)) == Some("r"@ + decimal(30 * 24 * 3600)),
        posted_within(None) is None,
{
    lemma_numbers();
    reveal_strlit("m");
    reveal_strlit("h");
    reveal_strlit("week");
    reveal_strlit("month");
    let minutes = decimal(n) + "m"@;
    let hours = decimal(n) + "h"@;
    decimal_grows_by_a_digit(n, 0);
    assert(crate::decimal::is_digit(decimal(n)[0]));
    assert(minutes[0] == decimal(n)[0] && hours[0] == decimal(n)[0]);
    assert(minutes[minutes.len() - 1] == 'm');
    assert(hours[hours.len() - 1] == 'h');
    assert("week"@[0] == 'w');
    assert("month"@[0] == 'm');
    assert(minutes != "week"@ && minutes != "month"@ && hours != "week"@ && hours != "month"@);
    assert forall|m: nat| #[trigger] (decimal(m) + "h"@) != minutes by {
        let other = decimal(m) + "h"@;
        assert(other[other.len() - 1] == 'h');
    }
    assert forall|m: nat| #[trigger] (decimal(m) + "m"@) != hours by {
        let other = decimal(m) + "m"@;
        assert(other[other.len() - 1] == 'm');
    }
    assert forall|m: nat| #[trigger] (decimal(m) + "m"@) == minutes implies m == n by {
        lemma_same_count(n, m, "m"@);
    }
    assert forall|m: nat| #[trigger] (decimal(m) + "h"@) == hours implies m == n by {
        lemma_same_count(n, m, "h"@);
    }
    assert("week"@.len() == 4 && "month"@.len() == 5);
    reveal_strlit("15m");
    reveal_strlit("30m");
    reveal_strlit("24h");
    reveal_strlit("1h");
    reveal_strlit("2h");
    reveal_strlit("4h");
    reveal_strlit("8h");
}

/// A filter that is none of those has no code.
pub proof fn other_dates_have_no_code(filter: Seq<char>)
    ensures
        posted_within(Some(filter)) is Some ==> filter == "week"@ || filter == "month"@ || (exists|
            n: nat,
        | filter == #[trigger] decimal(n) + "m"@) || (exists|n: nat|
            filter == #[trigger] decimal(n) + "h"@),
{
    lemma_numbers();
}

/// What is said of a value of [`JobsSearchParams`] is said of its own fields, each by its name.
pub proof fn search_shows_its_own_fields(x: &JobsSearchParams)
    ensures
        x@.keywords == x.keywords@,
        x@.location == opt_text(x.location),
        x@.start == x.start as nat,
        x@.date_filter == opt_text(x.date_filter),
        x@.job_type == opt_text(x.job_type),
        x@.work_type == opt_text(x.work_type),
        x@.experience_level == opt_text(x.experience_level),
        x@.easy_apply == x.easy_apply,
        x@.actively_hiring == x.actively_hiring,
        x@.verified == x.verified,
        x@.sort_by == opt_text(x.sort_by),
        x@.geo_id == opt_text(x.geo_id),
        x@.distance == x.distance,
{
}

} // verus!
