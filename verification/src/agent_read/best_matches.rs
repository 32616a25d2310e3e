//! The strongest jobs across all automations, as an agent sees them.
use vstd::prelude::*;

use crate::agent_read::projection::{
    keys_within, opt_trust_value, put_keeps_within, score_source_name, score_source_text, shown_as,
    with_trust, Shown, ShownView,
};
use crate::autopilot::model::{opt_trust, ScoreSource, TrustAssessment, TrustView};
use crate::json::{
    array_of, items, opt_real, put, put_opt, real_value, signed_int_value, text_value, EntryView,
    Json, JsonView, ObjectBuilder, Real,
};
use crate::run::notes::JOB_CAP;
use crate::text::{clone_opt_text, opt_text};

verus! {

// ── Rows ────────────────────────────────────────────────────────────────────

/// An automation that found a job.
#[derive(Debug, PartialEq, Eq)]
pub struct AgentBestMatchSource {
    pub autopilot_id: String,
    pub autopilot_name: String,
    pub paused: bool,
    pub found_at: u64,
}

/// [`AgentBestMatchSource`] as values.
#[verifier::ext_equal]
pub struct SourceView {
    pub autopilot_id: Seq<char>,
    pub autopilot_name: Seq<char>,
    pub paused: bool,
    pub found_at: u64,
}

impl View for AgentBestMatchSource {
    type V = SourceView;

    open spec fn view(&self) -> SourceView {
        SourceView {
            autopilot_id: self.autopilot_id@,
            autopilot_name: self.autopilot_name@,
            paused: self.paused,
            found_at: self.found_at,
        }
    }
}

/// The sources of a list as values.
pub open spec fn sources_view(v: Seq<AgentBestMatchSource>) -> Seq<SourceView> {
    Seq::new(v.len(), |i: int| v[i]@)
}

/// One of the strongest jobs. It has room for nothing that may not leave the program.
#[derive(Debug, PartialEq, Eq)]
pub struct AgentBestMatch {
    pub title: String,
    pub company: String,
    pub url: String,
    pub location: Option<String>,
    pub board: Option<String>,
    pub salary_min: Option<Real>,
    pub salary_max: Option<Real>,
    pub salary_currency: Option<String>,
    pub score: Real,
    pub score_source: ScoreSource,
    pub score_provisional: bool,
    /// The posting that the score belongs to, where it is another one than `url`.
    pub score_url: Option<String>,
    pub posted_at: Option<i64>,
    pub found_at: u64,
    pub applied: bool,
    pub is_agency: bool,
    pub trust: Option<TrustAssessment>,
    pub sources: Vec<AgentBestMatchSource>,
}

/// [`AgentBestMatch`] as values.
#[verifier::ext_equal]
pub struct MatchView {
    pub title: Seq<char>,
    pub company: Seq<char>,
    pub url: Seq<char>,
    pub location: Option<Seq<char>>,
    pub board: Option<Seq<char>>,
    pub salary_min: Option<Seq<char>>,
    pub salary_max: Option<Seq<char>>,
    pub salary_currency: Option<Seq<char>>,
    pub score: Seq<char>,
    pub score_source: ScoreSource,
    pub score_provisional: bool,
    pub score_url: Option<Seq<char>>,
    pub posted_at: Option<i64>,
    pub found_at: u64,
    pub applied: bool,
    pub is_agency: bool,
    pub trust: Option<TrustView>,
    pub sources: Seq<SourceView>,
}

impl View for AgentBestMatch {
    type V = MatchView;

    open spec fn view(&self) -> MatchView {
        MatchView {
            title: self.title@,
            company: self.company@,
            url: self.url@,
            location: opt_text(self.location),
            board: opt_text(self.board),
            salary_min: opt_real(self.salary_min),
            salary_max: opt_real(self.salary_max),
            salary_currency: opt_text(self.salary_currency),
            score: self.score@,
            score_source: self.score_source,
            score_provisional: self.score_provisional,
            score_url: opt_text(self.score_url),
            posted_at: self.posted_at,
            found_at: self.found_at,
            applied: self.applied,
            is_agency: self.is_agency,
            trust: opt_trust(self.trust),
            sources: sources_view(self.sources@),
        }
    }
}

/// The texts of a row as they stand.
pub open spec fn match_texts(m: MatchView) -> ShownView {
    ShownView { title: m.title, company: m.company, location: m.location, description: None }
}

/// A source as an agent sees it.
pub open spec fn source_value(s: SourceView) -> JsonView {
    let e = put(Seq::empty(), "autopilotId"@, JsonView::Text(s.autopilot_id));
    let e = put(e, "autopilotName"@, JsonView::Text(s.autopilot_name));
    let e = put(e, "paused"@, JsonView::Bool(s.paused));
    JsonView::Object(put(e, "foundAt"@, JsonView::Int(s.found_at as int)))
}

/// The sources as an agent sees them, where there are any.
pub open spec fn sources_value(v: Seq<SourceView>) -> Option<JsonView> {
    if v.len() == 0 {
        None
    } else {
        Some(JsonView::Array(v.map_values(|s: SourceView| source_value(s))))
    }
}

/// A row as an agent sees it, with the texts of `shown`.
pub open spec fn match_value(m: MatchView, shown: ShownView) -> JsonView {
    let e = put(Seq::empty(), "title"@, JsonView::Text(shown.title));
    let e = put(e, "company"@, JsonView::Text(shown.company));
    let e = put(e, "url"@, JsonView::Text(m.url));
    let e = put_opt(e, "location"@, text_value(shown.location));
    let e = put_opt(e, "board"@, text_value(m.board));
    let e = put_opt(e, "salaryMin"@, real_value(m.salary_min));
    let e = put_opt(e, "salaryMax"@, real_value(m.salary_max));
    let e = put_opt(e, "salaryCurrency"@, text_value(m.salary_currency));
    let e = put(e, "score"@, JsonView::Real(m.score));
    let e = put(e, "scoreSource"@, JsonView::Text(score_source_text(m.score_source)));
    let e = put(e, "scoreProvisional"@, JsonView::Bool(m.score_provisional));
    let e = put_opt(e, "scoreUrl"@, text_value(m.score_url));
    let e = put_opt(e, "postedAt"@, signed_int_value(m.posted_at));
    let e = put(e, "foundAt"@, JsonView::Int(m.found_at as int));
    let e = put(e, "applied"@, JsonView::Bool(m.applied));
    let e = put(e, "isAgency"@, JsonView::Bool(m.is_agency));
    let e = put_opt(e, "trust"@, opt_trust_value(m.trust));
    JsonView::Object(put_opt(e, "sources"@, sources_value(m.sources)))
}

fn source_json(s: &AgentBestMatchSource) -> (r: Json)
    ensures
        r@ == source_value(s@),
{
    ObjectBuilder::new().with_text("autopilotId", s.autopilot_id.as_str()).with_text(
        "autopilotName",
        s.autopilot_name.as_str(),
    ).with_bool("paused", s.paused).with_u64("foundAt", s.found_at).build()
}

fn with_sources(b: ObjectBuilder, v: &Vec<AgentBestMatchSource>) -> (r: ObjectBuilder)
    ensures
        r@ == put_opt(b@, "sources"@, sources_value(sources_view(v@))),
{
    if v.len() == 0 {
        return b;
    }
    let mut out: Vec<Json> = Vec::new();
    let mut i: usize = 0;
    while i < v.len()
        invariant
            i <= v@.len(),
            out@.len() == i,
            forall|k: int| 0 <= k < i ==> (#[trigger] out@[k])@ == source_value(v@[k]@),
        decreases v@.len() - i,
    {
        out.push(source_json(&v[i]));
        i = i + 1;
    }
    assert(items(out@) =~= sources_view(v@).map_values(|s: SourceView| source_value(s)));
    b.with("sources", array_of(out))
}

impl AgentBestMatch {
    /// The texts of the row as they stand.
    pub fn shown(&self) -> (r: Shown)
        ensures
            r@ == match_texts(self@),
    {
        Shown {
            title: self.title.clone(),
            company: self.company.clone(),
            location: clone_opt_text(&self.location),
            description: None,
        }
    }

    /// The row as an agent sees it, with the texts of `shown`.
    pub fn to_json(&self, shown: &Shown) -> (r: Json)
        ensures
            r@ == match_value(self@, shown@),
    {
        let b: ObjectBuilder = ObjectBuilder::new().with_text(
            "title",
            shown.title.as_str(),
        ).with_text("company", shown.company.as_str()).with_text("url", self.url.as_str());
        let b: ObjectBuilder = b.with_opt_text("location", &shown.location).with_opt_text(
            "board",
            &self.board,
        ).with_opt_real("salaryMin", &self.salary_min).with_opt_real("salaryMax", &self.salary_max);
        let b: ObjectBuilder = b.with_opt_text("salaryCurrency", &self.salary_currency).with_real(
            "score",
            &self.score,
        ).with_text("scoreSource", score_source_name(self.score_source)).with_bool(
            "scoreProvisional",
            self.score_provisional,
        );
        let b: ObjectBuilder = b.with_opt_text("scoreUrl", &self.score_url).with_opt_i64(
            "postedAt",
            self.posted_at,
        ).with_u64("foundAt", self.found_at).with_bool("applied", self.applied).with_bool(
            "isAgency",
            self.is_agency,
        );
        with_sources(with_trust(b, &self.trust), &self.sources).build()
    }
}

// ── The answer ──────────────────────────────────────────────────────────────

/// How many rows come back where nothing else is asked.
pub const DEFAULT_BEST_MATCHES_LIMIT: usize = 20;

/// The most rows that come back.
pub const MAX_BEST_MATCHES_LIMIT: usize = 50;

/// How many rows a request asks for, never more than the most.
pub open spec fn best_matches_limit(payload: JsonView) -> int {
    match payload.unsigned_at("limit"@) {
        Some(n) => if n < MAX_BEST_MATCHES_LIMIT {
            n as int
        } else {
            MAX_BEST_MATCHES_LIMIT as int
        },
        None => DEFAULT_BEST_MATCHES_LIMIT as int,
    }
}

/// How many rows a request asks for, never more than the most.
pub fn clamp_best_matches_limit(payload: &Json) -> (r: usize)
    ensures
        r == best_matches_limit(payload@),
{
    match payload.u64_at("limit") {
        Some(n) => if n < MAX_BEST_MATCHES_LIMIT as u64 {
            n as usize
        } else {
            MAX_BEST_MATCHES_LIMIT
        },
        None => DEFAULT_BEST_MATCHES_LIMIT,
    }
}

/// The rows that could be read, in their order.
pub open spec fn readable(rows: Seq<Option<AgentBestMatch>>) -> Seq<MatchView>
    decreases rows.len(),
{
    if rows.len() == 0 {
        Seq::empty()
    } else {
        let before = readable(rows.drop_last());
        match rows.last() {
            Some(m) => before.push(m@),
            None => before,
        }
    }
}

/// The first rows that could be read, as many as `limit` at most.
pub open spec fn returned_rows(rows: Seq<Option<AgentBestMatch>>, limit: int) -> Seq<MatchView> {
    let all = readable(rows);
    all.take(
        if limit < all.len() {
            limit
        } else {
            all.len() as int
        },
    )
}

/// Whether each value is the row with fenced texts.
pub open spec fn rows_shown<F: Fn(&str, &str, usize) -> String>(
    fence: F,
    rows: Seq<MatchView>,
    values: Seq<JsonView>,
) -> bool {
    &&& values.len() == rows.len()
    &&& forall|i: int|
        0 <= i < rows.len() ==> row_shown(fence, rows[i], #[trigger] values[i])
}

/// Whether a value is the row with fenced texts.
pub open spec fn row_shown<F: Fn(&str, &str, usize) -> String>(
    fence: F,
    row: MatchView,
    value: JsonView,
) -> bool {
    exists|shown: ShownView| #[trigger]
        shown_as(fence, match_texts(row), JOB_CAP, shown) && value == match_value(row, shown)
}

/// The answer with these rows, of `total` that there are.
pub open spec fn matches_value(values: Seq<JsonView>, total: u64) -> JsonView {
    let e = put(Seq::empty(), "matches"@, JsonView::Array(values));
    let e = put(e, "total"@, JsonView::Int(total as int));
    JsonView::Object(put(e, "returned"@, JsonView::Int(values.len() as int)))
}

/// The first rows that could be read, as many as `limit` at most, with fenced texts. `total` says
/// how many there are.
pub fn resolve_best_matches<F: Fn(&str, &str, usize) -> String>(
    rows: &[Option<AgentBestMatch>],
    total: u64,
    limit: usize,
    fence: &F,
) -> (r: Json)
    requires
        forall|tag: &str, body: &str, cap: usize| fence.requires((tag, body, cap)),
    ensures
        exists|values: Seq<JsonView>| #[trigger]
            rows_shown(*fence, returned_rows(rows@, limit as int), values) && r@ == matches_value(
                values,
                total,
            ),
{
    let mut out: Vec<Json> = Vec::new();
    let mut i: usize = 0;
    while i < rows.len() && out.len() < limit
        invariant
            i <= rows@.len(),
            out@.len() <= limit,
            out@.len() == readable(rows@.take(i as int)).len(),
            forall|tag: &str, body: &str, cap: usize| fence.requires((tag, body, cap)),
            forall|k: int|
                0 <= k < out@.len() ==> row_shown(
                    *fence,
                    readable(rows@.take(i as int))[k],
                    (#[trigger] out@[k])@,
                ),
        decreases rows@.len() - i,
    {
        let ghost before = rows@.take(i as int);
        assert(rows@.take(i as int + 1).drop_last() =~= before);
        match &rows[i] {
            Some(m) => {
                let shown: Shown = m.shown().fenced(JOB_CAP, fence);
                let value: Json = m.to_json(&shown);
                assert(row_shown(*fence, m@, value@));
                out.push(value);
            },
            None => {},
        }
        i = i + 1;
    }
    proof {
        let head = rows@.take(i as int);
        readable_of_prefix(rows@, i as int);
        if i == rows@.len() {
            assert(head =~= rows@);
        }
        let kept = returned_rows(rows@, limit as int);
        assert(kept =~= readable(head));
        assert forall|k: int| 0 <= k < kept.len() implies row_shown(
            *fence,
            kept[k],
            #[trigger] items(out@)[k],
        ) by {
            assert(items(out@)[k] == out@[k]@);
        }
        assert(rows_shown(*fence, kept, items(out@)));
    }
    let returned: u64 = out.len() as u64;
    ObjectBuilder::new().with("matches", array_of(out)).with_u64("total", total).with_u64(
        "returned",
        returned,
    ).build()
}

proof fn readable_of_prefix(rows: Seq<Option<AgentBestMatch>>, n: int)
    requires
        0 <= n <= rows.len(),
    ensures
        readable(rows.take(n)).len() <= readable(rows).len(),
        readable(rows).take(readable(rows.take(n)).len() as int) == readable(rows.take(n)),
    decreases rows.len() - n,
{
    if n == rows.len() {
        assert(rows.take(n) =~= rows);
        assert(readable(rows).take(readable(rows).len() as int) =~= readable(rows));
    } else {
        readable_of_prefix(rows, n + 1);
        assert(rows.take(n + 1).drop_last() =~= rows.take(n));
        let a = readable(rows.take(n));
        let b = readable(rows.take(n + 1));
        let all = readable(rows);
        assert(all.take(a.len() as int) =~= a) by {
            assert(b.take(a.len() as int) =~= a);
            assert(all.take(b.len() as int) =~= b);
            assert(all.take(b.len() as int).take(a.len() as int) =~= all.take(a.len() as int));
        }
    }
}

/// How many jobs qualify, as the host reports it.
pub fn reported_total(raw: &Json) -> (r: u64)
    ensures
        r == (match raw@.unsigned_at("total"@) {
            Some(n) => n,
            None => 0,
        }),
{
    match raw.u64_at("total") {
        Some(n) => n,
        None => 0,
    }
}

/// The rows that the host reports; none where there is no list of them.
pub open spec fn reported(raw: JsonView) -> Seq<JsonView> {
    match raw.get("matches"@) {
        Some(JsonView::Array(rows)) => rows,
        _ => Seq::empty(),
    }
}

/// The rows that the host reports; none where there is no list of them.
pub fn reported_rows(raw: &Json) -> (r: Vec<Json>)
    ensures
        items(r@) == reported(raw@),
{
    let mut out: Vec<Json> = Vec::new();
    if let Some(matches) = raw.get("matches") {
        if let Some(rows) = matches.as_array() {
            let mut i: usize = 0;
            while i < rows.len()
                invariant
                    i <= rows@.len(),
                    out@.len() == i,
                    forall|k: int| 0 <= k < i ==> (#[trigger] out@[k])@ == rows@[k]@,
                decreases rows@.len() - i,
            {
                out.push(rows[i].clone());
                i = i + 1;
            }
            assert(items(out@) =~= items(rows@));
            return out;
        }
    }
    assert(items(out@) =~= Seq::<JsonView>::empty());
    out
}

// ── Laws ────────────────────────────────────────────────────────────────────

/// However many rows a request asks for, no more than the most come back.
pub proof fn matches_are_bounded(payload: JsonView, rows: Seq<Option<AgentBestMatch>>)
    ensures
        0 <= best_matches_limit(payload) <= MAX_BEST_MATCHES_LIMIT,
        returned_rows(rows, best_matches_limit(payload)).len() <= MAX_BEST_MATCHES_LIMIT,
{
}

/// The names of the fields of a row.
pub open spec fn match_keys() -> Seq<Seq<char>> {
    seq![
        "title"@,
        "company"@,
        "url"@,
        "location"@,
        "board"@,
        "salaryMin"@,
        "salaryMax"@,
        "salaryCurrency"@,
        "score"@,
        "scoreSource"@,
        "scoreProvisional"@,
        "scoreUrl"@,
        "postedAt"@,
        "foundAt"@,
        "applied"@,
        "isAgency"@,
        "trust"@,
        "sources"@,
    ]
}

/// A row has no other fields than those that are named.
pub proof fn match_has_only_named_fields(m: MatchView, shown: ShownView)
    ensures
        keys_within(match_value(m, shown)->Object_0, match_keys()),
{
    let allowed = match_keys();
    let e0 = Seq::<EntryView>::empty();
    let v = Some(JsonView::Text(shown.title));
    assert(allowed[0] == "title"@);
    put_keeps_within(e0, "title"@, v, allowed, 0);
    let e1 = put_opt(e0, "title"@, v);
    let v = Some(JsonView::Text(shown.company));
    assert(allowed[1] == "company"@);
    put_keeps_within(e1, "company"@, v, allowed, 1);
    let e2 = put_opt(e1, "company"@, v);
    let v = Some(JsonView::Text(m.url));
    assert(allowed[2] == "url"@);
    put_keeps_within(e2, "url"@, v, allowed, 2);
    let e3 = put_opt(e2, "url"@, v);
    let v = text_value(shown.location);
    assert(allowed[3] == "location"@);
    put_keeps_within(e3, "location"@, v, allowed, 3);
    let e4 = put_opt(e3, "location"@, v);
    let v = text_value(m.board);
    assert(allowed[4] == "board"@);
    put_keeps_within(e4, "board"@, v, allowed, 4);
    let e5 = put_opt(e4, "board"@, v);
    let v = real_value(m.salary_min);
    assert(allowed[5] == "salaryMin"@);
    put_keeps_within(e5, "salaryMin"@, v, allowed, 5);
    let e6 = put_opt(e5, "salaryMin"@, v);
    let v = real_value(m.salary_max);
    assert(allowed[6] == "salaryMax"@);
    put_keeps_within(e6, "salaryMax"@, v, allowed, 6);
    let e7 = put_opt(e6, "salaryMax"@, v);
    let v = text_value(m.salary_currency);
    assert(allowed[7] == "salaryCurrency"@);
    put_keeps_within(e7, "salaryCurrency"@, v, allowed, 7);
    let e8 = put_opt(e7, "salaryCurrency"@, v);
    let v = Some(JsonView::Real(m.score));
    assert(allowed[8] == "score"@);
    put_keeps_within(e8, "score"@, v, allowed, 8);
    let e9 = put_opt(e8, "score"@, v);
    let v = Some(JsonView::Text(score_source_text(m.score_source)));
    assert(allowed[9] == "scoreSource"@);
    put_keeps_within(e9, "scoreSource"@, v, allowed, 9);
    let e10 = put_opt(e9, "scoreSource"@, v);
    let v = Some(JsonView::Bool(m.score_provisional));
    assert(allowed[10] == "scoreProvisional"@);
    put_keeps_within(e10, "scoreProvisional"@, v, allowed, 10);
    let e11 = put_opt(e10, "scoreProvisional"@, v);
    let v = text_value(m.score_url);
    assert(allowed[11] == "scoreUrl"@);
    put_keeps_within(e11, "scoreUrl"@, v, allowed, 11);
    let e12 = put_opt(e11, "scoreUrl"@, v);
    let v = signed_int_value(m.posted_at);
    assert(allowed[12] == "postedAt"@);
    put_keeps_within(e12, "postedAt"@, v, allowed, 12);
    let e13 = put_opt(e12, "postedAt"@, v);
    let v = Some(JsonView::Int(m.found_at as int));
    assert(allowed[13] == "foundAt"@);
    put_keeps_within(e13, "foundAt"@, v, allowed, 13);
    let e14 = put_opt(e13, "foundAt"@, v);
    let v = Some(JsonView::Bool(m.applied));
    assert(allowed[14] == "applied"@);
    put_keeps_within(e14, "applied"@, v, allowed, 14);
    let e15 = put_opt(e14, "applied"@, v);
    let v = Some(JsonView::Bool(m.is_agency));
    assert(allowed[15] == "isAgency"@);
    put_keeps_within(e15, "isAgency"@, v, allowed, 15);
    let e16 = put_opt(e15, "isAgency"@, v);
    let v = opt_trust_value(m.trust);
    assert(allowed[16] == "trust"@);
    put_keeps_within(e16, "trust"@, v, allowed, 16);
    let e17 = put_opt(e16, "trust"@, v);
    let v = sources_value(m.sources);
    assert(allowed[17] == "sources"@);
    put_keeps_within(e17, "sources"@, v, allowed, 17);
}

/// What is said of a value of [`AgentBestMatchSource`] is said of its own fields, each by its name.
pub proof fn source_shows_its_own_fields(x: &AgentBestMatchSource)
    ensures
        x@.autopilot_id == x.autopilot_id@,
        x@.autopilot_name == x.autopilot_name@,
        x@.paused == x.paused,
        x@.found_at == x.found_at,
{
}

/// What is said of a value of [`AgentBestMatch`] is said of its own fields, each by its name.
pub proof fn match_shows_its_own_fields(x: &AgentBestMatch)
    ensures
        x@.title == x.title@,
        x@.company == x.company@,
        x@.url == x.url@,
        x@.location == opt_text(x.location),
        x@.board == opt_text(x.board),
        x@.salary_min == opt_real(x.salary_min),
        x@.salary_max == opt_real(x.salary_max),
        x@.salary_currency == opt_text(x.salary_currency),
        x@.score == x.score@,
        x@.score_source == x.score_source,
        x@.score_provisional == x.score_provisional,
        x@.score_url == opt_text(x.score_url),
        x@.posted_at == x.posted_at,
        x@.found_at == x.found_at,
        x@.applied == x.applied,
        x@.is_agency == x.is_agency,
        x@.trust == opt_trust(x.trust),
        x@.sources == sources_view(x.sources@),
{
}

} // verus!
