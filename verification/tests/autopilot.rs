use std::cell::{Cell, RefCell};
use std::collections::HashSet;

use job_hunter::autopilot::cluster::{
    cluster_found_jobs, found_job_cluster_inputs, ClusterAssignment, ClusterInput,
};
use job_hunter::autopilot::fields::{
    parse_work_types_lenient, str_field, string_or_vec, u32_field_in_range,
};
use job_hunter::autopilot::merge::{merge_found_jobs, merge_key, merge_keys};
use job_hunter::autopilot::model::{
    default_top_n, default_true, Autopilot, AutopilotFilter, AutopilotStatus, AutopilotTarget,
    BoardHealth, BoardScrapeSummary, ClusterMemberRef, FoundJob, RunStatus, ScoreSource,
    TrustAssessment, WorkType,
};
use job_hunter::autopilot::relax::relax_legacy_filters;
use job_hunter::autopilot::status::derive_run_status;
use job_hunter::autopilot::store::{needs_write, AutopilotStore};
use job_hunter::clock::now_ms;
use job_hunter::json::{Json, Real};

fn number(text: &str) -> Real {
    Real { text: text.to_string() }
}

fn json(text: &str) -> Json {
    Json::parse(text).expect("a JSON text")
}

// ── Stand-ins for what the host supplies ────────────────────────────────────

fn normalize_job_url(url: &str) -> String {
    url.trim().split(['?', '#']).next().unwrap_or("").to_string()
}

fn canonical_job_key(url: &str, title: &str, company: &str) -> String {
    let url = normalize_job_url(url);
    if url.is_empty() {
        format!("{}|{}", title.to_lowercase(), company.to_lowercase())
    } else {
        url
    }
}

fn assess_trust(_url: &str, _company: &str, description: &str) -> TrustAssessment {
    if description.trim().is_empty() {
        TrustAssessment {
            score: 60,
            level: "medium".into(),
            flags: vec!["description_unavailable".into()],
        }
    } else {
        TrustAssessment { score: 100, level: "high".into(), flags: vec![] }
    }
}

fn assign_clusters(
    inputs: &Vec<ClusterInput>,
    tombstones: &HashSet<(String, String)>,
) -> Vec<ClusterAssignment> {
    let split = |a: &ClusterInput, b: &ClusterInput| {
        tombstones.contains(&(a.key.clone(), b.key.clone()))
            || tombstones.contains(&(b.key.clone(), a.key.clone()))
    };
    let same = |a: &ClusterInput, b: &ClusterInput| {
        a.title == b.title && a.company == b.company && (a.key == b.key || !split(a, b))
    };
    inputs
        .iter()
        .map(|row| {
            let members: Vec<&ClusterInput> = inputs.iter().filter(|o| same(row, o)).collect();
            ClusterAssignment {
                cluster_id: format!("cluster of {}", members[0].key),
                canonical: members[0].key == row.key,
                members: members
                    .iter()
                    .map(|m| ClusterMemberRef {
                        key: m.key.clone(),
                        board: m.source.clone(),
                        url: m.url.clone(),
                    })
                    .collect(),
                is_agency: false,
            }
        })
        .collect()
}

fn new_cluster_count(assignments: &Vec<ClusterAssignment>, new_keys: &Vec<String>) -> u32 {
    let mut seen: HashSet<&str> = HashSet::new();
    assignments
        .iter()
        .filter(|a| seen.insert(a.cluster_id.as_str()))
        .filter(|a| a.members.iter().all(|m| new_keys.contains(&m.key)))
        .count() as u32
}

fn merge(existing: &[FoundJob], incoming: Vec<FoundJob>) -> Vec<FoundJob> {
    merge_found_jobs(&existing.to_vec(), incoming, &canonical_job_key)
}

fn target_of(v: &Json) -> Option<AutopilotTarget> {
    let boards = string_or_vec(v.get("boards").or(v.get("board"))?)?;
    let work_types = match v.get("workTypes") {
        Some(list) => Some(parse_work_types_lenient(
            &list.as_array()?.iter().filter_map(|w| w.as_str().map(str::to_string)).collect(),
        )),
        None => None,
    };
    Some(AutopilotTarget {
        boards,
        query: v.str_at("query")?.to_string(),
        location: v.str_at("location").map(str::to_string),
        country_code: v.str_at("countryCode").map(str::to_string),
        work_types,
        pages: v.u64_at("pages")? as u32,
        date_filter: v.str_at("dateFilter").map(str::to_string),
        top_n: v.u64_at("topN").map_or(default_top_n(), |n| n as u32),
        watched_companies_only: v.bool_at("watchedCompaniesOnly"),
    })
}

fn filter_of(v: &Json) -> Option<AutopilotFilter> {
    let words = |key: &str| {
        v.get(key).and_then(Json::as_array).map(|list| {
            list.iter().filter_map(|w| w.as_str().map(str::to_string)).collect::<Vec<String>>()
        })
    };
    match v.get("minMatchScore") {
        Some(Json::Real(score)) => Some(AutopilotFilter {
            min_match_score: score.clone(),
            keywords: words("keywords"),
            exclude_keywords: words("excludeKeywords"),
        }),
        _ => None,
    }
}

/// A store with the stand-ins in place and a clock that moves with every change.
struct Store {
    inner: RefCell<AutopilotStore>,
    clock: Cell<u64>,
}

impl Store {
    fn new() -> Self {
        Store { inner: RefCell::new(AutopilotStore::new()), clock: Cell::new(1_000) }
    }

    fn now(&self) -> u64 {
        self.clock.set(self.clock.get() + 1);
        self.clock.get()
    }

    fn create(&self, input: Json) -> Autopilot {
        let target = input.get("target").and_then(target_of);
        let filter = input.get("filter").and_then(filter_of);
        let now = self.now();
        self.inner.borrow_mut().create(&input, target, filter, now)
    }

    fn update(&self, id: &str, patch: Json) -> Option<Autopilot> {
        let target = patch.get("target").and_then(target_of);
        let filter = patch.get("filter").and_then(filter_of);
        let now = self.now();
        self.inner.borrow_mut().update(id, &patch, target, filter, now)
    }

    fn list(&self) -> Vec<Autopilot> {
        self.inner.borrow().list()
    }

    fn get(&self, id: &str) -> Option<Autopilot> {
        self.inner.borrow().get(id)
    }

    fn clear_all(&self) {
        self.inner.borrow_mut().clear_all();
    }

    fn replace_all(&self, items: Vec<Autopilot>) {
        self.inner.borrow_mut().replace_all(items);
    }

    fn set_run_status(&self, id: &str, status: RunStatus) {
        let now = self.now();
        self.inner.borrow_mut().set_run_status(id, status, now);
    }

    fn set_run_status_clearing_summaries(&self, id: &str, status: RunStatus) {
        let now = self.now();
        self.inner.borrow_mut().set_run_status_clearing_summaries(id, status, now);
    }

    fn fail_run_without_summaries(&self, id: &str) {
        let now = self.now();
        self.inner.borrow_mut().fail_run_without_summaries(id, now);
    }

    fn mark_interrupted_runs(&self) -> Vec<String> {
        let now = self.now();
        self.inner.borrow_mut().mark_interrupted_runs(now)
    }

    #[allow(clippy::too_many_arguments)]
    fn record_run(
        &self,
        id: &str,
        total_found: u32,
        total_applied: u32,
        jobs: Vec<FoundJob>,
        summaries: Vec<BoardScrapeSummary>,
        tombstones: &HashSet<(String, String)>,
        _agencies: &[String],
    ) -> u32 {
        let now = self.now();
        self.inner.borrow_mut().record_run(
            id,
            total_found,
            total_applied,
            jobs,
            summaries,
            &canonical_job_key,
            &|inputs: &Vec<ClusterInput>| assign_clusters(inputs, tombstones),
            &new_cluster_count,
            now,
        )
    }

    fn update_found_job_descriptions(&self, normalized_url: &str, description: &str) -> u32 {
        let now = self.now();
        self.inner.borrow_mut().update_found_job_descriptions(
            normalized_url,
            description,
            &normalize_job_url,
            &assess_trust,
            now,
        )
    }
}

// ── Fixtures ────────────────────────────────────────────────────────────────

fn board_summary(
    board: &str,
    count: usize,
    error: Option<&str>,
    skipped: Option<&str>,
    truncated: Option<&str>,
) -> BoardScrapeSummary {
    BoardScrapeSummary {
        board: board.into(),
        count,
        error: error.map(String::from),
        skipped: skipped.map(String::from),
        truncated: truncated.map(String::from),
        notes: Vec::new(),
        health: None,
    }
}

fn failing_health(last_error: &str, last_run_id: &str) -> BoardHealth {
    BoardHealth {
        status: "failing".into(),
        consecutive_failures: 7,
        last_success_at: None,
        last_verified_at: Some(1_767_225_600_000),
        failing_since: Some(1_767_225_600_000),
        last_error: Some(last_error.into()),
        last_run_id: Some(last_run_id.into()),
        verified_runs: 11,
        failed_runs: 7,
    }
}

fn found_job(url: &str, found_at: u64) -> FoundJob {
    found_job_full(url, "Engineer", "Acme", found_at)
}

fn found_job_full(url: &str, title: &str, company: &str, found_at: u64) -> FoundJob {
    FoundJob {
        title: title.into(),
        company: company.into(),
        url: url.into(),
        location: None,
        board: None,
        description: None,
        salary_min: None,
        salary_max: None,
        salary_currency: None,
        score: None,
        score_provisional: false,
        score_source: ScoreSource::Keyword,
        found_at,
        posted_at: None,
        is_new: false,
        applied: false,
        trust: None,
        assistant_notes: None,
        cluster_id: None,
        cluster_canonical: true,
        cluster_members: Vec::new(),
        is_agency: false,
    }
}

fn board_job(url: &str, board: &str, at: u64) -> FoundJob {
    FoundJob { board: Some(board.into()), ..found_job_full(url, "Rust Developer", "Acme", at) }
}

fn manual_ap(store: &Store) -> String {
    store
        .create(json(
            r#"{
            "name": "AP",
            "target": { "board": "linkedin", "query": "rust", "pages": 1 },
            "filter": { "minMatchScore": 0.0 },
            "schedule": "manual"
        }"#,
        ))
        .id
}

fn no_tombstones() -> HashSet<(String, String)> {
    HashSet::new()
}

fn base_autopilot() -> Autopilot {
    let now = 1_000_000u64;
    Autopilot {
        id: "test-id".into(),
        name: "Test AP".into(),
        status: AutopilotStatus::Active,
        target: AutopilotTarget {
            boards: vec!["linkedin".into()],
            query: "engineer".into(),
            location: None,
            country_code: None,
            work_types: None,
            pages: 1,
            date_filter: Some("24h".into()),
            top_n: 3,
            watched_companies_only: None,
        },
        filter: AutopilotFilter {
            min_match_score: number("50.0"),
            keywords: Some(vec!["rust".into(), "go".into()]),
            exclude_keywords: None,
        },
        schedule: "daily".into(),
        schedule_hour: None,
        schedule_minute: None,
        resume_text: None,
        cover_letter: None,
        assistant: false,
        assistant_provider: None,
        assistant_model: None,
        assistant_base_url: None,
        total_found: 0,
        total_applied: 0,
        found_jobs: Vec::new(),
        run_status: None,
        last_run_summaries: Vec::new(),
        last_run_at: None,
        created_at: now,
        updated_at: now,
    }
}

fn seed_restrictive(store: &Store) -> String {
    store
        .create(json(
            r#"{
            "name": "Legacy",
            "target": {
                "board": "linkedin",
                "query": "rust",
                "pages": 1,
                "dateFilter": "24h"
            },
            "filter": {
                "minMatchScore": 50.0,
                "keywords": ["rust", "go"]
            },
            "schedule": "daily"
        }"#,
        ))
        .id
}

#[test]
fn test_default_top_n() {
    assert_eq!(default_top_n(), 3);
}

#[test]
fn test_autopilot_status_partial_eq() {
    assert_eq!(AutopilotStatus::Active, AutopilotStatus::Active);
    assert_ne!(AutopilotStatus::Active, AutopilotStatus::Paused);
}

#[test]
fn test_str_field() {
    let value = json(r#"{ "name": "Test", "other": "Value" }"#);
    assert_eq!(str_field(&value, "name"), "Test");
    assert_eq!(str_field(&value, "missing"), "");
}

#[test]
fn test_now_ms() {
    let now = now_ms();
    assert!(now > 0);
}

#[test]
fn work_types_mixed_validity_drops_bad_entry_keeps_boards_and_query() {
    let raw = json(r#"{
        "boards": ["linkedin"],
        "query": "rust",
        "pages": 1,
        "workTypes": ["remote", "bogus", "hybrid"]
    }"#);
    let target = target_of(&raw).expect("a single unrecognised workTypes entry must not fail the whole target");
    assert_eq!(target.boards, vec!["linkedin".to_string()]);
    assert_eq!(target.query, "rust");
    assert_eq!(
        target.work_types,
        Some(vec![WorkType::Remote, WorkType::Hybrid]),
        "the bad entry is dropped, the valid ones kept in order"
    );
}

#[test]
fn work_types_absent_key_deserializes_to_none() {
    let raw = json(r#"{
        "boards": ["linkedin"],
        "query": "rust",
        "pages": 1
    }"#);
    let target = target_of(&raw).expect("a legacy record with no workTypes key must deserialize");
    assert_eq!(target.work_types, None);
}

#[test]
fn work_types_all_unrecognised_collapses_to_empty_vec_not_none() {
    let raw = json(r#"{
        "boards": ["linkedin"],
        "query": "rust",
        "pages": 1,
        "workTypes": ["bogus", "also-bogus"]
    }"#);
    let target = target_of(&raw).expect("an all-unrecognised array must still deserialize");
    assert_eq!(target.work_types, Some(Vec::new()));
}

#[test]
fn target_deserializes_legacy_board_string() {
    let text = r#"{"board": "linkedin", "query": "rust", "pages": 2}"#;
    let target = target_of(&json(text)).expect("legacy format must deserialize");
    assert_eq!(target.boards, vec!["linkedin"]);
}

#[test]
fn target_deserializes_new_boards_array() {
    let text = r#"{"boards": ["linkedin","remotive"], "query": "rust", "pages": 2}"#;
    let target = target_of(&json(text)).expect("new format must deserialize");
    assert_eq!(target.boards, vec!["linkedin", "remotive"]);
}

#[test]
fn test_u32_field_in_range_rejects_out_of_range_and_non_numeric() {
    let v = json(r#"{
        "good": 23,
        "tooBig": 25,
        "minOk": 59,
        "minBad": 60,
        "negative": -1,
        "text": "9"
    }"#);
    assert_eq!(u32_field_in_range(&v, "good", 23), Some(23));
    assert_eq!(u32_field_in_range(&v, "minOk", 59), Some(59));
    assert_eq!(u32_field_in_range(&v, "tooBig", 23), None);
    assert_eq!(u32_field_in_range(&v, "minBad", 59), None);
    assert_eq!(u32_field_in_range(&v, "negative", 23), None);
    assert_eq!(u32_field_in_range(&v, "text", 23), None);
    assert_eq!(u32_field_in_range(&v, "missing", 23), None);
}

#[test]
fn create_drops_out_of_range_schedule_time_so_scheduler_falls_back() {
    let store = Store::new();
    let ap = store.create(json(r#"{
        "name": "Out of range",
        "target": { "board": "linkedin", "query": "rust", "pages": 1 },
        "filter": { "minMatchScore": 50.0 },
        "schedule": "daily",
        "scheduleHour": 25,
        "scheduleMinute": 60
    }"#));
    assert_eq!(ap.schedule_hour, None, "out-of-range hour is not persisted");
    assert_eq!(
        ap.schedule_minute, None,
        "out-of-range minute is not persisted"
    );
    let ok = store.create(json(r#"{
        "name": "Valid",
        "target": { "board": "linkedin", "query": "rust", "pages": 1 },
        "filter": { "minMatchScore": 50.0 },
        "schedule": "daily",
        "scheduleHour": 18,
        "scheduleMinute": 30
    }"#));
    assert_eq!(ok.schedule_hour, Some(18));
    assert_eq!(ok.schedule_minute, Some(30));
}

#[test]
fn update_rejects_out_of_range_time_while_keeping_null_clear() {
    let store = Store::new();
    let ap = store.create(json(r#"{
        "name": "AP",
        "target": { "board": "linkedin", "query": "rust", "pages": 1 },
        "filter": { "minMatchScore": 50.0 },
        "schedule": "daily",
        "scheduleHour": 10,
        "scheduleMinute": 15
    }"#));
    let patched = store
        .update(&ap.id, json(r#"{ "scheduleHour": 99 }"#))
        .unwrap();
    assert_eq!(patched.schedule_hour, None, "out-of-range patch → None");
    assert_eq!(patched.schedule_minute, Some(15), "untouched field kept");
    let cleared = store
        .update(&ap.id, json(r#"{ "scheduleMinute": null }"#))
        .unwrap();
    assert_eq!(cleared.schedule_minute, None, "explicit null clears");
}

#[test]
fn update_toggling_assistant_off_clears_the_provider_snapshot() {
    let store = Store::new();
    let ap = store.create(json(r#"{
        "name": "AP",
        "target": { "board": "linkedin", "query": "rust", "pages": 1 },
        "filter": { "minMatchScore": 50.0 },
        "schedule": "daily",
        "assistant": true,
        "assistantProvider": "openai",
        "assistantModel": "gpt-4o",
        "assistantBaseUrl": "https://api.openai.com"
    }"#));
    assert!(ap.assistant);
    assert_eq!(ap.assistant_provider.as_deref(), Some("openai"));
    assert_eq!(ap.assistant_model.as_deref(), Some("gpt-4o"));
    assert_eq!(
        ap.assistant_base_url.as_deref(),
        Some("https://api.openai.com")
    );
    let updated = store
        .update(&ap.id, json(r#"{ "assistant": false }"#))
        .unwrap();
    assert!(!updated.assistant);
    assert!(
        updated.assistant_provider.is_none(),
        "stale provider snapshot must be cleared on toggle-off"
    );
    assert!(
        updated.assistant_model.is_none(),
        "stale model snapshot must be cleared on toggle-off"
    );
    assert!(
        updated.assistant_base_url.is_none(),
        "stale base-url snapshot must be cleared on toggle-off"
    );
    let reenabled = store
        .update(
            &ap.id,
            json(r#"{
                "assistant": true,
                "assistantProvider": "mistral",
                "assistantModel": "mistral-large"
            }"#),
        )
        .unwrap();
    assert!(reenabled.assistant);
    assert_eq!(reenabled.assistant_provider.as_deref(), Some("mistral"));
    assert_eq!(
        reenabled.assistant_model.as_deref(),
        Some("mistral-large")
    );
}

#[test]
fn test_clear_all_removes_every_autopilot() {
    let store = Store::new();
    for name in ["AP1", "AP2"] {
        store.create(json(&r#"{
            "name": "NAME",
            "target": { "board": "linkedin", "query": "rust", "pages": 1 },
            "filter": { "minMatchScore": 50.0 },
            "schedule": "manual"
        }"#.replace("NAME", name)));
    }
    assert_eq!(store.list().len(), 2);

    store.clear_all();
    assert!(store.list().is_empty());
}

#[test]
fn mark_interrupted_runs_flips_only_in_progress() {
    let store = Store::new();

    let make = |name: &str| {
        store.create(json(&r#"{
            "name": "NAME",
            "target": { "board": "linkedin", "query": "rust", "pages": 1 },
            "filter": { "minMatchScore": 50.0 },
            "schedule": "manual"
        }"#.replace("NAME", name)))
    };
    let running = make("running");
    let done = make("done");

    store.set_run_status(&running.id, RunStatus::InProgress);
    store.set_run_status(&done.id, RunStatus::Completed);

    let reconciled = store.mark_interrupted_runs();
    assert_eq!(
        reconciled.len(),
        1,
        "only the in-progress run is reconciled"
    );
    assert_eq!(
        reconciled[0], running.id,
        "the reconciled id is the interrupted run's, so the scheduler retries the right one"
    );

    let status = |id: &str| store.get(id).unwrap().run_status;
    assert_eq!(status(&running.id), Some(RunStatus::Interrupted));
    assert_eq!(status(&done.id), Some(RunStatus::Completed));
    assert!(store.mark_interrupted_runs().is_empty());
}

#[test]
fn record_run_marks_the_run_completed() {
    let store = Store::new();
    let ap = store.create(json(r#"{
        "name": "ap",
        "target": { "board": "linkedin", "query": "rust", "pages": 1 },
        "filter": { "minMatchScore": 50.0 },
        "schedule": "manual"
    }"#));
    store.set_run_status(&ap.id, RunStatus::InProgress);
    store.record_run(&ap.id, 3, 0, Vec::new(), Vec::new(), &no_tombstones(), &[]);
    assert_eq!(
        store.get(&ap.id).unwrap().run_status,
        Some(RunStatus::Completed)
    );
}

#[test]
fn derive_run_status_maps_summaries_to_honest_outcome() {
    assert_eq!(derive_run_status(&[]), RunStatus::Completed);
    assert_eq!(
        derive_run_status(&[
            board_summary("greenhouse", 4, None, None, None),
            board_summary("lever", 2, None, None, None),
        ]),
        RunStatus::Completed
    );
    assert_eq!(
        derive_run_status(&[board_summary("greenhouse", 0, None, None, None)]),
        RunStatus::Completed
    );
    assert_eq!(
        derive_run_status(&[
            board_summary("greenhouse", 4, None, None, None),
            board_summary("aggregator", 0, Some("429 Too Many Requests"), None, None),
        ]),
        RunStatus::CompletedWithErrors
    );
    assert_eq!(
        derive_run_status(&[board_summary(
            "themuse",
            10,
            None,
            None,
            Some("page 2 of 5 failed: HTTP 429"),
        )]),
        RunStatus::CompletedWithErrors
    );
    assert_eq!(
        derive_run_status(&[
            board_summary(
                "aggregator",
                0,
                Some("credential store unavailable"),
                None,
                None
            ),
            board_summary("linkedin", 0, Some("blocked"), None, None),
        ]),
        RunStatus::Failed
    );
    assert_eq!(
        derive_run_status(&[board_summary(
            "aggregator",
            0,
            None,
            Some("needs-keys"),
            None
        )]),
        RunStatus::Failed
    );
    assert_eq!(
        derive_run_status(&[
            board_summary("greenhouse", 3, None, None, None),
            board_summary("linkedin", 0, None, Some("needs-login"), None),
        ]),
        RunStatus::Completed
    );
}

#[test]
fn record_run_persists_summaries_and_derives_status() {
    let store = Store::new();
    let ap = store.create(json(r#"{
        "name": "ap",
        "target": { "board": "aggregator", "query": "rust", "pages": 1 },
        "filter": { "minMatchScore": 0.0 },
        "schedule": "manual"
    }"#));
    let summaries = vec![
        board_summary("greenhouse", 2, None, None, None),
        board_summary("aggregator", 0, Some("429 Too Many Requests"), None, None),
    ];
    store.record_run(&ap.id, 2, 0, Vec::new(), summaries, &no_tombstones(), &[]);

    let reloaded = store.get(&ap.id).unwrap();
    assert_eq!(reloaded.run_status, Some(RunStatus::CompletedWithErrors));
    assert_eq!(reloaded.last_run_summaries.len(), 2);
    assert_eq!(
        reloaded.last_run_summaries[1].error.as_deref(),
        Some("429 Too Many Requests")
    );
}

#[test]
fn fail_run_without_summaries_marks_failed_and_clears_stale_summaries() {
    let store = Store::new();
    let ap = store.create(json(r#"{
        "name": "ap",
        "target": { "board": "aggregator", "query": "rust", "pages": 1 },
        "filter": { "minMatchScore": 0.0 },
        "schedule": "manual"
    }"#));
    let summaries = vec![board_summary("greenhouse", 2, None, None, None)];
    store.record_run(&ap.id, 2, 0, Vec::new(), summaries, &no_tombstones(), &[]);
    let seeded = store.get(&ap.id).unwrap();
    assert_eq!(seeded.run_status, Some(RunStatus::Completed));
    assert_eq!(seeded.last_run_summaries.len(), 1);
    store.fail_run_without_summaries(&ap.id);

    let reloaded = store.get(&ap.id).unwrap();
    assert_eq!(
        reloaded.run_status,
        Some(RunStatus::Failed),
        "an outright scrape error must mark the run Failed"
    );
    assert!(
        reloaded.last_run_summaries.is_empty(),
        "the prior run's summaries must be cleared, not left stale on a Failed record"
    );
}

#[test]
fn fail_run_without_summaries_unknown_id_is_a_no_op() {
    let store = Store::new();
    store.fail_run_without_summaries("missing");
    assert!(
        store.list().is_empty(),
        "an unknown id must not create or otherwise mutate any record"
    );
}

#[test]
fn set_run_status_clearing_summaries_completed_clears_stale_summaries() {
    let store = Store::new();
    let ap = store.create(json(r#"{
        "name": "ap",
        "target": { "board": "aggregator", "query": "rust", "pages": 1 },
        "filter": { "minMatchScore": 0.0 },
        "schedule": "manual"
    }"#));
    let summaries = vec![board_summary("greenhouse", 2, None, None, None)];
    store.record_run(&ap.id, 2, 0, Vec::new(), summaries, &no_tombstones(), &[]);
    let seeded = store.get(&ap.id).unwrap();
    assert_eq!(seeded.run_status, Some(RunStatus::Completed));
    assert_eq!(seeded.last_run_summaries.len(), 1);
    store.set_run_status_clearing_summaries(&ap.id, RunStatus::Completed);

    let reloaded = store.get(&ap.id).unwrap();
    assert_eq!(reloaded.run_status, Some(RunStatus::Completed));
    assert!(
        reloaded.last_run_summaries.is_empty(),
        "a cancelled run must clear the PRIOR run's summaries, not leave them stale"
    );
}

#[test]
fn update_found_job_descriptions_patches_the_matching_row() {
    let store = Store::new();
    let ap = store.create(json(r#"{
        "name": "AP1",
        "target": { "board": "linkedin", "query": "rust", "pages": 1 },
        "filter": { "minMatchScore": 0.0 },
        "schedule": "manual"
    }"#));
    store.record_run(
        &ap.id,
        1,
        0,
        vec![found_job("https://boards.example.com/jobs/1", 1)],
        Vec::new(),
        &no_tombstones(),
        &[],
    );

    let normalized = normalize_job_url("https://boards.example.com/jobs/1");
    let updated = store.update_found_job_descriptions(&normalized, "corrected text");
    assert_eq!(updated, 1, "exactly one row must be patched");

    let list = store.list();
    assert_eq!(
        list[0].found_jobs[0].description.as_deref(),
        Some("corrected text")
    );
}

#[test]
fn update_found_job_descriptions_returns_zero_when_no_url_matches() {
    let store = Store::new();
    let ap = store.create(json(r#"{
        "name": "AP1",
        "target": { "board": "linkedin", "query": "rust", "pages": 1 },
        "filter": { "minMatchScore": 0.0 },
        "schedule": "manual"
    }"#));
    store.record_run(
        &ap.id,
        1,
        0,
        vec![found_job("https://boards.example.com/jobs/1", 1)],
        Vec::new(),
        &no_tombstones(),
        &[],
    );

    let normalized = normalize_job_url("https://nowhere.example.com/x");
    let updated = store.update_found_job_descriptions(&normalized, "ignored");
    assert_eq!(updated, 0, "an unmatched url must patch nothing");
    assert_eq!(
        store.list()[0].found_jobs[0].description,
        None,
        "the unrelated row must be untouched on a miss"
    );
}

#[test]
fn update_found_job_descriptions_updates_every_matching_row_across_autopilots() {
    let store = Store::new();
    let shared_url = "https://boards.example.com/jobs/shared";

    let ap1 = store.create(json(r#"{
        "name": "AP1",
        "target": { "board": "linkedin", "query": "rust", "pages": 1 },
        "filter": { "minMatchScore": 0.0 },
        "schedule": "manual"
    }"#));
    let ap2 = store.create(json(r#"{
        "name": "AP2",
        "target": { "board": "indeed", "query": "rust", "pages": 1 },
        "filter": { "minMatchScore": 0.0 },
        "schedule": "manual"
    }"#));
    store.record_run(
        &ap1.id,
        1,
        0,
        vec![found_job(shared_url, 1)],
        Vec::new(),
        &no_tombstones(),
        &[],
    );
    store.record_run(
        &ap2.id,
        1,
        0,
        vec![found_job(shared_url, 2)],
        Vec::new(),
        &no_tombstones(),
        &[],
    );

    let normalized = normalize_job_url(shared_url);
    let updated = store.update_found_job_descriptions(&normalized, "shared correction");
    assert_eq!(
        updated, 2,
        "both autopilots' rows for the same url must update, not just the first"
    );
    for ap in store.list() {
        assert_eq!(
            ap.found_jobs[0].description.as_deref(),
            Some("shared correction"),
            "every matching row across every autopilot must be patched"
        );
    }
}

#[test]
fn merge_dedups_by_url_preserving_first_seen_and_flagging_new() {
    let existing = vec![found_job("https://a.com/1", 100)];
    let incoming = vec![
        found_job("https://a.com/1", 999),
        found_job("https://a.com/2", 200),
    ];

    let merged = merge(&existing, incoming);

    assert_eq!(merged.len(), 2, "no duplicate row for the same url");
    let a1 = merged.iter().find(|j| j.url == "https://a.com/1").unwrap();
    assert_eq!(a1.found_at, 100, "first-seen time preserved");
    assert!(!a1.is_new, "an existing job is not new");
    let a2 = merged.iter().find(|j| j.url == "https://a.com/2").unwrap();
    assert!(a2.is_new, "a never-seen url is flagged new");
}

#[test]
fn merge_is_idempotent_on_a_repeated_run() {
    let first = merge(&[], vec![found_job("u1", 1), found_job("u2", 2)]);
    assert!(first.iter().all(|j| j.is_new));
    let second = merge(&first, vec![found_job("u1", 9), found_job("u2", 9)]);
    assert_eq!(second.len(), 2);
    assert!(second.iter().all(|j| !j.is_new));
}

#[test]
fn a_repeated_run_changes_nothing_but_is_new() {
    let known = merge(&[], vec![found_job("old", 1)]);
    let run = || {
        let mut again = found_job("u1", 3);
        again.description = Some("a longer description".to_string());
        vec![found_job("u1", 2), again, found_job("old", 4)]
    };
    let once = merge(&known, run());
    let mut twice = merge(&once, run());
    assert_eq!(twice.len(), 2);
    assert!(twice.iter().all(|j| !j.is_new));
    twice[0].is_new = true;
    assert_eq!(twice, once);
    let keys = merge_keys(&once, &canonical_job_key);
    assert_ne!(keys[0], keys[1]);
}

#[test]
fn merge_keeps_prior_jobs_not_in_the_new_run() {
    let existing = vec![found_job("old", 1)];
    let merged = merge(&existing, vec![found_job("fresh", 2)]);
    assert_eq!(merged.len(), 2, "prior finds retained below the new one");
    assert!(merged.iter().any(|j| j.url == "old"));
}

#[test]
fn merge_puts_newly_found_jobs_on_top() {
    let merged = merge(&[found_job("old", 1)], vec![found_job("fresh", 2)]);
    assert_eq!(
        merged[0].url, "fresh",
        "newly found job is first (top of list)"
    );
    assert!(merged[0].is_new);
    assert_eq!(merged[1].url, "old", "prior finds fall below the new one");
}

#[test]
fn merge_dedups_same_job_across_two_url_variants() {
    let a = found_job(
        "https://boards.example.com/jobs/42?utm_source=aggregator",
        1,
    );
    let b = found_job("https://boards.example.com/jobs/42#apply", 2);

    let merged = merge(&[], vec![a, b]);

    assert_eq!(
        merged.len(),
        1,
        "tracking-param and hash variants of one job URL must merge to a single row"
    );
    assert!(merged[0].is_new, "the single merged row is newly surfaced");
}

#[test]
fn merge_collapses_persisted_row_against_a_new_url_variant() {
    let persisted = found_job("https://boards.example.com/jobs/42?utm_source=x", 100);
    let variant = found_job("https://boards.example.com/jobs/42#apply", 999);
    let fresh = found_job("https://boards.example.com/jobs/99", 200);

    let merged = merge(&[persisted], vec![variant, fresh]);

    assert_eq!(
        merged.len(),
        2,
        "the variant merges into the persisted row; only the fresh job is added"
    );
    let resurfaced = merged
        .iter()
        .find(|j| j.url.contains("/jobs/42"))
        .expect("the persisted job's row survives");
    assert_eq!(resurfaced.found_at, 100, "first-seen time preserved");
    assert!(!resurfaced.is_new, "a re-surfaced URL variant is not new");
    let brand_new = merged
        .iter()
        .find(|j| j.url.contains("/jobs/99"))
        .expect("the fresh job is present");
    assert!(brand_new.is_new, "the never-seen job is flagged new");
}

#[test]
fn merge_dedups_internal_batch_duplicate() {
    let from_aggregator = found_job("https://jobs.example.com/eng-42", 1);
    let from_board = found_job("https://jobs.example.com/eng-42", 2);

    let merged = merge(&[], vec![from_aggregator, from_board]);

    assert_eq!(
        merged.len(),
        1,
        "an internal batch duplicate must produce exactly one row"
    );
}

#[test]
fn merge_distinct_jobs_are_unaffected_by_dedup() {
    let merged = merge(
        &[],
        vec![
            found_job("https://a.example.com/1", 1),
            found_job("https://b.example.com/2", 2),
            found_job("https://c.example.com/3", 3),
        ],
    );

    assert_eq!(
        merged.len(),
        3,
        "three distinct jobs must remain three rows"
    );
    assert!(merged.iter().all(|j| j.is_new));
}

#[test]
fn merge_within_batch_dup_keeps_longer_description() {
    let mut short = found_job("https://jobs.example.com/eng-42?ref=a", 1);
    short.description = Some("short".into());
    let mut long = found_job("https://jobs.example.com/eng-42?ref=b", 2);
    long.description = Some("a much longer and more complete description".into());

    let merged = merge(&[], vec![short, long]);

    assert_eq!(merged.len(), 1, "the two variants merge to one row");
    assert_eq!(
        merged[0].description.as_deref(),
        Some("a much longer and more complete description"),
        "the longer description from the later duplicate must win"
    );
}

#[test]
fn merge_dedups_url_less_jobs_by_title_and_company() {
    let a = found_job("", 1);
    let b = found_job("   ", 2);
    let mut c = found_job("", 3);
    c.company = "Globex".into();

    let merged = merge(&[], vec![a, b, c]);

    assert_eq!(
        merged.len(),
        2,
        "URL-less jobs dedupe by normalized title+company: the two Acme rows merge, Globex stays"
    );
}

#[test]
fn merge_preserves_and_refreshes_board_across_resurface() {
    let mut existing = found_job("https://a.com/1", 100);
    existing.board = None;

    let mut resurfaced = found_job("https://a.com/1", 999);
    resurfaced.board = Some("linkedin".into());
    let mut fresh = found_job("https://a.com/2", 200);
    fresh.board = Some("aggregator".into());

    let merged = merge(&[existing], vec![resurfaced, fresh]);

    let a1 = merged.iter().find(|j| j.url == "https://a.com/1").unwrap();
    assert_eq!(
        a1.board,
        Some("linkedin".to_string()),
        "re-surfaced existing row picks up the incoming board"
    );
    let a2 = merged.iter().find(|j| j.url == "https://a.com/2").unwrap();
    assert_eq!(
        a2.board,
        Some("aggregator".to_string()),
        "appended new row keeps its board (via ..inc spread)"
    );
}

#[test]
fn merge_preserves_a_real_description_over_a_blank_resurface() {
    let mut existing = found_job("https://a.com/1", 100);
    existing.description = Some("A real, fetched job description.".to_string());

    let mut resurfaced = found_job("https://a.com/1", 999);
    resurfaced.description = Some(String::new());

    let merged = merge(&[existing], vec![resurfaced]);

    let a1 = merged.iter().find(|j| j.url == "https://a.com/1").unwrap();
    assert_eq!(
        a1.description,
        Some("A real, fetched job description.".to_string()),
        "a blank resurface must never clobber an already-known real description"
    );
}

#[test]
fn merge_preserves_and_refreshes_trust_across_resurface() {
    let mut existing = found_job("https://a.com/1", 100);
    existing.trust = None;

    let resurfaced_trust = assess_trust(
        "https://linkedin.com/jobs/view/1",
        "Acme",
        "A real description.",
    );
    let mut resurfaced = found_job("https://a.com/1", 999);
    resurfaced.trust = Some(resurfaced_trust.clone());
    let fresh_trust = assess_trust(
        "https://boards.greenhouse.io/acme/jobs/2",
        "Acme",
        "A real description.",
    );
    let mut fresh = found_job("https://a.com/2", 200);
    fresh.trust = Some(fresh_trust.clone());

    let merged = merge(&[existing], vec![resurfaced, fresh]);

    let a1 = merged.iter().find(|j| j.url == "https://a.com/1").unwrap();
    assert_eq!(
        a1.trust,
        Some(resurfaced_trust),
        "re-surfaced existing row picks up the incoming trust"
    );
    let a2 = merged.iter().find(|j| j.url == "https://a.com/2").unwrap();
    assert_eq!(
        a2.trust,
        Some(fresh_trust),
        "appended new row keeps its trust (via ..inc spread)"
    );
}

#[test]
fn merge_preserves_and_refreshes_posted_at_across_resurface() {
    let mut existing = found_job("https://a.com/1", 100);
    existing.posted_at = None;

    let mut resurfaced = found_job("https://a.com/1", 999);
    resurfaced.posted_at = Some(1_700_000_000_000);
    let mut fresh = found_job("https://a.com/2", 200);
    fresh.posted_at = Some(1_650_000_000_000);

    let merged = merge(&[existing], vec![resurfaced, fresh]);

    let a1 = merged.iter().find(|j| j.url == "https://a.com/1").unwrap();
    assert_eq!(
        a1.posted_at,
        Some(1_700_000_000_000),
        "re-surfaced existing row backfills the incoming posted_at"
    );
    let a2 = merged.iter().find(|j| j.url == "https://a.com/2").unwrap();
    assert_eq!(
        a2.posted_at,
        Some(1_650_000_000_000),
        "appended new row keeps its posted_at (via ..inc spread)"
    );
}

#[test]
fn merge_keeps_a_known_posted_at_when_the_resurfaced_row_has_none() {
    let mut existing = found_job("https://a.com/1", 100);
    existing.posted_at = Some(1_700_000_000_000);

    let mut resurfaced = found_job("https://a.com/1", 999);
    resurfaced.posted_at = None;

    let merged = merge(&[existing], vec![resurfaced]);

    let a1 = merged.iter().find(|j| j.url == "https://a.com/1").unwrap();
    assert_eq!(
        a1.posted_at,
        Some(1_700_000_000_000),
        "a known posted_at must survive a resurface that reports no date"
    );
}

#[test]
fn merge_score_provisional_moves_with_score_across_resurface() {
    let mut existing_provisional = found_job("https://a.com/1", 100);
    existing_provisional.score = Some(number("40.0"));
    existing_provisional.score_provisional = true;

    let mut resurfaced_authoritative = found_job("https://a.com/1", 999);
    resurfaced_authoritative.score = Some(number("72.0"));
    resurfaced_authoritative.score_provisional = false;

    let merged = merge(&[existing_provisional], vec![resurfaced_authoritative]);
    let row = merged.iter().find(|j| j.url == "https://a.com/1").unwrap();
    assert_eq!(row.score, Some(number("72.0")));
    assert!(
        !row.score_provisional,
        "a full-text board's authoritative score resurfacing over an old \
         aggregator snippet score must clear the provisional flag"
    );
    let mut existing_authoritative = found_job("https://b.com/1", 100);
    existing_authoritative.score = Some(number("72.0"));
    existing_authoritative.score_provisional = false;

    let mut resurfaced_provisional = found_job("https://b.com/1", 999);
    resurfaced_provisional.score = Some(number("40.0"));
    resurfaced_provisional.score_provisional = true;

    let merged = merge(&[existing_authoritative], vec![resurfaced_provisional]);
    let row = merged.iter().find(|j| j.url == "https://b.com/1").unwrap();
    assert_eq!(row.score, Some(number("40.0")));
    assert!(
        row.score_provisional,
        "an aggregator snippet score resurfacing over a prior authoritative \
         score must set the provisional flag — a snippet score must never \
         display as authoritative"
    );
}

#[test]
fn merge_score_source_moves_with_score_across_resurface() {
    let mut existing_combined = found_job("https://a.com/1", 100);
    existing_combined.score = Some(number("91.0"));
    existing_combined.score_source = ScoreSource::Combined;

    let mut resurfaced_keyword = found_job("https://a.com/1", 999);
    resurfaced_keyword.score = Some(number("62.0"));
    resurfaced_keyword.score_source = ScoreSource::Keyword;

    let merged = merge(&[existing_combined], vec![resurfaced_keyword]);
    let row = merged.iter().find(|j| j.url == "https://a.com/1").unwrap();
    assert_eq!(row.score, Some(number("62.0")));
    assert_eq!(
        row.score_source,
        ScoreSource::Keyword,
        "a keyword score resurfacing over a prior combined score must carry the \
         keyword label — the two kernels are different scales, and the stale \
         label would relabel 62 as a semantic verdict it never was"
    );
    let mut existing_keyword = found_job("https://b.com/1", 100);
    existing_keyword.score = Some(number("62.0"));
    existing_keyword.score_source = ScoreSource::Keyword;

    let mut resurfaced_combined = found_job("https://b.com/1", 999);
    resurfaced_combined.score = Some(number("91.0"));
    resurfaced_combined.score_source = ScoreSource::Combined;

    let merged = merge(&[existing_keyword], vec![resurfaced_combined]);
    let row = merged.iter().find(|j| j.url == "https://b.com/1").unwrap();
    assert_eq!(row.score, Some(number("91.0")));
    assert_eq!(
        row.score_source,
        ScoreSource::Combined,
        "a re-ranked score must arrive with its own label"
    );
}

#[test]
fn create_with_missing_filter_defaults_min_match_score_to_zero() {
    let store = Store::new();

    let ap = store.create(json(r#"{
        "name": "No filter",
        "target": { "board": "linkedin", "query": "rust", "pages": 1 },

        "schedule": "daily"
    }"#));
    assert_eq!(
        ap.filter.min_match_score, number("0.0"),
        "absent filter must default to min_match_score 0.0, not 50.0"
    );
    assert!(ap.filter.keywords.is_none());
    assert!(ap.filter.exclude_keywords.is_none());
}

#[test]
fn create_with_null_filter_defaults_min_match_score_to_zero() {
    let store = Store::new();

    let ap = store.create(json(r#"{
        "name": "Null filter",
        "target": { "board": "linkedin", "query": "rust", "pages": 1 },
        "filter": null,
        "schedule": "daily"
    }"#));
    assert_eq!(
        ap.filter.min_match_score, number("0.0"),
        "null filter must default to min_match_score 0.0"
    );
}

#[test]
fn relax_clears_keywords_for_legacy_record() {
    let mut ap = base_autopilot();
    ap.filter.keywords = Some(vec!["rust".into(), "go".into()]);
    relax_legacy_filters(&mut ap);
    assert!(
        ap.filter.keywords.is_none(),
        "legacy record's prefilled keywords must be cleared to None"
    );
}

#[test]
fn relax_is_noop_on_already_relaxed_record() {
    let mut ap = base_autopilot();
    ap.filter.min_match_score = number("0.0");
    ap.target.date_filter = None;
    ap.filter.keywords = Some(vec!["python".into()]);

    relax_legacy_filters(&mut ap);

    assert_eq!(
        ap.filter.keywords.as_deref(),
        Some(["python".to_string()].as_ref()),
        "user-added keywords on an already-relaxed record must survive a rerun"
    );
    assert_eq!(ap.filter.min_match_score, number("0.0"));
    assert!(ap.target.date_filter.is_none());
}

#[test]
fn relax_keeps_keywords_when_not_legacy() {
    let mut ap = base_autopilot();
    ap.filter.min_match_score = number("30.0");
    ap.target.date_filter = Some("week".into());
    ap.filter.keywords = Some(vec!["python".into()]);

    relax_legacy_filters(&mut ap);

    assert_eq!(
        ap.filter.keywords.as_deref(),
        Some(["python".to_string()].as_ref()),
        "non-legacy record (score≠50 AND date≠24h) must keep its keywords"
    );
    assert_eq!(
        ap.filter.min_match_score, number("30.0"),
        "non-default score must be left untouched"
    );
    assert_eq!(
        ap.target.date_filter.as_deref(),
        Some("week"),
        "non-default date_filter must be left untouched"
    );
}

#[test]
fn relax_clears_none_keywords_remains_none() {
    let mut ap = base_autopilot();
    ap.filter.keywords = None;
    relax_legacy_filters(&mut ap);
    assert!(ap.filter.keywords.is_none());
}

#[test]
fn relax_resets_min_match_score_only_when_exactly_50() {
    let mut ap = base_autopilot();
    ap.filter.min_match_score = number("50.0");
    relax_legacy_filters(&mut ap);
    assert_eq!(
        ap.filter.min_match_score, number("0.0"),
        "default 50.0 must be reset to 0.0"
    );
}

#[test]
fn relax_leaves_custom_min_match_score_untouched() {
    let mut ap = base_autopilot();
    ap.filter.min_match_score = number("75.0");
    relax_legacy_filters(&mut ap);
    assert_eq!(
        ap.filter.min_match_score, number("75.0"),
        "custom 75.0 must not be touched"
    );
}

#[test]
fn relax_leaves_already_zero_min_match_score_at_zero() {
    let mut ap = base_autopilot();
    ap.filter.min_match_score = number("0.0");
    relax_legacy_filters(&mut ap);
    assert_eq!(ap.filter.min_match_score, number("0.0"));
}

#[test]
fn relax_leaves_near_fifty_min_match_score_untouched() {
    let mut ap = base_autopilot();
    ap.filter.min_match_score = number("49.9");
    relax_legacy_filters(&mut ap);
    assert_eq!(
        ap.filter.min_match_score, number("49.9"),
        "49.9 is not the legacy default; must be left unchanged"
    );
}

#[test]
fn relax_clears_date_filter_only_for_24h() {
    let mut ap = base_autopilot();
    ap.target.date_filter = Some("24h".into());
    relax_legacy_filters(&mut ap);
    assert!(
        ap.target.date_filter.is_none(),
        "\"24h\" legacy default must be cleared to None"
    );
}

#[test]
fn relax_leaves_week_date_filter_untouched() {
    let mut ap = base_autopilot();
    ap.target.date_filter = Some("week".into());
    relax_legacy_filters(&mut ap);
    assert_eq!(
        ap.target.date_filter.as_deref(),
        Some("week"),
        "user-picked \"week\" must be left alone"
    );
}

#[test]
fn relax_leaves_month_date_filter_untouched() {
    let mut ap = base_autopilot();
    ap.target.date_filter = Some("month".into());
    relax_legacy_filters(&mut ap);
    assert_eq!(
        ap.target.date_filter.as_deref(),
        Some("month"),
        "user-picked \"month\" must be left alone"
    );
}

#[test]
fn relax_leaves_none_date_filter_as_none() {
    let mut ap = base_autopilot();
    ap.target.date_filter = None;
    relax_legacy_filters(&mut ap);
    assert!(ap.target.date_filter.is_none());
}

#[test]
fn relax_preserves_all_unrelated_fields() {
    let mut ap = base_autopilot();
    ap.filter.keywords = Some(vec!["rust".into()]);
    ap.filter.min_match_score = number("50.0");
    ap.target.date_filter = Some("24h".into());
    ap.filter.exclude_keywords = Some(vec!["senior".into()]);
    ap.target.query = "backend engineer".into();
    ap.target.location = Some("Berlin".into());
    ap.target.country_code = Some("de".into());
    ap.target.boards = vec!["linkedin".into(), "indeed".into()];
    ap.target.pages = 3;
    ap.target.work_types = Some(vec![WorkType::Remote]);

    relax_legacy_filters(&mut ap);
    assert!(ap.filter.keywords.is_none());
    assert_eq!(ap.filter.min_match_score, number("0.0"));
    assert!(ap.target.date_filter.is_none());
    assert_eq!(
        ap.filter.exclude_keywords.as_deref(),
        Some(["senior".to_string()].as_ref()),
        "exclude_keywords must be preserved"
    );
    assert_eq!(ap.target.query, "backend engineer");
    assert_eq!(ap.target.location.as_deref(), Some("Berlin"));
    assert_eq!(ap.target.country_code.as_deref(), Some("de"));
    assert_eq!(ap.target.boards, vec!["linkedin", "indeed"]);
    assert_eq!(ap.target.pages, 3);
    assert_eq!(ap.target.work_types, Some(vec![WorkType::Remote]));
}

#[test]
fn relax_is_idempotent() {
    let mut ap = base_autopilot();
    ap.filter.keywords = Some(vec!["rust".into()]);
    ap.filter.exclude_keywords = Some(vec!["senior".into()]);
    ap.filter.min_match_score = number("50.0");
    ap.target.date_filter = Some("24h".into());

    relax_legacy_filters(&mut ap);
    let after_first = (
        ap.filter.keywords.clone(),
        ap.filter.min_match_score.clone(),
        ap.target.date_filter.clone(),
    );

    relax_legacy_filters(&mut ap);
    let after_second = (
        ap.filter.keywords.clone(),
        ap.filter.min_match_score.clone(),
        ap.target.date_filter.clone(),
    );

    assert_eq!(after_first, after_second, "second call must be a no-op");
}

#[test]
fn record_run_new_count_reflects_deduped_batch() {
    let store = Store::new();
    let ap = store.create(json(r#"{
        "name": "AP",
        "target": { "board": "aggregator", "query": "rust", "pages": 1 },
        "filter": { "minMatchScore": 0.0 },
        "schedule": "manual"
    }"#));
    let id = ap.id;
    let dup_a = found_job_full(
        "https://jobs.example.com/eng-1?utm_source=x",
        "Engineer",
        "AcmeOne",
        1,
    );
    let dup_b = found_job_full(
        "https://jobs.example.com/eng-1#frag",
        "Engineer",
        "AcmeOne",
        2,
    );
    let other = found_job_full("https://jobs.example.com/eng-2", "Engineer", "AcmeTwo", 3);

    let new_count = store.record_run(
        &id,
        3,
        0,
        vec![dup_a, dup_b, other],
        Vec::new(),
        &no_tombstones(),
        &[],
    );

    assert_eq!(
        new_count, 2,
        "the 'N new jobs' count must reflect the DEDUPED batch as CLUSTERS (2 distinct), not the raw 3"
    );
}

#[test]
fn record_run_reports_only_newly_surfaced_jobs() {
    let store = Store::new();
    let ap = store.create(json(r#"{
        "name": "AP",
        "target": { "board": "linkedin", "query": "rust", "pages": 1 },
        "filter": { "minMatchScore": 50.0 },
        "schedule": "manual"
    }"#));
    let id = ap.id;
    let j = |url: &str, company: &str, at: u64| found_job_full(url, "Engineer", company, at);
    assert_eq!(
        store.record_run(
            &id,
            2,
            0,
            vec![j("u1", "Alpha", 1), j("u2", "Beta", 2)],
            Vec::new(),
            &no_tombstones(),
            &[],
        ),
        2
    );
    assert_eq!(
        store.record_run(
            &id,
            3,
            0,
            vec![j("u1", "Alpha", 9), j("u2", "Beta", 9), j("u3", "Gamma", 9)],
            Vec::new(),
            &no_tombstones(),
            &[],
        ),
        1
    );
    assert_eq!(
        store.record_run(
            &id,
            3,
            0,
            vec![j("u1", "Alpha", 9)],
            Vec::new(),
            &no_tombstones(),
            &[]
        ),
        0
    );
    assert_eq!(
        store.record_run(
            "missing",
            5,
            0,
            vec![j("x", "Alpha", 1)],
            Vec::new(),
            &no_tombstones(),
            &[]
        ),
        0
    );
}

#[test]
fn record_run_cluster_count_two_board_new_is_one() {
    let store = Store::new();
    let id = manual_ap(&store);
    let a = board_job("https://a.example.com/1", "greenhouse", 1);
    let b = board_job("https://b.example.com/2", "aggregator", 2);
    let new_count = store.record_run(&id, 2, 0, vec![a, b], Vec::new(), &no_tombstones(), &[]);
    assert_eq!(
        new_count, 1,
        "one job on two boards counts as ONE new cluster"
    );
}

#[test]
fn record_run_cluster_count_known_job_resurfacing_is_zero() {
    let store = Store::new();
    let id = manual_ap(&store);
    let direct = board_job("https://a.example.com/1", "greenhouse", 1);
    assert_eq!(
        store.record_run(&id, 1, 0, vec![direct], Vec::new(), &no_tombstones(), &[]),
        1
    );
    let agg = board_job("https://b.example.com/2", "aggregator", 2);
    assert_eq!(
        store.record_run(&id, 2, 0, vec![agg], Vec::new(), &no_tombstones(), &[]),
        0,
        "a known job resurfacing on another board contributes 0 new"
    );
}

#[test]
fn update_found_job_descriptions_clears_stale_trust_but_leaves_score_provisional_untouched() {
    let store = Store::new();
    let id = manual_ap(&store);
    let url = "https://acme.com/careers/1";
    let empty_desc_trust = assess_trust(url, "Acme", "");
    assert!(empty_desc_trust.flags.contains(&"description_unavailable".to_string()));

    let mut seeded = found_job_full(url, "Rust Engineer", "Acme", 1);
    seeded.score = Some(number("70.0"));
    seeded.score_provisional = true;
    seeded.trust = Some(empty_desc_trust);
    store.record_run(&id, 1, 0, vec![seeded], Vec::new(), &no_tombstones(), &[]);

    let normalized = normalize_job_url(url);
    let full_description = "We are looking for a Senior Rust Engineer to build our \
         distributed systems platform. You will own the async runtime, mentor \
         junior engineers, and ship production services used by millions of \
         users daily.";
    let updated = store.update_found_job_descriptions(&normalized, full_description);
    assert_eq!(updated, 1);

    let job = &store.list()[0].found_jobs[0];
    let trust = job.trust.as_ref().expect("trust must still be set");
    assert!(!trust.flags.contains(&"description_unavailable".to_string()));
    assert_eq!(trust.level, "high");
    assert_eq!(job.score, Some(number("70.0")));
    assert!(job.score_provisional, "a corrected text is not a new score");
}

#[test]
fn split_survives_two_record_run_cycles() {
    let store = Store::new();
    let id = manual_ap(&store);
    let a = board_job("https://a.example.com/1", "greenhouse", 1);
    let b = board_job("https://b.example.com/2", "lever", 2);
    let clusters = |store: &Store| {
        let jobs = store.get(&id).unwrap().found_jobs;
        let of = |part: &str| {
            jobs.iter().find(|j| j.url.contains(part)).and_then(|j| j.cluster_id.clone())
        };
        (of("a.example"), of("b.example"))
    };

    let jobs = || vec![a.clone(), b.clone()];
    store.record_run(&id, 2, 0, jobs(), Vec::new(), &no_tombstones(), &[]);
    let (cid_a, cid_b) = clusters(&store);
    assert_eq!(cid_a, cid_b, "no tombstone → same cluster");

    let mut tombstones = HashSet::new();
    tombstones.insert((merge_key(&a, &canonical_job_key), merge_key(&b, &canonical_job_key)));
    for cycle in 0..2 {
        store.record_run(&id, 2, 0, jobs(), Vec::new(), &tombstones, &[]);
        let (ca, cb) = clusters(&store);
        assert_ne!(ca, cb, "tombstone split must survive cycle {cycle}");
    }
}

#[test]
fn recompute_record_clusters_regroups_without_a_run() {
    let store = Store::new();
    let id = manual_ap(&store);
    let a = board_job("https://a.example.com/1", "greenhouse", 1);
    let b = board_job("https://b.example.com/2", "lever", 2);
    let mut tombstones = HashSet::new();
    tombstones.insert((merge_key(&a, &canonical_job_key), merge_key(&b, &canonical_job_key)));
    store.record_run(&id, 2, 0, vec![a, b], Vec::new(), &no_tombstones(), &[]);
    let before = store.get(&id).unwrap();
    let assign = |inputs: &Vec<ClusterInput>| assign_clusters(inputs, &tombstones);
    let now = store.now();
    store.inner.borrow_mut().recompute_record_clusters(&id, &canonical_job_key, &assign, now);
    let after = store.get(&id).unwrap();
    assert_ne!(after.found_jobs[0].cluster_id, after.found_jobs[1].cluster_id);
    assert_eq!(after.found_jobs[0].url, before.found_jobs[0].url);
    assert_eq!(after.run_status, before.run_status);
    store.inner.borrow_mut().recompute_record_clusters("x", &canonical_job_key, &assign, now);
    assert_eq!(store.list().len(), 1);
}

#[test]
fn record_run_strips_board_health_so_it_never_reaches_a_backup() {
    let store = Store::new();
    let id = manual_ap(&store);
    let mut summary = board_summary("aggregator", 0, Some("429 Too Many Requests"), None, None);
    summary.health = Some(failing_health("429 Too Many Requests", "job-secret"));
    store.record_run(&id, 0, 0, Vec::new(), vec![summary], &no_tombstones(), &[]);

    let kept = store.get(&id).unwrap();
    assert_eq!(
        kept.last_run_summaries[0].error.as_deref(),
        Some("429 Too Many Requests"),
        "the run's own diagnostics must survive"
    );
    assert!(kept.last_run_summaries[0].health.is_none());
    let bundle = store.inner.borrow().export();
    assert!(bundle[0].last_run_summaries[0].health.is_none());
}

#[test]
fn export_strips_board_health_even_from_a_record_that_already_had_it() {
    let store = Store::new();
    manual_ap(&store);
    let mut planted = board_summary("wwr", 0, Some("HTTP 500"), None, None);
    planted.health = Some(failing_health("machine-a-only", "job-machine-a"));
    let mut records = store.list();
    records[0].last_run_summaries = vec![planted];
    store.replace_all(records);

    let bundle = store.inner.borrow().export();
    assert_eq!(bundle[0].last_run_summaries[0].error.as_deref(), Some("HTTP 500"));
    assert!(bundle[0].last_run_summaries[0].health.is_none());
}

#[test]
fn import_strips_board_health_from_a_legacy_or_tampered_bundle() {
    let source = Store::new();
    let id = manual_ap(&source);
    let mut planted = board_summary("wwr", 0, Some("HTTP 500"), None, None);
    planted.health = Some(failing_health("machine-a-only", "job-machine-a"));
    let mut bundle = source.list();
    bundle[0].last_run_summaries = vec![planted];

    let mut restored = AutopilotStore::new();
    assert_eq!(restored.import(bundle), 1);
    let reloaded = restored.get(&id).unwrap();
    assert_eq!(reloaded.last_run_summaries.len(), 1);
    assert!(reloaded.last_run_summaries[0].health.is_none(), "import must strip the verdict");
}

#[test]
fn load_strips_board_health_left_by_an_intermediate_build() {
    let seed = Store::new();
    let id = manual_ap(&seed);
    let mut planted = board_summary("wwr", 0, Some("HTTP 500"), None, None);
    planted.health = Some(failing_health("stale-from-old-build", "job-old"));
    let mut records = seed.list();
    records[0].last_run_summaries = vec![planted];

    let rows: Vec<Option<Autopilot>> = records.into_iter().map(Some).collect();
    let cold = AutopilotStore::load(&rows);
    let reloaded = cold.get(&id).unwrap();
    assert_eq!(reloaded.last_run_summaries.len(), 1);
    assert!(reloaded.last_run_summaries[0].health.is_none());
}

#[test]
fn load_drops_only_the_unparseable_record_not_the_whole_file() {
    let good = Autopilot { id: "ap-good".into(), ..base_autopilot() };
    let rows = vec![Some(good), None];
    let mut store = AutopilotStore::load(&rows);
    let list = store.list();
    assert_eq!(list.len(), 1, "the good record loads; only the unparseable one is dropped");
    assert_eq!(list[0].id, "ap-good");

    let input = json(
        r#"{
        "name": "New AP",
        "target": { "board": "linkedin", "query": "rust", "pages": 1 },
        "filter": { "minMatchScore": 50.0 },
        "schedule": "manual"
    }"#,
    );
    let target = input.get("target").and_then(target_of);
    let filter = input.get("filter").and_then(filter_of);
    store.create(&input, target, filter, 5);
    let all = store.list();
    assert_eq!(all.len(), 2);
    assert!(all.iter().any(|a| a.id == "ap-good"));
    assert!(all.iter().any(|a| a.name == "New AP"));
}

#[test]
fn test_data_store_export_import_preserves_id() {
    let store = Store::new();
    let created = store.create(json(
        r#"{
        "name": "Test AP",
        "target": { "board": "linkedin", "query": "rust", "pages": 1 },
        "filter": { "minMatchScore": 50.0 },
        "schedule": "manual"
    }"#,
    ));
    let bundle = store.inner.borrow().export();
    let mut restored = AutopilotStore::new();
    assert_eq!(restored.import(bundle), 1);
    let list = restored.list();
    assert_eq!(list.len(), 1);
    assert_eq!(list[0].id, created.id);
    assert_eq!(list[0].name, "Test AP");
    assert_eq!(restored.key(), "autopilots");
}

#[test]
fn import_restores_what_was_exported() {
    let store = Store::new();
    let id = manual_ap(&store);
    store.record_run(
        &id,
        1,
        0,
        vec![found_job("https://a.example/1", 1)],
        vec![board_summary("greenhouse", 1, None, None, None)],
        &no_tombstones(),
        &[],
    );
    manual_ap(&store);
    let mut restored = AutopilotStore::new();
    restored.import(store.inner.borrow().export());
    assert_eq!(restored.list(), store.list());
}

#[test]
fn relax_legacy_filters_once_relaxes_and_writes_marker_on_first_run() {
    let store = Store::new();
    let id = seed_restrictive(&store);
    let mark =
        store.inner.borrow_mut().relax_legacy_filters_once(false, &|_: &AutopilotStore| true);
    assert!(mark, "the mark must be set after the first run");
    let ap = store.get(&id).expect("autopilot must still exist");
    assert_eq!(ap.filter.min_match_score, number("0.0"));
    assert!(ap.filter.keywords.is_none(), "keywords must be cleared to None");
    assert!(ap.target.date_filter.is_none(), "date_filter must be cleared from \"24h\" to None");
}

#[test]
fn relax_legacy_filters_once_skips_when_marker_present() {
    let store = Store::new();
    let id = seed_restrictive(&store);
    let mark = store
        .inner
        .borrow_mut()
        .relax_legacy_filters_once(true, &|_: &AutopilotStore| panic!("nothing is persisted"));
    assert!(!mark);
    let ap = store.get(&id).expect("autopilot must still exist");
    assert_eq!(ap.filter.min_match_score, number("50.0"));
    assert!(ap.filter.keywords.is_some());
    assert_eq!(ap.target.date_filter.as_deref(), Some("24h"));
}

#[test]
fn relax_legacy_filters_once_does_not_write_marker_when_persist_fails() {
    let mut store = AutopilotStore::new();
    let mark = store.relax_legacy_filters_once(false, &|_: &AutopilotStore| false);
    assert!(!mark, "mark must NOT be set when the records were not kept");
}

#[test]
fn relaxing_is_persisted_before_the_mark() {
    let store = Store::new();
    let id = seed_restrictive(&store);
    let persisted = RefCell::new(None);
    let keep = |s: &AutopilotStore| {
        *persisted.borrow_mut() = s.get(&id);
        true
    };
    store.inner.borrow_mut().relax_legacy_filters_once(false, &keep);
    let kept = persisted.borrow_mut().take().expect("was handed to persist");
    assert_eq!(kept.filter.min_match_score, number("0.0"));
}

#[test]
fn work_types_roundtrips_through_serialize_deserialize() {
    let types = vec![WorkType::OnSite, WorkType::Hybrid];
    let names: Vec<String> = types.iter().map(|t| t.name().to_string()).collect();
    assert_eq!(names, vec!["on-site", "hybrid"]);
    assert_eq!(parse_work_types_lenient(&names), types);
}

#[test]
fn boards_are_one_text_or_a_list_of_texts() {
    assert_eq!(string_or_vec(&json(r#""linkedin""#)), Some(vec!["linkedin".to_string()]));
    assert_eq!(string_or_vec(&json("[]")), Some(vec![]));
    assert_eq!(string_or_vec(&json(r#"["a", 1]"#)), None);
    assert_eq!(string_or_vec(&json("5")), None);
}

#[test]
fn an_unchanged_file_is_not_written_again() {
    assert!(!needs_write(Some("[]"), "[]"));
    assert!(needs_write(Some("// stale sentinel content"), "[]"));
    assert!(needs_write(None, "[]"), "a missing file is written");
}

#[test]
fn records_are_listed_newest_first() {
    let mut store = AutopilotStore::new();
    let at = |id: &str, created_at: u64| Autopilot {
        id: id.into(),
        created_at,
        ..base_autopilot()
    };
    store.replace_all(vec![at("b", 1), at("c", 3), at("a", 1), at("c", 2)]);
    let ids: Vec<String> = store.list().into_iter().map(|ap| ap.id).collect();
    assert_eq!(ids, vec!["c", "a", "b"]);
    assert_eq!(store.get("c").unwrap().created_at, 2, "the last of two records stays");
}

#[test]
fn status_and_run_changes_touch_one_record() {
    let mut store = AutopilotStore::new();
    store.replace_all(vec![
        Autopilot { id: "a".into(), ..base_autopilot() },
        Autopilot { id: "b".into(), ..base_autopilot() },
    ]);
    store.set_status("a", AutopilotStatus::Paused, 7);
    store.stamp_last_run("a", 8);
    let a = store.get("a").unwrap();
    assert_eq!(a.status, AutopilotStatus::Paused);
    assert_eq!((a.last_run_at, a.updated_at), (Some(8), 8));
    assert_eq!(store.get("b").unwrap(), Autopilot { id: "b".into(), ..base_autopilot() });
    store.remove("b");
    assert!(store.get("b").is_none());
    store.remove("b");
    assert_eq!(store.list().len(), 1);
    assert_eq!(store.update("b", &json("{}"), None, None, 9), None);
}

#[test]
fn an_empty_patch_only_stamps() {
    let mut store = AutopilotStore::new();
    store.replace_all(vec![base_autopilot()]);
    let patched = store.update("test-id", &json("{}"), None, None, 77).unwrap();
    assert_eq!(patched, Autopilot { updated_at: 77, ..base_autopilot() });
}

#[test]
fn new_records_have_distinct_ids_and_their_time() {
    let store = Store::new();
    let a = manual_ap(&store);
    let b = manual_ap(&store);
    assert_ne!(a, b);
    assert_eq!(a.len(), 36);
    let mut plain = AutopilotStore::new();
    let ap = plain.create_with_id(&json(r#"{ "name": "N" }"#), None, None, "my-id".into(), 42);
    assert_eq!((ap.id.as_str(), ap.created_at, ap.updated_at), ("my-id", 42, 42));
    assert_eq!(plain.get("my-id"), Some(ap));
}

#[test]
fn clustering_sees_what_was_found() {
    let mut job = board_job("https://a.example.com/1", "greenhouse", 3);
    job.description = Some("text".into());
    let jobs = vec![job, found_job("https://b.example.com/2", 4)];
    let keys: Vec<String> = merge_keys(&jobs, &canonical_job_key);
    let inputs = found_job_cluster_inputs(&jobs, &keys);
    assert_eq!(inputs[0].key, "https://a.example.com/1");
    assert_eq!(inputs[0].source.as_deref(), Some("greenhouse"));
    assert!(inputs[0].has_description);
    assert_eq!(inputs[0].seen_at, 3);
    assert!(!inputs[1].has_description);
    let mut jobs = jobs;
    let assign = |inputs: &Vec<ClusterInput>| assign_clusters(inputs, &HashSet::new());
    cluster_found_jobs(&mut jobs, &canonical_job_key, &assign);
    assert_eq!(jobs[0].cluster_id.as_deref(), Some("cluster of https://a.example.com/1"));
    assert!(jobs[0].cluster_canonical);
}

#[test]
fn defaults_are_what_missing_fields_get() {
    assert!(default_true());
    assert_eq!(ScoreSource::default(), ScoreSource::Keyword);
}
