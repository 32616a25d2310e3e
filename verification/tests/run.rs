use std::collections::HashSet;

use job_hunter::autopilot::model::{
    AutopilotTarget, BoardScrapeSummary, FoundJob, ScoreSource, WorkType,
};
use job_hunter::posting::JobPosting;
use job_hunter::run::diagnostics::scrape_diagnostics;
use job_hunter::run::enrich::{
    classify_resolution, select_linkedin_enrichment_targets, EnrichOutcome, EnrichRun, EnrichStep,
    LINKEDIN_ENRICH_MAX,
};
use job_hunter::run::notes::{
    keep_note, note_job_text, note_user_msg, notes_enabled, NoteAnswer, NotePhase, NoteRun,
    NoteStep, ASSISTANT_NOTES_MAX, JOB_CAP, NOTE_CAP,
};
use job_hunter::run::scrape::{board_search_input, company_overrides, resolve_watched_companies};

fn job(board: Option<&str>, description: Option<&str>, url: &str) -> FoundJob {
    FoundJob {
        title: "Engineer".to_string(),
        company: "Acme".to_string(),
        url: url.to_string(),
        location: None,
        board: board.map(str::to_string),
        description: description.map(str::to_string),
        salary_min: None,
        salary_max: None,
        salary_currency: None,
        score: None,
        score_provisional: false,
        score_source: ScoreSource::Keyword,
        found_at: 0,
        posted_at: None,
        is_new: false,
        applied: false,
        trust: None,
        assistant_notes: None,
        cluster_id: None,
        cluster_canonical: true,
        cluster_members: Vec::new(),
        is_agency: false,
    }
}

// ── Enrichment ──────────────────────────────────────────────────────────────

#[test]
fn selects_only_linkedin_jobs_with_a_blank_description() {
    let jobs = vec![
        job(Some("linkedin"), None, "https://www.linkedin.com/jobs/view/1"),
        job(
            Some("linkedin"),
            Some("A real, non-empty job description."),
            "https://www.linkedin.com/jobs/view/2",
        ),
        job(Some("greenhouse"), None, "https://boards.greenhouse.io/acme/jobs/1"),
    ];
    let targets = select_linkedin_enrichment_targets(&jobs);
    assert_eq!(targets, vec!["https://www.linkedin.com/jobs/view/1".to_string()]);
}

#[test]
fn ignores_is_new_entirely_so_a_prior_failed_attempt_retries() {
    let mut stale = job(Some("linkedin"), None, "https://www.linkedin.com/jobs/view/3");
    stale.is_new = false;
    let targets = select_linkedin_enrichment_targets(std::slice::from_ref(&stale));
    assert_eq!(targets, vec![stale.url]);
}

#[test]
fn dedupes_and_caps_at_the_per_run_limit() {
    let mut jobs: Vec<FoundJob> = (0..(LINKEDIN_ENRICH_MAX + 5))
        .map(|i| job(Some("linkedin"), None, &format!("https://www.linkedin.com/jobs/view/{i}")))
        .collect();
    jobs.push(job(Some("linkedin"), None, "https://www.linkedin.com/jobs/view/0"));

    let targets = select_linkedin_enrichment_targets(&jobs);

    assert_eq!(targets.len(), LINKEDIN_ENRICH_MAX);
    let unique: HashSet<_> = targets.iter().collect();
    assert_eq!(unique.len(), targets.len());
}

#[test]
fn empty_urls_short_circuits_without_touching_the_rate_limiter() {
    let jobs: Vec<FoundJob> = Vec::new();
    assert!(select_linkedin_enrichment_targets(&jobs).is_empty());
    let (run, step) = EnrichRun::begin(vec![]);
    assert!(matches!(step, EnrichStep::Done));
    assert_eq!(run.enriched(), 0);
}

fn posting(description: Option<&str>) -> JobPosting {
    JobPosting {
        id: "linkedin:1".to_string(),
        external_id: Some("1".to_string()),
        title: "Engineer".to_string(),
        company: "Acme".to_string(),
        location: None,
        url: "https://www.linkedin.com/jobs/view/1".to_string(),
        source: "linkedin".to_string(),
        description: description.map(str::to_string),
        posted_at: None,
        captured_at: 0,
    }
}

fn resolution(p: Option<JobPosting>) -> Result<Option<JobPosting>, anyhow::Error> {
    Ok(p)
}

#[test]
fn classify_resolution_extracts_a_real_description() {
    let outcome = classify_resolution(resolution(Some(posting(Some("A real job description.")))));
    assert_eq!(outcome, EnrichOutcome::Description("A real job description.".to_string()));
}

#[test]
fn classify_resolution_skips_a_blank_description() {
    assert_eq!(classify_resolution(resolution(Some(posting(Some(""))))), EnrichOutcome::Skip);
    assert_eq!(classify_resolution(resolution(Some(posting(None)))), EnrichOutcome::Skip);
}

#[test]
fn classify_resolution_skips_ok_none_the_same_as_an_error() {
    assert_eq!(classify_resolution(resolution(None)), EnrichOutcome::Skip);
    assert_eq!(
        classify_resolution(Err(anyhow::Error::msg("network error"))),
        EnrichOutcome::Skip
    );
}

#[test]
fn enrichment_counts_every_request_and_keeps_what_was_found() {
    let (mut run, step) = EnrichRun::begin(vec!["u1".into(), "u2".into(), "u3".into()]);
    assert!(matches!(step, EnrichStep::WaitForSlot));
    assert!(matches!(run.slot_free(), EnrichStep::Resolve(url) if url == "u1"));
    assert!(matches!(run.resolved(resolution(Some(posting(Some("d"))))), EnrichStep::RecordRequest));
    assert!(matches!(
        run.recorded(),
        EnrichStep::WriteBack { url, description } if url == "u1" && description == "d"
    ));
    assert!(matches!(run.written(true), EnrichStep::WaitForSlot));
    assert!(matches!(run.slot_free(), EnrichStep::Resolve(url) if url == "u2"));
    assert!(matches!(
        run.resolved(Err(anyhow::Error::msg("gone"))),
        EnrichStep::RecordRequest
    ));
    assert!(matches!(run.recorded(), EnrichStep::WaitForSlot));
    run.slot_free();
    run.resolved(resolution(Some(posting(Some("e")))));
    run.recorded();
    assert!(matches!(run.written(false), EnrichStep::Done));
    assert_eq!(run.enriched(), 1);
}

// ── Diagnostics ─────────────────────────────────────────────────────────────

fn summary(
    board: &str,
    error: Option<&str>,
    skipped: Option<&str>,
    truncated: Option<&str>,
) -> BoardScrapeSummary {
    BoardScrapeSummary {
        board: board.into(),
        count: 0,
        error: error.map(String::from),
        skipped: skipped.map(String::from),
        truncated: truncated.map(String::from),
        notes: Vec::new(),
        health: None,
    }
}

#[test]
fn diagnostics_name_each_board_that_came_up_short() {
    let clean = |reason: &str| reason.replace("secret", "***");
    let line = scrape_diagnostics(
        &[
            summary("a", Some("secret failed"), Some("skipped"), None),
            summary("b", None, None, None),
            summary("c", None, Some("needs-keys"), Some("cut")),
            summary("d", None, None, Some("page 2 of 5 failed")),
        ],
        &clean,
    );
    assert_eq!(line, "a: *** failed; c: needs-keys; d: page 2 of 5 failed");
    assert_eq!(scrape_diagnostics(&[summary("b", None, None, None)], &clean), "");
}

// ── The search ──────────────────────────────────────────────────────────────

fn target(boards: &[&str], watched_only: Option<bool>) -> AutopilotTarget {
    AutopilotTarget {
        boards: boards.iter().map(|b| b.to_string()).collect(),
        query: "rust".into(),
        location: Some("Berlin".into()),
        country_code: Some("de".into()),
        work_types: Some(vec![WorkType::Remote]),
        pages: 4,
        date_filter: Some("week".into()),
        top_n: 3,
        watched_companies_only: watched_only,
    }
}

#[test]
fn a_target_becomes_a_search() {
    let input = board_search_input(&target(&["a"], None));
    assert_eq!(input.query, "rust");
    assert_eq!(input.location.as_deref(), Some("Berlin"));
    assert_eq!((input.amount, input.pages, input.provider_amount), (100, 4, None));
    assert_eq!(input.date_filter.as_deref(), Some("week"));
    assert_eq!(input.work_types, Some(vec![WorkType::Remote]));
    assert_eq!(input.country_code.as_deref(), Some("de"));
    assert!(input.companies.is_empty());
}

fn pairs(list: &[(&str, &str)]) -> Vec<(String, String)> {
    list.iter().map(|(a, b)| (a.to_string(), b.to_string())).collect()
}

#[test]
fn watched_companies_go_to_their_own_board() {
    let watched = pairs(&[
        ("lever", " acme "),
        ("greenhouse", "zeta"),
        ("lever", "acme"),
        ("lever", "  "),
        ("lever", "beta"),
        ("ashby", "other"),
    ]);
    let selected = vec!["greenhouse".to_string(), "lever".to_string(), "personio".to_string()];
    let map = resolve_watched_companies(&watched, &selected);
    let of = |board: &str| {
        map.iter().find(|b| b.board == board).map(|b| b.slugs.clone()).unwrap_or_default()
    };
    assert_eq!(of("lever"), vec!["acme", "beta"]);
    assert_eq!(of("greenhouse"), vec!["zeta"]);
    assert!(of("personio").is_empty());
    assert!(of("ashby").is_empty());
}

#[test]
fn only_a_target_that_asks_is_limited_to_watched_companies() {
    let watched = pairs(&[("lever", "acme"), ("linkedin", "acme")]);
    let lists_companies = |board: &String| board == "lever";
    let boards = ["linkedin", "lever"];
    assert!(company_overrides(&target(&boards, None), &watched, &lists_companies).is_none());
    assert!(company_overrides(&target(&boards, Some(false)), &watched, &lists_companies).is_none());
    let limited =
        company_overrides(&target(&boards, Some(true)), &watched, &lists_companies).unwrap();
    assert_eq!(limited.len(), 1);
    assert_eq!((limited[0].board.as_str(), limited[0].slugs.len()), ("lever", 1));
}

// ── Notes ───────────────────────────────────────────────────────────────────

#[test]
fn notes_need_a_switch_and_a_resume() {
    assert!(notes_enabled(true, Some("text")));
    assert!(!notes_enabled(false, Some("text")));
    assert!(!notes_enabled(true, None));
    assert!(!notes_enabled(true, Some(" \n ")));
}

#[test]
fn a_posting_is_told_with_its_heading() {
    assert_eq!(note_job_text(" Dev ", " Acme ", Some(" text ")), "Dev at Acme\n\ntext");
    assert_eq!(note_job_text("Dev", "", None), "Dev\n\n");
    assert_eq!(note_job_text(" ", "Acme", Some("x")), "Acme\n\nx");
    assert_eq!(note_job_text("", "", Some("x")), "\n\nx");
    let fence = |tag: &str, text: &str, cap: usize| format!("[{tag} {cap}: {text}]");
    assert_eq!(
        note_user_msg("RESUME", "Dev", "Acme", Some("text"), &fence),
        format!("RESUME\n\n[job_posting {JOB_CAP}: Dev at Acme\n\ntext]")
    );
}

#[test]
fn notes_are_trimmed_and_cut() {
    assert_eq!(keep_note("  good fit \n"), Some("good fit".to_string()));
    assert_eq!(keep_note(" \n "), None);
    assert_eq!(keep_note(&"ä".repeat(NOTE_CAP + 5)).unwrap().chars().count(), NOTE_CAP);
}

fn keys(list: &[&str]) -> Vec<String> {
    list.iter().map(|k| k.to_string()).collect()
}

#[test]
fn a_run_pays_for_three_calls_at_most() {
    let all = ["a", "b", "c", "d", "e"];
    let mut jobs: Vec<FoundJob> = all.iter().map(|u| job(None, None, u)).collect();
    let mut run = NoteRun::new(keys(&all), vec![]);
    for i in 0..ASSISTANT_NOTES_MAX {
        assert_eq!(run.search(false), NoteStep::Charge);
        assert_eq!(run.charged(true), NoteStep::Ask(i));
        run.answered(&mut jobs, NoteAnswer::Text(format!(" note {i} ")));
    }
    assert_eq!(run.search(false), NoteStep::Done);
    assert_eq!((run.calls(), run.generated()), (3, 3));
    assert_eq!(jobs[2].assistant_notes.as_deref(), Some("note 2"));
    assert_eq!(jobs[3].assistant_notes, None);
}

#[test]
fn known_and_repeated_jobs_cost_nothing() {
    let mut jobs: Vec<FoundJob> = ["1", "2", "3"].iter().map(|u| job(None, None, u)).collect();
    let mut run = NoteRun::new(keys(&["old", "x", "x"]), keys(&["old"]));
    assert_eq!(run.search(false), NoteStep::Charge);
    assert_eq!(run.charged(true), NoteStep::Ask(1));
    run.answered(&mut jobs, NoteAnswer::Failed);
    assert_eq!(run.search(false), NoteStep::Done);
    assert_eq!((run.calls(), run.generated()), (1, 0));
    assert!(jobs.iter().all(|j| j.assistant_notes.is_none()));
}

#[test]
fn a_refused_charge_or_a_cancellation_ends_the_notes() {
    let mut run = NoteRun::new(keys(&["a", "b"]), vec![]);
    run.search(false);
    assert_eq!(run.charged(false), NoteStep::Done);
    assert_eq!((run.calls(), run.phase()), (0, NotePhase::Over));
    let mut run = NoteRun::new(keys(&["a", "b"]), vec![]);
    assert_eq!(run.search(true), NoteStep::Done);
    let mut jobs = vec![job(None, None, "a"), job(None, None, "b")];
    let mut run = NoteRun::new(keys(&["a", "b"]), vec![]);
    run.search(false);
    run.charged(true);
    run.answered(&mut jobs, NoteAnswer::Cancelled);
    assert_eq!(run.phase(), NotePhase::Over);
    let mut run = NoteRun::new(keys(&["a", "b"]), vec![]);
    run.search(false);
    run.charged(true);
    run.answered(&mut jobs, NoteAnswer::Text("  ".into()));
    assert_eq!((run.calls(), run.generated(), run.phase()), (1, 0, NotePhase::Search));
}
