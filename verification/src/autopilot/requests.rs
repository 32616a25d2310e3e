//! What a request to create or to change a record makes of it.
use vstd::prelude::*;

use crate::autopilot::fields::{number_up_to, str_field, text_or_empty, u32_field_in_range};
use crate::autopilot::model::{
    default_top_n, jobs_view, summaries_view, Autopilot, AutopilotFilter, AutopilotStatus,
    AutopilotTarget, AutopilotView, FilterView, TargetView,
};
use crate::json::{Json, JsonView, Real};
use crate::text::{clone_opt_text, opt_text, owned, str_eq};

verus! {

// ── What a new record holds ─────────────────────────────────────────────────

/// The target of a record that was created without a readable one.
pub open spec fn empty_target() -> TargetView {
    TargetView {
        boards: Seq::empty(),
        query: Seq::empty(),
        location: None,
        country_code: None,
        work_types: None,
        pages: 1,
        date_filter: None,
        top_n: 3,
        watched_companies_only: None,
    }
}

/// The filter of a record that was created without a readable one: it keeps every posting.
pub open spec fn open_filter() -> FilterView {
    FilterView { min_match_score: "0.0"@, keywords: None, exclude_keywords: None }
}

/// The record that a request creates.
pub open spec fn created(
    input: JsonView,
    target: Option<TargetView>,
    filter: Option<FilterView>,
    id: Seq<char>,
    now: u64,
) -> AutopilotView {
    AutopilotView {
        id,
        name: text_or_empty(input, "name"@),
        status: AutopilotStatus::Active,
        target: match target {
            Some(t) => t,
            None => empty_target(),
        },
        filter: match filter {
            Some(f) => f,
            None => open_filter(),
        },
        schedule: text_or_empty(input, "schedule"@),
        schedule_hour: number_up_to(input, "scheduleHour"@, 23),
        schedule_minute: number_up_to(input, "scheduleMinute"@, 59),
        resume_text: input.text_at("resumeText"@),
        cover_letter: input.text_at("coverLetter"@),
        assistant: input.boolean_at("assistant"@) == Some(true),
        assistant_provider: input.text_at("assistantProvider"@),
        assistant_model: input.text_at("assistantModel"@),
        assistant_base_url: input.text_at("assistantBaseUrl"@),
        total_found: 0,
        total_applied: 0,
        found_jobs: Seq::empty(),
        run_status: None,
        last_run_summaries: Seq::empty(),
        last_run_at: None,
        created_at: now,
        updated_at: now,
    }
}

fn opt_str_field(v: &Json, key: &str) -> (r: Option<String>)
    ensures
        opt_text(r) == v@.text_at(key@),
{
    match v.str_at(key) {
        Some(s) => Some(owned(s)),
        None => None,
    }
}

/// The target as values, where there is one.
pub open spec fn opt_target(o: Option<AutopilotTarget>) -> Option<TargetView> {
    match o {
        Some(t) => Some(t@),
        None => None,
    }
}

/// The filter as values, where there is one.
pub open spec fn opt_filter(o: Option<AutopilotFilter>) -> Option<FilterView> {
    match o {
        Some(f) => Some(f@),
        None => None,
    }
}

/// The record that a request creates. `target` and `filter` are what the request's own target
/// and filter read as, where they are readable.
pub fn new_record(
    input: &Json,
    target: Option<AutopilotTarget>,
    filter: Option<AutopilotFilter>,
    id: String,
    now: u64,
) -> (r: Autopilot)
    ensures
        r@ == created(input@, opt_target(target), opt_filter(filter), id@, now),
{
    let target: AutopilotTarget = match target {
        Some(t) => t,
        None => {
            let t = AutopilotTarget {
                boards: Vec::new(),
                query: String::new(),
                location: None,
                country_code: None,
                work_types: None,
                pages: 1,
                date_filter: None,
                top_n: default_top_n(),
                watched_companies_only: None,
            };
            assert(t@ =~= empty_target());
            t
        },
    };
    let filter: AutopilotFilter = match filter {
        Some(f) => f,
        None => AutopilotFilter {
            min_match_score: Real { text: owned("0.0") },
            keywords: None,
            exclude_keywords: None,
        },
    };
    let r = Autopilot {
        id,
        name: str_field(input, "name"),
        status: AutopilotStatus::Active,
        target,
        filter,
        schedule: str_field(input, "schedule"),
        schedule_hour: u32_field_in_range(input, "scheduleHour", 23),
        schedule_minute: u32_field_in_range(input, "scheduleMinute", 59),
        resume_text: opt_str_field(input, "resumeText"),
        cover_letter: opt_str_field(input, "coverLetter"),
        assistant: input.bool_at("assistant").unwrap_or(false),
        assistant_provider: opt_str_field(input, "assistantProvider"),
        assistant_model: opt_str_field(input, "assistantModel"),
        assistant_base_url: opt_str_field(input, "assistantBaseUrl"),
        total_found: 0,
        total_applied: 0,
        found_jobs: Vec::new(),
        run_status: None,
        last_run_summaries: Vec::new(),
        last_run_at: None,
        created_at: now,
        updated_at: now,
    };
    assert(jobs_view(r.found_jobs@) =~= Seq::empty());
    assert(summaries_view(r.last_run_summaries@) =~= Seq::empty());
    r
}

// ── What a patch changes ────────────────────────────────────────────────────

/// The status that a name in a patch stands for; an unknown name stands for the active one.
pub open spec fn status_named(s: Seq<char>) -> AutopilotStatus {
    if s == "paused"@ {
        AutopilotStatus::Paused
    } else if s == "archived"@ {
        AutopilotStatus::Archived
    } else {
        AutopilotStatus::Active
    }
}

/// A text after a patch.
pub open spec fn patched_text(patch: JsonView, key: Seq<char>, old: Seq<char>) -> Seq<char> {
    match patch.text_at(key) {
        Some(s) => s,
        None => old,
    }
}

/// An optional text after a patch: the patch can set it, and leaves it otherwise.
pub open spec fn patched_opt(patch: JsonView, key: Seq<char>, old: Option<Seq<char>>) -> Option<
    Seq<char>,
> {
    match patch.text_at(key) {
        Some(s) => Some(s),
        None => old,
    }
}

/// A number after a patch: any value under the key sets it, one out of range clears it.
pub open spec fn patched_number(
    patch: JsonView,
    key: Seq<char>,
    max: u32,
    old: Option<u32>,
) -> Option<u32> {
    if patch.get(key) is Some {
        number_up_to(patch, key, max)
    } else {
        old
    }
}

/// A part of the provider's settings after a patch. Switching the notes off clears it, unless
/// the same patch sets it.
pub open spec fn patched_assistant_part(
    patch: JsonView,
    key: Seq<char>,
    old: Option<Seq<char>>,
) -> Option<Seq<char>> {
    patched_opt(
        patch,
        key,
        if patch.boolean_at("assistant"@) == Some(false) {
            None
        } else {
            old
        },
    )
}

/// A record after a patch. What the patch does not name stays.
pub open spec fn patched(
    ap: AutopilotView,
    patch: JsonView,
    target: Option<TargetView>,
    filter: Option<FilterView>,
    now: u64,
) -> AutopilotView {
    AutopilotView {
        updated_at: now,
        name: patched_text(patch, "name"@, ap.name),
        status: match patch.text_at("status"@) {
            Some(s) => status_named(s),
            None => ap.status,
        },
        target: match target {
            Some(t) => t,
            None => ap.target,
        },
        filter: match filter {
            Some(f) => f,
            None => ap.filter,
        },
        schedule: patched_text(patch, "schedule"@, ap.schedule),
        schedule_hour: patched_number(patch, "scheduleHour"@, 23, ap.schedule_hour),
        schedule_minute: patched_number(patch, "scheduleMinute"@, 59, ap.schedule_minute),
        resume_text: patched_opt(patch, "resumeText"@, ap.resume_text),
        cover_letter: patched_opt(patch, "coverLetter"@, ap.cover_letter),
        assistant: match patch.boolean_at("assistant"@) {
            Some(b) => b,
            None => ap.assistant,
        },
        assistant_provider: patched_assistant_part(
            patch,
            "assistantProvider"@,
            ap.assistant_provider,
        ),
        assistant_model: patched_assistant_part(patch, "assistantModel"@, ap.assistant_model),
        assistant_base_url: patched_assistant_part(
            patch,
            "assistantBaseUrl"@,
            ap.assistant_base_url,
        ),
        ..ap
    }
}

fn patch_text(patch: &Json, key: &str, old: &String) -> (r: String)
    ensures
        r@ == patched_text(patch@, key@, old@),
{
    match patch.str_at(key) {
        Some(s) => owned(s),
        None => old.clone(),
    }
}

fn patch_opt(patch: &Json, key: &str, old: &Option<String>) -> (r: Option<String>)
    ensures
        opt_text(r) == patched_opt(patch@, key@, opt_text(*old)),
{
    match patch.str_at(key) {
        Some(s) => Some(owned(s)),
        None => clone_opt_text(old),
    }
}

fn patch_number(patch: &Json, key: &str, max: u32, old: Option<u32>) -> (r: Option<u32>)
    ensures
        r == patched_number(patch@, key@, max, old),
{
    if patch.get(key).is_some() {
        u32_field_in_range(patch, key, max)
    } else {
        old
    }
}

fn patch_assistant_part(patch: &Json, key: &str, old: &Option<String>) -> (r: Option<String>)
    ensures
        opt_text(r) == patched_assistant_part(patch@, key@, opt_text(*old)),
{
    if patch.bool_at("assistant") == Some(false) {
        patch_opt(patch, key, &None)
    } else {
        patch_opt(patch, key, old)
    }
}

fn patch_status(patch: &Json, old: AutopilotStatus) -> (r: AutopilotStatus)
    ensures
        r == (match patch@.text_at("status"@) {
            Some(s) => status_named(s),
            None => old,
        }),
{
    match patch.str_at("status") {
        Some(s) => if str_eq(s, "paused") {
            AutopilotStatus::Paused
        } else if str_eq(s, "archived") {
            AutopilotStatus::Archived
        } else {
            AutopilotStatus::Active
        },
        None => old,
    }
}

/// Applies a patch to a record. `target` and `filter` are what the patch's own target and filter
/// read as, where they are readable.
pub fn apply_patch(
    ap: &mut Autopilot,
    patch: &Json,
    target: Option<AutopilotTarget>,
    filter: Option<AutopilotFilter>,
    now: u64,
)
    ensures
        final(ap)@ == patched(old(ap)@, patch@, opt_target(target), opt_filter(filter), now),
{
    let ghost before = ap@;
    ap.updated_at = now;
    ap.name = patch_text(patch, "name", &ap.name);
    ap.status = patch_status(patch, ap.status);
    ap.schedule = patch_text(patch, "schedule", &ap.schedule);
    ap.schedule_hour = patch_number(patch, "scheduleHour", 23, ap.schedule_hour);
    ap.schedule_minute = patch_number(patch, "scheduleMinute", 59, ap.schedule_minute);
    ap.resume_text = patch_opt(patch, "resumeText", &ap.resume_text);
    ap.cover_letter = patch_opt(patch, "coverLetter", &ap.cover_letter);
    ap.assistant = patch.bool_at("assistant").unwrap_or(ap.assistant);
    ap.assistant_provider = patch_assistant_part(
        patch,
        "assistantProvider",
        &ap.assistant_provider,
    );
    ap.assistant_model = patch_assistant_part(patch, "assistantModel", &ap.assistant_model);
    ap.assistant_base_url = patch_assistant_part(
        patch,
        "assistantBaseUrl",
        &ap.assistant_base_url,
    );
    if let Some(t) = target {
        ap.target = t;
    }
    if let Some(f) = filter {
        ap.filter = f;
    }
    assert(ap@ =~= patched(before, patch@, opt_target(target), opt_filter(filter), now));
}

} // verus!
