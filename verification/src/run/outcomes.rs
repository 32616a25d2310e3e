//! What the functions of a run hand back, in the fields of what they take and give.
use vstd::prelude::*;

use crate::autopilot::model::{
    jobs_view, opt_work_types, summaries_view, AutopilotTarget, BoardScrapeSummary, FoundJob,
};
use crate::posting::JobPosting;
use crate::run::diagnostics::{
    cleaned_by, collect_reasons, every_short_board_is_named, line_holds_every_reason,
    line_is_empty_without_reasons, reasons_line, reasons_view, scrape_diagnostics, short_boards,
    BoardReason, ReasonView,
};
use crate::run::enrich::{
    bare_linkedin_job, classify_resolution, every_bare_linkedin_job_is_looked_up,
    look_up_brings_what_was_found, look_ups_go_by_board_and_description,
    select_linkedin_enrichment_targets, EnrichOutcome, EnrichPhase, EnrichRun, EnrichStep,
    EnrichStepView,
};
use crate::run::notes::{
    answers_are_counted, keep_note, no_job_is_passed_over, note_goes_to_the_job_asked_about,
    note_is_short_and_not_blank, note_is_the_beginning_of_the_answer, note_job_text, note_of,
    note_user_msg, notes_enabled, posting_is_told_title_first, NoteAnswer, NotePhase, NoteRun,
    NoteStep,
};
use crate::run::scrape::{
    board_search_input, companies_map, company_overrides, every_watched_company_is_searched,
    flagged, flags_by, resolve_watched_companies, selected_boards_search_watched_companies,
    slugs_on, watched_by_board, watched_boards_are_selected, watched_slugs_belong_to_board,
    watched_view, BoardCompanies, BoardSearchInput,
};
use crate::text::{blank, occurs, opt_text, texts, trimmed, white};

verus! {

// ── Descriptions ────────────────────────────────────────────────────────────

/// Whether a text is missing or all white space.
pub open spec fn says_nothing(d: Option<String>) -> bool {
    match d {
        None => true,
        Some(s) => forall|i: int| 0 <= i < s@.len() ==> white(#[trigger] s@[i]),
    }
}

/// The addresses that are looked up are at most fifteen, each that of a LinkedIn job whose
/// description says nothing. Each such job is among them, be it new or not, unless fifteen that
/// stand before it are.
pub proof fn bare_jobs_are_selected(jobs: &[FoundJob], r: Vec<String>, i: int)
    requires
        call_ensures(select_linkedin_enrichment_targets, (jobs,), r),
    ensures
        r@.len() <= 15,
        0 <= i < jobs@.len() && opt_text(jobs@[i].board) == Some("linkedin"@) && says_nothing(
            jobs@[i].description,
        ) ==> r@.len() == 15 || exists|k: int|
            0 <= k < r@.len() && (#[trigger] r@[k])@ == jobs@[i].url@,
        0 <= i < r@.len() ==> exists|k: int|
            0 <= k < jobs@.len() && (#[trigger] jobs@[k]).url@ == r@[i]@ && opt_text(jobs@[k].board)
                == Some("linkedin"@) && says_nothing(jobs@[k].description),
{
    let v = jobs_view(jobs@);
    let t = texts(r@);
    every_bare_linkedin_job_is_looked_up(v);
    assert(t.len() == r@.len());
    if 0 <= i < jobs@.len() && opt_text(jobs@[i].board) == Some("linkedin"@) && says_nothing(
        jobs@[i].description,
    ) {
        assert(v[i] == jobs@[i]@);
        assert(bare_linkedin_job(v[i]));
        if t.contains(v[i].url) {
            let k = choose|k: int| 0 <= k < t.len() && t[k] == v[i].url;
            assert(r@[k]@ == jobs@[i].url@);
        }
    }
    if 0 <= i < r@.len() {
        assert(t[i] == r@[i]@);
        assert(t.contains(t[i]));
        let k = choose|k: int|
            0 <= k < v.len() && bare_linkedin_job(#[trigger] v[k]) && v[k].url == t[i];
        assert(v[k] == jobs@[k]@);
        assert(jobs@[k].url@ == r@[i]@);
        assert(opt_text(jobs@[k].board) == Some("linkedin"@));
        if let Some(d) = jobs@[k].description {
            assert(v[k].description == Some(d@));
            assert forall|x: int| 0 <= x < d@.len() implies white(#[trigger] d@[x]) by {
                assert(white(v[k].description->0[x]));
            }
        }
        assert(says_nothing(jobs@[k].description));
    }
}

/// Two lists of jobs with the same boards, descriptions and addresses are looked up alike.
pub proof fn selection_goes_by_board_and_description(
    a: &[FoundJob],
    b: &[FoundJob],
    x: Vec<String>,
    y: Vec<String>,
)
    requires
        call_ensures(select_linkedin_enrichment_targets, (a,), x),
        call_ensures(select_linkedin_enrichment_targets, (b,), y),
        a@.len() == b@.len(),
        forall|i: int|
            0 <= i < a@.len() ==> opt_text((#[trigger] a@[i]).board) == opt_text(b@[i].board)
                && opt_text(a@[i].description) == opt_text(b@[i].description) && a@[i].url@
                == b@[i].url@,
    ensures
        texts(x@) == texts(y@),
{
    let u = jobs_view(a@);
    let v = jobs_view(b@);
    assert forall|i: int| 0 <= i < u.len() implies (#[trigger] u[i]).board == v[i].board
        && u[i].description == v[i].description && u[i].url == v[i].url by {
        assert(u[i] == a@[i]@ && v[i] == b@[i]@);
        assert(opt_text(a@[i].board) == opt_text(b@[i].board));
    }
    look_ups_go_by_board_and_description(u, v);
}

/// A look-up is worth keeping exactly where it found a posting with a description that says
/// something.
pub proof fn only_descriptions_that_say_something_are_kept<E>(
    result: Result<Option<JobPosting>, E>,
    r: EnrichOutcome,
)
    requires
        call_ensures(classify_resolution::<E>, (result,), r),
    ensures
        match result {
            Ok(Some(p)) => match r {
                EnrichOutcome::Description(d) => !says_nothing(p.description) && p.description->0@
                    == d@,
                EnrichOutcome::Skip => says_nothing(p.description),
            },
            _ => r is Skip,
        },
{
}

/// A pass waits for a place before each look-up, and looks up the address at hand.
pub proof fn pass_looks_up_the_address_at_hand(s: &mut EnrichRun, r: EnrichStep)
    requires
        call_ensures(EnrichRun::slot_free, (s,), r),
    ensures
        r@ == EnrichStepView::Resolve(old(s)@.urls[old(s)@.at as int]),
        final(s)@.at == old(s)@.at,
        final(s)@.urls == old(s)@.urls,
        final(s)@.enriched == old(s)@.enriched,
        final(s)@.phase == EnrichPhase::Lookup,
{
}

/// A pass begins with the first of its addresses, and is over at once where it has none.
pub proof fn pass_begins_with_its_first_address(urls: Vec<String>, r: (EnrichRun, EnrichStep))
    requires
        call_ensures(EnrichRun::begin, (urls,), r),
    ensures
        r.0@.urls == texts(urls@),
        r.0@.at == 0,
        r.0@.enriched == 0,
        urls@.len() > 0 ==> r.1@ == EnrichStepView::WaitForSlot,
        urls@.len() == 0 ==> r.1@ == EnrichStepView::Done,
{
}

/// Every look-up is counted, whatever it brought, and what it brought is what is kept.
pub proof fn every_look_up_is_counted<E>(
    s: &mut EnrichRun,
    result: Result<Option<JobPosting>, E>,
    r: EnrichStep,
)
    requires
        call_ensures(EnrichRun::resolved::<E>, (s, result), r),
    ensures
        r@ == EnrichStepView::RecordRequest,
        final(s)@.phase == EnrichPhase::Count,
        final(s)@.at == old(s)@.at,
        final(s)@.urls == old(s)@.urls,
        match result {
            Ok(Some(p)) => if says_nothing(p.description) {
                final(s)@.found is None
            } else {
                final(s)@.found == opt_text(p.description)
            },
            _ => final(s)@.found is None,
        },
{
    look_up_brings_what_was_found(result);
}

/// After a look-up was counted its description is handed over for its own address; where there is
/// none, the next address is waited for, until none is left.
pub proof fn pass_hands_descriptions_over(s: &mut EnrichRun, r: EnrichStep)
    requires
        call_ensures(EnrichRun::recorded, (s,), r),
        old(s)@.valid(),
        old(s)@.phase == EnrichPhase::Count,
    ensures
        old(s)@.found matches Some(d) ==> r@ == EnrichStepView::WriteBack(
            old(s)@.urls[old(s)@.at as int],
            d,
        ) && final(s)@.at == old(s)@.at,
        old(s)@.found is None ==> final(s)@.at == old(s)@.at + 1,
        old(s)@.found is None && old(s)@.at + 1 < old(s)@.urls.len() ==> r@
            == EnrichStepView::WaitForSlot,
        old(s)@.found is None && old(s)@.at + 1 == old(s)@.urls.len() ==> r@
            == EnrichStepView::Done,
        final(s)@.enriched == old(s)@.enriched,
        final(s)@.urls == old(s)@.urls,
{
}

// ── The search ──────────────────────────────────────────────────────────────

/// The boards are asked for what the target says: its query, its place, its pages, its dates, its
/// work types and its country, for at most a hundred postings, and for nothing else.
pub proof fn boards_are_asked_what_the_target_says(target: &AutopilotTarget, r: BoardSearchInput)
    requires
        call_ensures(board_search_input, (target,), r),
    ensures
        r.query@ == target.query@,
        opt_text(r.location) == opt_text(target.location),
        r.pages == target.pages,
        opt_text(r.date_filter) == opt_text(target.date_filter),
        opt_work_types(r.work_types) == opt_work_types(target.work_types),
        opt_text(r.country_code) == opt_text(target.country_code),
        r.amount == 100,
        r.provider_amount is None,
        r.job_type is None,
        r.experience_level is None,
        r.easy_apply is None,
        r.actively_hiring is None,
        r.verified is None,
        r.sort_by is None,
        r.companies@.len() == 0,
{
}

/// The boards of a list of companies each have the companies of their last entry.
pub proof fn last_entry_of_a_board_counts(v: Seq<BoardCompanies>, i: int)
    requires
        0 <= i < v.len(),
        forall|k: int| i < k < v.len() ==> (#[trigger] v[k]).board@ != v[i].board@,
    ensures
        companies_map(v).contains_key(v[i].board@),
        companies_map(v)[v[i].board@] == texts(v[i].slugs@),
    decreases v.len(),
{
    let rest = v.drop_last();
    if i < rest.len() {
        assert(rest[i] == v[i]);
        assert forall|k: int| i < k < rest.len() implies (#[trigger] rest[k]).board@
            != rest[i].board@ by {
            assert(rest[k] == v[k]);
        }
        last_entry_of_a_board_counts(rest, i);
        assert(v[v.len() - 1].board@ != v[i].board@);
    }
}

/// A company that the user watches on a selected board is searched on that board, by its name
/// without the white space round it.
pub proof fn watched_companies_are_searched_on_their_board(
    watched: &[(String, String)],
    boards: &[String],
    r: Vec<BoardCompanies>,
    b: int,
    i: int,
)
    requires
        call_ensures(resolve_watched_companies, (watched, boards), r),
        0 <= b < boards@.len(),
        0 <= i < watched@.len(),
        watched@[i].0@ == boards@[b]@,
        exists|k: int| 0 <= k < watched@[i].1@.len() && !white(#[trigger] watched@[i].1@[k]),
    ensures
        companies_map(r@).contains_key(boards@[b]@),
        companies_map(r@)[boards@[b]@].contains(trimmed(watched@[i].1@)),
{
    let w = watched_view(watched@);
    let t = texts(boards@);
    let k = choose|k: int| 0 <= k < watched@[i].1@.len() && !white(#[trigger] watched@[i].1@[k]);
    assert(w[i].slug == watched@[i].1@ && w[i].ats == watched@[i].0@);
    assert(!white(w[i].slug[k]));
    every_watched_company_is_searched(w, i);
    assert(t[b] == boards@[b]@);
    assert(t.contains(t[b]));
    watched_boards_are_selected(w, t);
}

/// Nothing is searched on a board but what the user watches on that very board.
pub proof fn nothing_else_is_searched_on_a_board(
    watched: &[(String, String)],
    boards: &[String],
    r: Vec<BoardCompanies>,
    board: Seq<char>,
    slug: Seq<char>,
)
    requires
        call_ensures(resolve_watched_companies, (watched, boards), r),
        companies_map(r@).contains_key(board),
        companies_map(r@)[board].contains(slug),
    ensures
        slug.len() > 0,
        exists|b: int| 0 <= b < boards@.len() && (#[trigger] boards@[b])@ == board,
        exists|i: int|
            0 <= i < watched@.len() && (#[trigger] watched@[i]).0@ == board && trimmed(
                watched@[i].1@,
            ) == slug,
{
    let w = watched_view(watched@);
    let t = texts(boards@);
    watched_boards_are_selected(w, t);
    watched_slugs_belong_to_board(w, board);
    assert(t.contains(board));
    let b = choose|b: int| 0 <= b < t.len() && t[b] == board;
    assert(boards@[b]@ == board);
    assert(slugs_on(w, board).contains(slug));
    let i = choose|i: int|
        0 <= i < w.len() && (#[trigger] w[i]).ats == board && trimmed(w[i].slug) == slug;
    assert(watched@[i].0@ == board);
}

/// Each board that failed, was skipped or returned only a part is named with what it says of that.
pub proof fn short_boards_are_collected(
    summaries: &[BoardScrapeSummary],
    r: Vec<BoardReason>,
    i: int,
)
    requires
        call_ensures(collect_reasons, (summaries,), r),
        0 <= i < summaries@.len(),
    ensures
        ({
            let s = summaries@[i];
            let short = s.error is Some || s.skipped is Some || s.truncated is Some;
            short ==> exists|k: int|
                0 <= k < r@.len() && (#[trigger] r@[k]).board@ == s.board@ && r@[k].reason@ == (
                if s.error is Some {
                    s.error->0@
                } else if s.skipped is Some {
                    s.skipped->0@
                } else {
                    s.truncated->0@
                })
        }),
        (forall|k: int|
            0 <= k < summaries@.len() ==> (#[trigger] summaries@[k]).error is None
                && summaries@[k].skipped is None && summaries@[k].truncated is None) ==> r@.len()
            == 0,
{
    let v = summaries_view(summaries@);
    let places = every_short_board_is_named(v);
    let named = reasons_view(r@);
    assert(named.len() == r@.len());
    let s = summaries@[i];
    assert(v[i] == s@);
    if s.error is Some || s.skipped is Some || s.truncated is Some {
        assert(v[i].error is Some || v[i].skipped is Some || v[i].truncated is Some);
        let k = choose|k: int| 0 <= k < places.len() && places[k] == i;
        assert(named[k] == r@[k]@);
        assert(r@[k].board@ == s.board@);
    }
    if r@.len() > 0 {
        let x = places[0];
        assert(places.contains(x));
        assert(v[x] == summaries@[x]@);
        assert(v[x].error is Some || v[x].skipped is Some || v[x].truncated is Some);
        assert(summaries@[x].error is Some || summaries@[x].skipped is Some
            || summaries@[x].truncated is Some);
    }
}

// ── Notes ───────────────────────────────────────────────────────────────────

/// Notes are written exactly where they are switched on and there is a résumé that says something.
pub proof fn notes_need_a_resume(assistant: bool, resume: Option<&str>, r: bool)
    requires
        call_ensures(notes_enabled, (assistant, resume), r),
    ensures
        r <==> assistant && resume is Some && exists|i: int|
            0 <= i < resume->0@.len() && !white(#[trigger] resume->0@[i]),
{
}

/// What is kept of an answer is its beginning without the white space round it, up to 800
/// characters; nothing where it is all white space.
pub proof fn kept_notes_are_short(answer: &str, r: Option<String>)
    requires
        call_ensures(keep_note, (answer,), r),
    ensures
        r is None <==> forall|i: int| 0 <= i < answer@.len() ==> white(#[trigger] answer@[i]),
        r matches Some(note) ==> note@.is_prefix_of(trimmed(answer@)) && note@.len() > 0 && (
        note@.len() == 800 || note@ == trimmed(answer@)),
{
    note_is_short_and_not_blank(answer@);
    note_is_the_beginning_of_the_answer(answer@);
    if let Some(note) = r {
        if note@.len() != 800 {
            assert(note@ =~= trimmed(answer@));
        }
    }
}

/// The writing of notes begins with the first job, with nothing looked at, paid or written.
pub proof fn notes_begin_with_the_first_job(keys: Vec<String>, prior: Vec<String>, r: NoteRun)
    requires
        call_ensures(NoteRun::new, (keys, prior), r),
    ensures
        r@.keys == texts(keys@),
        r@.prior == texts(prior@),
        r@.next == 0,
        r@.calls == 0,
        r@.generated == 0,
        r@.seen.len() == 0,
        r@.phase == NotePhase::Search,
{
}

/// The next job that is paid for is the first whose key is neither known nor was looked at.
pub proof fn next_fresh_job_is_paid_for(s: &mut NoteRun, r: NoteStep, j: int)
    requires
        call_ensures(NoteRun::search, (s, false), r),
        old(s)@.valid(),
        old(s)@.phase == NotePhase::Search,
        old(s)@.calls < 3,
        old(s)@.next <= j < old(s)@.keys.len(),
        !old(s)@.prior.contains(old(s)@.keys[j]),
        !old(s)@.seen.contains(old(s)@.keys[j]),
        forall|k: int|
            old(s)@.next <= k < j ==> old(s)@.prior.contains(#[trigger] old(s)@.keys[k])
                || old(s)@.seen.contains(old(s)@.keys[k]),
    ensures
        r == NoteStep::Charge,
        final(s)@.next == j + 1,
        final(s)@.calls == old(s)@.calls,
        final(s)@.phase == NotePhase::Charge,
{
    no_job_is_passed_over(old(s)@, j);
}

/// A charge that is accepted has the model asked about the job that was looked at last, and counts
/// as a call; one that is refused ends the run.
pub proof fn paid_jobs_are_asked_about(s: &mut NoteRun, accepted: bool, r: NoteStep)
    requires
        call_ensures(NoteRun::charged, (s, accepted), r),
        old(s)@.valid(),
        old(s)@.phase == NotePhase::Charge,
    ensures
        accepted ==> r == NoteStep::Ask((old(s)@.next - 1) as usize) && final(s)@.calls
            == old(s)@.calls + 1 && final(s)@.phase == NotePhase::Answer,
        !accepted ==> r == NoteStep::Done && final(s)@.calls == old(s)@.calls && final(s)@.phase
            == NotePhase::Over,
        final(s)@.next == old(s)@.next,
        final(s)@.generated == old(s)@.generated,
{
}

/// The answer of the model becomes the note of the job that it was asked about, and of no other.
pub proof fn answers_become_notes(
    s: &mut NoteRun,
    jobs: &mut Vec<FoundJob>,
    text: String,
    i: int,
)
    requires
        call_ensures(NoteRun::answered, (s, jobs, NoteAnswer::Text(text)), ()),
        old(s)@.valid(),
        old(s)@.phase == NotePhase::Answer,
        old(jobs)@.len() == old(s)@.keys.len(),
        0 <= i < old(jobs)@.len(),
    ensures
        final(jobs)@.len() == old(jobs)@.len(),
        !blank(text@) && i == old(s)@.next - 1 ==> opt_text(final(jobs)@[i].assistant_notes)
            == note_of(text@) && note_of(text@) is Some,
        blank(text@) || i != old(s)@.next - 1 ==> final(jobs)@[i]@ == old(jobs)@[i]@,
        final(jobs)@[i].url@ == old(jobs)@[i].url@,
        final(s)@.phase == NotePhase::Search,
        !blank(text@) ==> final(s)@.generated == old(s)@.generated + 1,
        blank(text@) ==> final(s)@.generated == old(s)@.generated,
{
    let v = jobs_view(old(jobs)@);
    let at = old(s)@.next - 1;
    note_goes_to_the_job_asked_about(v, at, text);
    answers_are_counted(old(s)@, text);
    note_is_short_and_not_blank(text@);
    crate::run::notes::note_changes_only_the_note(v, at, NoteAnswer::Text(text));
    let w = jobs_view(final(jobs)@);
    assert(w.len() == final(jobs)@.len());
    assert(w[i] == final(jobs)@[i]@ && v[i] == old(jobs)@[i]@);
    if blank(text@) {
        assert(w == v);
    }
}

/// What the model is told of a posting begins with its title and goes on with its company.
pub proof fn model_is_told_title_and_company(
    title: &str,
    company: &str,
    description: Option<&str>,
    r: String,
)
    requires
        call_ensures(note_job_text, (title, company, description), r),
        !blank(title@),
        !blank(company@),
    ensures
        description matches Some(d) ==> r@ == trimmed(title@) + " at "@ + trimmed(company@) + (
        "\n\n"@ + trimmed(d@)),
        description is None ==> r@ == trimmed(title@) + " at "@ + trimmed(company@) + ("\n\n"@
            + Seq::<char>::empty()),
{
    posting_is_told_title_first(
        title@,
        company@,
        match description {
            Some(d) => Some(d@),
            None => None,
        },
    );
}

/// A run is limited to watched companies exactly where its target asks for that, and then to those
/// that the user watches on the target's boards that list companies.
pub proof fn runs_are_limited_where_the_target_asks<F: Fn(&String) -> bool>(
    target: &AutopilotTarget,
    watched: &[(String, String)],
    lists: &F,
    r: Option<Vec<BoardCompanies>>,
    b: int,
    i: int,
)
    requires
        call_ensures(company_overrides::<F>, (target, watched, lists), r),
    ensures
        r is Some <==> target.watched_companies_only == Some(true),
        r is Some && 0 <= b < target.boards@.len() && (forall|said: bool|
            lists.ensures((&target.boards@[b],), said) ==> said) && 0 <= i < watched@.len()
            && watched@[i].0@ == target.boards@[b]@ && (exists|k: int|
            0 <= k < watched@[i].1@.len() && !white(#[trigger] watched@[i].1@[k])) ==> companies_map(
            r->0@,
        ).contains_key(target.boards@[b]@) && companies_map(r->0@)[target.boards@[b]@].contains(
            trimmed(watched@[i].1@),
        ),
{
    if r is Some && 0 <= b < target.boards@.len() && (forall|said: bool|
        lists.ensures((&target.boards@[b],), said) ==> said) && 0 <= i < watched@.len()
        && watched@[i].0@ == target.boards@[b]@ && (exists|k: int|
        0 <= k < watched@[i].1@.len() && !white(#[trigger] watched@[i].1@[k])) {
        let w = watched_view(watched@);
        let boards = texts(target.boards@);
        let flags = choose|flags: Seq<bool>| #[trigger]
            flags_by(*lists, target.boards@, flags) && companies_map(r->0@) == watched_by_board(
                w,
                flagged(boards, flags),
            );
        assert(lists.ensures((&target.boards@[b],), flags[b]));
        let k = choose|k: int|
            0 <= k < watched@[i].1@.len() && !white(#[trigger] watched@[i].1@[k]);
        assert(w[i].slug == watched@[i].1@ && w[i].ats == watched@[i].0@);
        assert(!white(w[i].slug[k]));
        assert(boards[b] == target.boards@[b]@);
        selected_boards_search_watched_companies(w, boards, flags, b, i);
    }
}

/// The message to the model is the résumé, a blank line, and the posting fenced as one with at
/// most 8000 characters.
pub proof fn model_is_sent_resume_and_posting<F: Fn(&str, &str, usize) -> String>(
    resume: &str,
    title: &str,
    company: &str,
    description: Option<&str>,
    fence: &F,
    r: String,
    text: String,
)
    requires
        call_ensures(note_user_msg::<F>, (resume, title, company, description, fence), r),
        call_ensures(note_job_text, (title, company, description), text),
    ensures
        exists|tag: &str, body: &str, fenced: String|
            tag@ == "job_posting"@ && body@ == text@ && r@ == resume@ + "\n\n"@ + fenced@
                && #[trigger] fence.ensures((tag, body, 8000usize), fenced),
{
}

/// The line on why a run came up short names each short board with its reason, cleaned.
pub proof fn diagnostics_name_short_boards<F: Fn(&str) -> String>(
    summaries: &[BoardScrapeSummary],
    sanitize: &F,
    r: String,
    clean: spec_fn(Seq<char>) -> Seq<char>,
    i: int,
)
    requires
        call_ensures(scrape_diagnostics::<F>, (summaries, sanitize), r),
        forall|text: &str, out: String|
            #[trigger] sanitize.ensures((text,), out) ==> out@ == clean(text@),
        0 <= i < summaries@.len(),
    ensures
        ({
            let s = summaries@[i];
            let short = s.error is Some || s.skipped is Some || s.truncated is Some;
            short ==> occurs(
                r@,
                s.board@ + ": "@ + clean(
                    if s.error is Some {
                        s.error->0@
                    } else if s.skipped is Some {
                        s.skipped->0@
                    } else {
                        s.truncated->0@
                    },
                ),
            )
        }),
        (forall|k: int|
            0 <= k < summaries@.len() ==> (#[trigger] summaries@[k]).error is None
                && summaries@[k].skipped is None && summaries@[k].truncated is None) ==> r@.len()
            == 0,
{
    let v = summaries_view(summaries@);
    let raw = short_boards(v);
    let places = every_short_board_is_named(v);
    let cleaned = choose|cleaned: Seq<ReasonView>| #[trigger]
        cleaned_by(*sanitize, raw, cleaned) && r@ == reasons_line(cleaned);
    let s = summaries@[i];
    assert(v[i] == s@);
    if s.error is Some || s.skipped is Some || s.truncated is Some {
        assert(v[i].error is Some || v[i].skipped is Some || v[i].truncated is Some);
        let k = choose|k: int| 0 <= k < places.len() && places[k] == i;
        line_holds_every_reason(cleaned, k);
        assert(cleaned[k].board == raw[k].board);
        assert(cleaned[k].reason == clean(raw[k].reason));
    }
    if raw.len() > 0 {
        let x = places[0];
        assert(places.contains(x));
        assert(v[x] == summaries@[x]@);
        assert(v[x].error is Some || v[x].skipped is Some || v[x].truncated is Some);
        assert(summaries@[x].error is Some || summaries@[x].skipped is Some
            || summaries@[x].truncated is Some);
    }
    line_is_empty_without_reasons(cleaned);
}

/// After a description was handed over the pass goes on, and counts it where it found its place.
pub proof fn pass_counts_what_found_its_place(s: &mut EnrichRun, kept: bool, r: EnrichStep)
    requires
        call_ensures(EnrichRun::written, (s, kept), r),
        old(s)@.valid(),
        old(s)@.phase == EnrichPhase::Keep,
    ensures
        final(s)@.at == old(s)@.at + 1,
        final(s)@.urls == old(s)@.urls,
        kept ==> final(s)@.enriched == old(s)@.enriched + 1,
        !kept ==> final(s)@.enriched == old(s)@.enriched,
        old(s)@.at + 1 < old(s)@.urls.len() ==> r@ == EnrichStepView::WaitForSlot,
        old(s)@.at + 1 == old(s)@.urls.len() ==> r@ == EnrichStepView::Done,
{
}

} // verus!
