//! What a run searches for.
use vstd::prelude::*;

use crate::autopilot::model::{clone_opt_work_types, opt_work_types, AutopilotTarget, WorkType};
use crate::text::{
    clone_opt_text, list_contains, opt_text, str_eq, texts, trim, trimmed, trimmed_empty_iff_blank,
    white,
};

verus! {

// ── The search ──────────────────────────────────────────────────────────────

/// What the boards are asked for.
#[derive(Debug, PartialEq, Eq)]
pub struct BoardSearchInput {
    pub query: String,
    pub location: Option<String>,
    /// The most postings that are kept.
    pub amount: usize,
    pub pages: u32,
    /// How many postings to buy from a paid provider.
    pub provider_amount: Option<usize>,
    pub date_filter: Option<String>,
    pub job_type: Option<String>,
    pub work_types: Option<Vec<WorkType>>,
    pub experience_level: Option<String>,
    pub easy_apply: Option<bool>,
    pub actively_hiring: Option<bool>,
    pub verified: Option<bool>,
    pub sort_by: Option<String>,
    pub country_code: Option<String>,
    pub companies: Vec<String>,
}

/// The search of a target. The pages of the target limit it, so the most postings that can be
/// asked for are, and none are bought.
pub fn board_search_input(target: &AutopilotTarget) -> (r: BoardSearchInput)
    ensures
        r.query@ == target@.query,
        opt_text(r.location) == target@.location,
        r.amount == 100,
        r.pages == target@.pages,
        r.provider_amount is None,
        opt_text(r.date_filter) == target@.date_filter,
        r.job_type is None,
        opt_work_types(r.work_types) == target@.work_types,
        r.experience_level is None,
        r.easy_apply is None,
        r.actively_hiring is None,
        r.verified is None,
        r.sort_by is None,
        opt_text(r.country_code) == target@.country_code,
        r.companies@.len() == 0,
{
    BoardSearchInput {
        query: target.query.clone(),
        location: clone_opt_text(&target.location),
        amount: 100,
        pages: target.pages,
        provider_amount: None,
        date_filter: clone_opt_text(&target.date_filter),
        job_type: None,
        work_types: clone_opt_work_types(&target.work_types),
        experience_level: None,
        easy_apply: None,
        actively_hiring: None,
        verified: None,
        sort_by: None,
        country_code: clone_opt_text(&target.country_code),
        companies: Vec::new(),
    }
}

// ── Watched companies ───────────────────────────────────────────────────────

/// A company that the user watches: the board that lists it and its name there.
pub struct WatchedView {
    pub ats: Seq<char>,
    pub slug: Seq<char>,
}

/// The watched companies of a list as values.
pub open spec fn watched_view(v: Seq<(String, String)>) -> Seq<WatchedView> {
    Seq::new(v.len(), |i: int| WatchedView { ats: v[i].0@, slug: v[i].1@ })
}

/// The companies of a board that the user watches, without the white space round their names,
/// each once, in the order in which they come first. A blank name is none.
pub open spec fn slugs_on(watched: Seq<WatchedView>, board: Seq<char>) -> Seq<Seq<char>>
    decreases watched.len(),
{
    if watched.len() == 0 {
        Seq::empty()
    } else {
        let done = slugs_on(watched.drop_last(), board);
        let slug = trimmed(watched.last().slug);
        if watched.last().ats == board && slug.len() > 0 && !done.contains(slug) {
            done.push(slug)
        } else {
            done
        }
    }
}

/// The companies to search on a board.
#[derive(Debug, PartialEq, Eq)]
pub struct BoardCompanies {
    pub board: String,
    pub slugs: Vec<String>,
}

/// The companies to search by board.
pub open spec fn companies_map(v: Seq<BoardCompanies>) -> Map<Seq<char>, Seq<Seq<char>>>
    decreases v.len(),
{
    if v.len() == 0 {
        Map::empty()
    } else {
        companies_map(v.drop_last()).insert(v.last().board@, texts(v.last().slugs@))
    }
}

/// The companies to search by board: every selected board on which the user watches a company,
/// with the companies that the user watches on that board. A board without any is not there.
pub open spec fn watched_by_board(watched: Seq<WatchedView>, boards: Seq<Seq<char>>) -> Map<
    Seq<char>,
    Seq<Seq<char>>,
>
    decreases boards.len(),
{
    if boards.len() == 0 {
        Map::empty()
    } else {
        let done = watched_by_board(watched, boards.drop_last());
        let slugs = slugs_on(watched, boards.last());
        if slugs.len() > 0 {
            done.insert(boards.last(), slugs)
        } else {
            done
        }
    }
}

fn watched_slugs(watched: &[(String, String)], board: &str) -> (r: Vec<String>)
    ensures
        texts(r@) == slugs_on(watched_view(watched@), board@),
{
    let ghost view = watched_view(watched@);
    let mut out: Vec<String> = Vec::new();
    let mut i: usize = 0;
    assert(view.take(0) =~= Seq::empty());
    assert(texts(out@) =~= Seq::empty());
    while i < watched.len()
        invariant
            i <= watched@.len(),
            view == watched_view(watched@),
            texts(out@) == slugs_on(view.take(i as int), board@),
        decreases watched@.len() - i,
    {
        let ghost before = texts(out@);
        proof {
            assert(view.take(i as int + 1).drop_last() =~= view.take(i as int));
            assert(view.take(i as int + 1).last() == view[i as int]);
        }
        if str_eq(watched[i].0.as_str(), board) {
            let slug: String = trim(watched[i].1.as_str());
            if !slug.as_str().is_empty() && !list_contains(&out, slug.as_str()) {
                let ghost s = slug@;
                out.push(slug);
                assert(texts(out@) =~= before.push(s));
            }
        }
        i = i + 1;
    }
    assert(view.take(view.len() as int) =~= view);
    out
}

/// The companies to search on the selected boards: on each only those that the user watches on
/// that very board.
pub fn resolve_watched_companies(
    watched: &[(String, String)],
    selected_company_boards: &[String],
) -> (r: Vec<BoardCompanies>)
    ensures
        companies_map(r@) == watched_by_board(
            watched_view(watched@),
            texts(selected_company_boards@),
        ),
{
    let ghost boards = texts(selected_company_boards@);
    let ghost view = watched_view(watched@);
    let mut out: Vec<BoardCompanies> = Vec::new();
    let mut i: usize = 0;
    assert(boards.take(0) =~= Seq::empty());
    while i < selected_company_boards.len()
        invariant
            i <= selected_company_boards@.len(),
            boards == texts(selected_company_boards@),
            view == watched_view(watched@),
            companies_map(out@) == watched_by_board(view, boards.take(i as int)),
        decreases selected_company_boards@.len() - i,
    {
        let ghost before = out@;
        proof {
            assert(boards.take(i as int + 1).drop_last() =~= boards.take(i as int));
            assert(boards.take(i as int + 1).last() == selected_company_boards@[i as int]@);
        }
        let slugs: Vec<String> = watched_slugs(watched, selected_company_boards[i].as_str());
        if slugs.len() > 0 {
            out.push(BoardCompanies { board: selected_company_boards[i].clone(), slugs });
            assert(out@.drop_last() =~= before);
        }
        i = i + 1;
    }
    assert(boards.take(boards.len() as int) =~= boards);
    out
}

/// The boards of a list for which the flag is set.
pub open spec fn flagged(boards: Seq<Seq<char>>, flags: Seq<bool>) -> Seq<Seq<char>>
    decreases boards.len(),
{
    if boards.len() == 0 {
        Seq::empty()
    } else {
        let done = flagged(boards.drop_last(), flags.drop_last());
        if flags.last() {
            done.push(boards.last())
        } else {
            done
        }
    }
}

/// Whether the flags are what `requires_company` said of the boards.
pub open spec fn flags_by<F: Fn(&String) -> bool>(
    requires_company: F,
    boards: Seq<String>,
    flags: Seq<bool>,
) -> bool {
    &&& flags.len() == boards.len()
    &&& forall|i: int|
        0 <= i < boards.len() ==> requires_company.ensures((&boards[i],), #[trigger] flags[i])
}

/// The companies that a run is limited to, by board: none where the target does not ask for
/// watched companies only. `requires_company` says whether a board lists companies.
pub fn company_overrides<F: Fn(&String) -> bool>(
    target: &AutopilotTarget,
    watched: &[(String, String)],
    requires_company: &F,
) -> (r: Option<Vec<BoardCompanies>>)
    requires
        forall|board: String| requires_company.requires((&board,)),
    ensures
        match r {
            None => target.watched_companies_only != Some(true),
            Some(v) => target.watched_companies_only == Some(true) && exists|flags: Seq<bool>|
                #[trigger]
                flags_by(*requires_company, target.boards@, flags) && companies_map(v@)
                    == watched_by_board(
                    watched_view(watched@),
                    flagged(texts(target.boards@), flags),
                ),
        },
{
    if !target.watched_companies_only.unwrap_or(false) {
        return None;
    }
    let ghost boards = texts(target.boards@);
    let ghost mut flags: Seq<bool> = Seq::empty();
    let mut selected: Vec<String> = Vec::new();
    let mut i: usize = 0;
    assert(boards.take(0) =~= Seq::empty());
    assert(texts(selected@) =~= Seq::empty());
    while i < target.boards.len()
        invariant
            i <= target.boards@.len(),
            boards == texts(target.boards@),
            forall|board: String| requires_company.requires((&board,)),
            flags.len() == i,
            forall|k: int|
                0 <= k < i ==> requires_company.ensures(
                    (&target.boards@[k],),
                    #[trigger] flags[k],
                ),
            texts(selected@) == flagged(boards.take(i as int), flags),
        decreases target.boards@.len() - i,
    {
        let wanted: bool = requires_company(&target.boards[i]);
        let ghost before = texts(selected@);
        proof {
            let longer = flags.push(wanted);
            assert(longer.drop_last() =~= flags);
            assert(boards.take(i as int + 1).drop_last() =~= boards.take(i as int));
            assert(boards.take(i as int + 1).last() == target.boards@[i as int]@);
            flags = longer;
        }
        if wanted {
            selected.push(target.boards[i].clone());
            assert(texts(selected@) =~= before.push(target.boards@[i as int]@));
        }
        i = i + 1;
    }
    assert(boards.take(boards.len() as int) =~= boards);
    assert(flags_by(*requires_company, target.boards@, flags));
    Some(resolve_watched_companies(watched, selected.as_slice()))
}

// ── Laws ────────────────────────────────────────────────────────────────────

/// A board is searched exactly where it is selected and the user watches a company on it, and
/// then for the companies that the user watches on it.
pub proof fn watched_boards_are_selected(watched: Seq<WatchedView>, boards: Seq<Seq<char>>)
    ensures
        forall|board: Seq<char>| #[trigger]
            watched_by_board(watched, boards).contains_key(board) <==> boards.contains(board)
                && slugs_on(watched, board).len() > 0,
        forall|board: Seq<char>| #[trigger]
            watched_by_board(watched, boards).contains_key(board) ==> watched_by_board(
                watched,
                boards,
            )[board] == slugs_on(watched, board),
    decreases boards.len(),
{
    if boards.len() > 0 {
        let rest = boards.drop_last();
        let all = watched_by_board(watched, boards);
        let done = watched_by_board(watched, rest);
        watched_boards_are_selected(watched, rest);
        assert forall|board: Seq<char>| #[trigger]
            all.contains_key(board) <==> boards.contains(board) && slugs_on(watched, board).len()
                > 0 by {
            assert(done.contains_key(board) <==> rest.contains(board) && slugs_on(
                watched,
                board,
            ).len() > 0);
            if rest.contains(board) {
                let k = choose|k: int| 0 <= k < rest.len() && rest[k] == board;
                assert(boards[k] == board);
            }
            if board == boards.last() {
                assert(boards[boards.len() - 1] == board);
            }
            if boards.contains(board) && board != boards.last() {
                let k = choose|k: int| 0 <= k < boards.len() && boards[k] == board;
                assert(rest[k] == board);
            }
        }
        assert forall|board: Seq<char>| #[trigger] all.contains_key(board) implies all[board]
            == slugs_on(watched, board) by {
            if board != boards.last() {
                assert(done.contains_key(board));
            } else if slugs_on(watched, board).len() == 0 {
                assert(done.contains_key(board));
            }
        }
    }
}

/// The companies of a board are distinct, none is blank, and each is one that the user watches on
/// that board and not on another.
pub proof fn watched_slugs_belong_to_board(watched: Seq<WatchedView>, board: Seq<char>)
    ensures
        slugs_on(watched, board).no_duplicates(),
        forall|slug: Seq<char>| #[trigger]
            slugs_on(watched, board).contains(slug) ==> slug.len() > 0 && exists|i: int|
                0 <= i < watched.len() && (#[trigger] watched[i]).ats == board && trimmed(
                    watched[i].slug,
                ) == slug,
    decreases watched.len(),
{
    if watched.len() > 0 {
        let rest = watched.drop_last();
        let done = slugs_on(rest, board);
        let all = slugs_on(watched, board);
        watched_slugs_belong_to_board(rest, board);
        assert forall|slug: Seq<char>| #[trigger] all.contains(slug) implies slug.len() > 0
            && exists|i: int|
            0 <= i < watched.len() && (#[trigger] watched[i]).ats == board && trimmed(
                watched[i].slug,
            ) == slug by {
            if done.contains(slug) {
                let i = choose|i: int|
                    0 <= i < rest.len() && (#[trigger] rest[i]).ats == board && trimmed(
                        rest[i].slug,
                    ) == slug;
                assert(watched[i].ats == board);
            } else {
                let k = choose|k: int| 0 <= k < all.len() && all[k] == slug;
                if k < done.len() {
                    assert(done[k] == slug);
                }
                assert(watched[watched.len() - 1].ats == board);
            }
        }
    }
}

/// Every company that the user watches on a board is searched there, unless its name is blank.
pub proof fn every_watched_company_is_searched(watched: Seq<WatchedView>, i: int)
    requires
        0 <= i < watched.len(),
        exists|k: int| 0 <= k < watched[i].slug.len() && !white(#[trigger] watched[i].slug[k]),
    ensures
        slugs_on(watched, watched[i].ats).contains(trimmed(watched[i].slug)),
{
    trimmed_empty_iff_blank(watched[i].slug);
    lemma_slug_is_there(watched, i);
}

proof fn lemma_slug_is_there(watched: Seq<WatchedView>, i: int)
    requires
        0 <= i < watched.len(),
        trimmed(watched[i].slug).len() > 0,
    ensures
        slugs_on(watched, watched[i].ats).contains(trimmed(watched[i].slug)),
    decreases watched.len(),
{
    let board = watched[i].ats;
    let slug = trimmed(watched[i].slug);
    let rest = watched.drop_last();
    let done = slugs_on(rest, board);
    let all = slugs_on(watched, board);
    if i < rest.len() {
        assert(rest[i] == watched[i]);
        lemma_slug_is_there(rest, i);
    }
    if done.contains(slug) {
        let k = choose|k: int| 0 <= k < done.len() && done[k] == slug;
        assert(all[k] == slug);
    } else {
        assert(all[done.len() as int] == slug);
    }
}

/// The companies of a board come in the order in which the user watches them.
pub proof fn watched_companies_keep_their_order(
    watched: Seq<WatchedView>,
    board: Seq<char>,
    a: int,
    b: int,
)
    requires
        0 <= a < b < slugs_on(watched, board).len(),
    ensures
        exists|x: int, y: int|
            #![trigger watched[x], watched[y]]
            0 <= x < y < watched.len() && watched[x].ats == board && watched[y].ats == board
                && trimmed(watched[x].slug) == slugs_on(watched, board)[a] && trimmed(
                watched[y].slug,
            ) == slugs_on(watched, board)[b],
    decreases watched.len(),
{
    let rest = watched.drop_last();
    let done = slugs_on(rest, board);
    let n = watched.len() - 1;
    if b < done.len() {
        watched_companies_keep_their_order(rest, board, a, b);
        let (x, y) = choose|x: int, y: int|
            #![trigger rest[x], rest[y]]
            0 <= x < y < rest.len() && rest[x].ats == board && rest[y].ats == board && trimmed(
                rest[x].slug,
            ) == done[a] && trimmed(rest[y].slug) == done[b];
        assert(watched[x] == rest[x] && watched[y] == rest[y]);
    } else {
        watched_slugs_belong_to_board(rest, board);
        assert(done.contains(done[a]));
        let x = choose|x: int|
            0 <= x < rest.len() && (#[trigger] rest[x]).ats == board && trimmed(rest[x].slug)
                == done[a];
        assert(watched[x] == rest[x]);
        assert(watched[n].ats == board && trimmed(watched[n].slug) == slugs_on(
            watched,
            board,
        )[b]);
    }
}

/// The boards that are picked are exactly those whose flag is set, in their order. `r` is where
/// they stand.
pub proof fn flagged_boards_are_picked(boards: Seq<Seq<char>>, flags: Seq<bool>) -> (r: Seq<int>)
    requires
        boards.len() == flags.len(),
    ensures
        r.len() == flagged(boards, flags).len(),
        forall|k: int|
            0 <= k < r.len() ==> 0 <= #[trigger] r[k] < boards.len() && flags[r[k]] && flagged(
                boards,
                flags,
            )[k] == boards[r[k]],
        forall|j: int, k: int| 0 <= j < k < r.len() ==> #[trigger] r[j] < #[trigger] r[k],
        forall|i: int| 0 <= i < boards.len() && #[trigger] flags[i] ==> r.contains(i),
    decreases boards.len(),
{
    if boards.len() == 0 {
        Seq::empty()
    } else {
        let n = boards.len() - 1;
        let rest = boards.drop_last();
        let rest_flags = flags.drop_last();
        let before = flagged_boards_are_picked(rest, rest_flags);
        let r = if flags[n] {
            before.push(n)
        } else {
            before
        };
        assert forall|k: int| 0 <= k < r.len() implies 0 <= #[trigger] r[k] < boards.len()
            && flags[r[k]] && flagged(boards, flags)[k] == boards[r[k]] by {
            if k < before.len() {
                assert(r[k] == before[k]);
                assert(rest_flags[before[k]]);
                assert(flagged(rest, rest_flags)[k] == rest[before[k]]);
            }
        }
        assert forall|j: int, k: int| 0 <= j < k < r.len() implies #[trigger] r[j]
            < #[trigger] r[k] by {
            assert(r[j] == before[j]);
            if k < before.len() {
                assert(r[k] == before[k]);
            }
        }
        assert forall|i: int| 0 <= i < boards.len() && #[trigger] flags[i] implies r.contains(
            i,
        ) by {
            if i < n {
                assert(rest_flags[i]);
                let k = choose|k: int| 0 <= k < before.len() && before[k] == i;
                assert(r[k] == i);
            } else {
                assert(r[before.len() as int] == n);
            }
        }
        r
    }
}

/// A run that is limited to watched companies searches, on every selected board that lists
/// companies, each company that the user watches there.
pub proof fn selected_boards_search_watched_companies(
    watched: Seq<WatchedView>,
    boards: Seq<Seq<char>>,
    flags: Seq<bool>,
    b: int,
    i: int,
)
    requires
        boards.len() == flags.len(),
        0 <= b < boards.len(),
        flags[b],
        0 <= i < watched.len(),
        watched[i].ats == boards[b],
        exists|k: int| 0 <= k < watched[i].slug.len() && !white(#[trigger] watched[i].slug[k]),
    ensures
        watched_by_board(watched, flagged(boards, flags)).contains_key(boards[b]),
        watched_by_board(watched, flagged(boards, flags))[boards[b]].contains(
            trimmed(watched[i].slug),
        ),
{
    let picked = flagged(boards, flags);
    let r = flagged_boards_are_picked(boards, flags);
    let k = choose|k: int| 0 <= k < r.len() && r[k] == b;
    assert(picked[k] == boards[r[k]]);
    assert(picked.contains(boards[b]));
    every_watched_company_is_searched(watched, i);
    watched_boards_are_selected(watched, picked);
}

} // verus!
