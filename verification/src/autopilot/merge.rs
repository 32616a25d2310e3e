//! Merging the postings of a run into what an autopilot has found before.
//!
//! Two postings are the same job where their merge keys are equal. The keys come from the
//! caller, which knows what identifies a job.
use vstd::prelude::*;
use vstd::utf8::encode_utf8;

use crate::autopilot::model::{
    clone_members, clone_opt_trust, jobs_view, opt_trust, FoundJob, FoundJobView, TrustAssessment,
};
use crate::json::{clone_opt_real, opt_real, Real};
use crate::text::{
    blank, clone_opt_text, is_blank, list_contains, opt_text, str_eq, texts, white,
};

verus! {

// ── One batch ───────────────────────────────────────────────────────────────

/// A job with its merge key.
pub struct KeyedJob {
    pub key: Seq<char>,
    pub job: FoundJobView,
}

/// How many bytes a description has, none where there is no description.
pub open spec fn description_bytes(job: FoundJobView) -> nat {
    match job.description {
        Some(d) => encode_utf8(d).len(),
        None => 0,
    }
}

/// Whether a description is missing or holds nothing but white space.
pub open spec fn description_blank(d: Option<Seq<char>>) -> bool {
    match d {
        Some(d) => blank(d),
        None => true,
    }
}

/// The position of a key among keyed jobs.
pub open spec fn key_at(list: Seq<KeyedJob>, key: Seq<char>) -> Option<int>
    decreases list.len(),
{
    if list.len() == 0 {
        None
    } else if list.last().key == key {
        Some(list.len() - 1)
    } else {
        key_at(list.drop_last(), key)
    }
}

/// A batch with one job for each key, in the order in which the keys first come. Of the jobs of
/// a key the first stays; a later one gives it its description where that is longer.
pub open spec fn collapsed(jobs: Seq<FoundJobView>, keys: Seq<Seq<char>>) -> Seq<KeyedJob>
    decreases jobs.len(),
{
    if jobs.len() == 0 {
        Seq::empty()
    } else {
        let done = collapsed(jobs.drop_last(), keys.drop_last());
        let job = jobs.last();
        match key_at(done, keys.last()) {
            None => done.push(KeyedJob { key: keys.last(), job }),
            Some(i) => if description_bytes(job) > description_bytes(done[i].job) {
                done.update(
                    i,
                    KeyedJob {
                        key: keys.last(),
                        job: FoundJobView { description: job.description, ..done[i].job },
                    },
                )
            } else {
                done
            },
        }
    }
}

/// Whether no two jobs of the list share a key.
pub open spec fn keys_distinct(list: Seq<KeyedJob>) -> bool {
    forall|i: int, j: int|
        0 <= i < j < list.len() ==> (#[trigger] list[i]).key != (#[trigger] list[j]).key
}

/// Whether a job of the list has this key.
pub open spec fn has_key(list: Seq<KeyedJob>, key: Seq<char>) -> bool {
    exists|i: int| 0 <= i < list.len() && (#[trigger] list[i]).key == key
}

proof fn lemma_key_at(list: Seq<KeyedJob>, key: Seq<char>)
    ensures
        match key_at(list, key) {
            Some(i) => 0 <= i < list.len() && list[i].key == key,
            None => forall|i: int| 0 <= i < list.len() ==> (#[trigger] list[i]).key != key,
        },
        key_at(list, key) is Some <==> has_key(list, key),
    decreases list.len(),
{
    if list.len() > 0 && list.last().key != key {
        let rest = list.drop_last();
        lemma_key_at(rest, key);
        if key_at(rest, key) is None {
            assert forall|i: int| 0 <= i < list.len() implies (#[trigger] list[i]).key != key by {
                if i < rest.len() {
                    assert(rest[i] == list[i]);
                }
            }
        } else {
            let i = key_at(rest, key)->0;
            assert(list[i].key == key);
        }
    } else if list.len() > 0 {
        assert(list[list.len() - 1].key == key);
    }
}

proof fn lemma_key_at_unique(list: Seq<KeyedJob>, key: Seq<char>, i: int)
    requires
        keys_distinct(list),
        0 <= i < list.len(),
        list[i].key == key,
    ensures
        key_at(list, key) == Some(i),
{
    lemma_key_at(list, key);
    assert(list[i].key == key);
    let j = key_at(list, key)->0;
    if i < j {
        assert(list[i].key != list[j].key);
    } else if j < i {
        assert(list[j].key != list[i].key);
    }
}

/// A collapsed batch has every key of the batch once and no others.
pub proof fn collapsed_has_each_key_once(jobs: Seq<FoundJobView>, keys: Seq<Seq<char>>)
    requires
        jobs.len() == keys.len(),
    ensures
        keys_distinct(collapsed(jobs, keys)),
        collapsed(jobs, keys).len() <= jobs.len(),
        forall|key: Seq<char>| #[trigger]
            has_key(collapsed(jobs, keys), key) <==> keys.contains(key),
    decreases jobs.len(),
{
    if jobs.len() > 0 {
        let rest = jobs.drop_last();
        let rest_keys = keys.drop_last();
        let done = collapsed(rest, rest_keys);
        let all = collapsed(jobs, keys);
        collapsed_has_each_key_once(rest, rest_keys);
        lemma_key_at(done, keys.last());
        assert forall|key: Seq<char>| #[trigger] has_key(all, key) <==> keys.contains(key) by {
            assert(has_key(done, key) <==> rest_keys.contains(key));
            if has_key(done, key) {
                let i = choose|i: int| 0 <= i < done.len() && (#[trigger] done[i]).key == key;
                assert(all[i].key == key);
                let k = choose|k: int| 0 <= k < rest_keys.len() && rest_keys[k] == key;
                assert(keys[k] == key);
            }
            if key == keys.last() {
                assert(keys[keys.len() - 1] == key);
                if key_at(done, key) is None {
                    assert(all[done.len() as int].key == key);
                }
            }
            if has_key(all, key) && key != keys.last() {
                let i = choose|i: int| 0 <= i < all.len() && (#[trigger] all[i]).key == key;
                assert(done[i].key == key);
            }
            if keys.contains(key) && key != keys.last() {
                let k = choose|k: int| 0 <= k < keys.len() && keys[k] == key;
                assert(rest_keys[k] == key);
            }
        }
    } else {
        assert forall|key: Seq<char>| #[trigger]
            has_key(collapsed(jobs, keys), key) <==> keys.contains(key) by {
            assert(keys.len() == 0);
        }
    }
}

/// The keyed jobs of two parallel lists.
pub open spec fn keyed(keys: Seq<String>, jobs: Seq<FoundJob>) -> Seq<KeyedJob> {
    Seq::new(keys.len(), |i: int| KeyedJob { key: keys[i]@, job: jobs[i]@ })
}

/// How many bytes a job's description has.
pub fn description_len(job: &FoundJob) -> (r: usize)
    ensures
        r == description_bytes(job@),
{
    match &job.description {
        Some(d) => d.as_str().as_bytes().len(),
        None => 0,
    }
}

fn position(keys: &Vec<String>, jobs: &Vec<FoundJob>, key: &str) -> (r: Option<usize>)
    requires
        keys@.len() == jobs@.len(),
    ensures
        match r {
            Some(i) => key_at(keyed(keys@, jobs@), key@) == Some(i as int) && i < keys@.len(),
            None => key_at(keyed(keys@, jobs@), key@) is None,
        },
{
    let ghost list = keyed(keys@, jobs@);
    let mut i: usize = keys.len();
    assert(list.take(list.len() as int) =~= list);
    while i > 0
        invariant
            i <= keys@.len(),
            keys@.len() == jobs@.len(),
            list == keyed(keys@, jobs@),
            key_at(list, key@) == key_at(list.take(i as int), key@),
        decreases i,
    {
        assert(list.take(i as int).drop_last() =~= list.take(i as int - 1));
        if str_eq(keys[i - 1].as_str(), key) {
            return Some(i - 1);
        }
        i = i - 1;
    }
    None
}

/// Collapses a batch: the keys and the jobs of what is left.
pub fn collapse_batch(jobs: &Vec<FoundJob>, keys: &Vec<String>) -> (r: (Vec<String>, Vec<FoundJob>))
    requires
        jobs@.len() == keys@.len(),
    ensures
        r.0@.len() == r.1@.len(),
        keyed(r.0@, r.1@) == collapsed(jobs_view(jobs@), texts(keys@)),
{
    let ghost jv = jobs_view(jobs@);
    let ghost kv = texts(keys@);
    let mut out_keys: Vec<String> = Vec::new();
    let mut out: Vec<FoundJob> = Vec::new();
    let mut i: usize = 0;
    assert(jv.take(0) =~= Seq::empty());
    assert(keyed(out_keys@, out@) =~= Seq::empty());
    while i < jobs.len()
        invariant
            i <= jobs@.len(),
            jobs@.len() == keys@.len(),
            jv == jobs_view(jobs@),
            kv == texts(keys@),
            out_keys@.len() == out@.len(),
            keyed(out_keys@, out@) == collapsed(jv.take(i as int), kv.take(i as int)),
        decreases jobs@.len() - i,
    {
        let ghost done = keyed(out_keys@, out@);
        proof {
            assert(jv.take(i as int + 1).drop_last() =~= jv.take(i as int));
            assert(kv.take(i as int + 1).drop_last() =~= kv.take(i as int));
            assert(jv.take(i as int + 1).last() == jobs@[i as int]@);
            assert(kv.take(i as int + 1).last() == keys@[i as int]@);
            lemma_key_at(done, keys@[i as int]@);
        }
        match position(&out_keys, &out, keys[i].as_str()) {
            Some(at) => {
                if description_len(&jobs[i]) > description_len(&out[at]) {
                    out[at].description = clone_opt_text(&jobs[i].description);
                    assert(keyed(out_keys@, out@) =~= done.update(
                        at as int,
                        KeyedJob {
                            key: keys@[i as int]@,
                            job: FoundJobView {
                                description: jobs@[i as int]@.description,
                                ..done[at as int].job
                            },
                        },
                    ));
                }
            },
            None => {
                out_keys.push(keys[i].clone());
                out.push(jobs[i].clone());
                assert(keyed(out_keys@, out@) =~= done.push(
                    KeyedJob { key: keys@[i as int]@, job: jobs@[i as int]@ },
                ));
            },
        }
        i = i + 1;
    }
    assert(jv.take(jv.len() as int) =~= jv);
    assert(kv.take(kv.len() as int) =~= kv);
    (out_keys, out)
}

/// Every row of a collapsed batch is the first job of its key but for the description, and no
/// job of that key has a longer description.
pub proof fn collapsed_keeps_first_with_longest_description(
    jobs: Seq<FoundJobView>,
    keys: Seq<Seq<char>>,
    row: int,
)
    requires
        jobs.len() == keys.len(),
        0 <= row < collapsed(jobs, keys).len(),
    ensures
        exists|first: int|
            0 <= first < jobs.len() && #[trigger] keys[first] == collapsed(jobs, keys)[row].key && (
            forall|k: int| 0 <= k < first ==> #[trigger] keys[k] != keys[first])
                && collapsed(jobs, keys)[row].job == (FoundJobView {
                description: collapsed(jobs, keys)[row].job.description,
                ..jobs[first]
            }),
        forall|k: int|
            0 <= k < jobs.len() && #[trigger] keys[k] == collapsed(jobs, keys)[row].key
                ==> description_bytes(jobs[k]) <= description_bytes(
                collapsed(jobs, keys)[row].job,
            ),
    decreases jobs.len(),
{
    let rest = jobs.drop_last();
    let rest_keys = keys.drop_last();
    let done = collapsed(rest, rest_keys);
    let all = collapsed(jobs, keys);
    let n = jobs.len() - 1;
    collapsed_has_each_key_once(rest, rest_keys);
    collapsed_has_each_key_once(jobs, keys);
    lemma_key_at(done, keys.last());
    if row < done.len() {
        collapsed_keeps_first_with_longest_description(rest, rest_keys, row);
        let first = choose|first: int|
            0 <= first < rest.len() && #[trigger] rest_keys[first] == done[row].key && (forall|
                k: int,
            |
                0 <= k < first ==> #[trigger] rest_keys[k] != rest_keys[first]) && done[row].job
                == (FoundJobView { description: done[row].job.description, ..rest[first] });
        assert(keys[first] == all[row].key);
        assert forall|k: int| 0 <= k < first implies #[trigger] keys[k] != keys[first] by {
            assert(rest_keys[k] != rest_keys[first]);
        }
        assert(all[row].job =~= (FoundJobView {
            description: all[row].job.description,
            ..jobs[first]
        }));
        assert forall|k: int|
            0 <= k < jobs.len() && #[trigger] keys[k] == all[row].key implies description_bytes(
            jobs[k],
        ) <= description_bytes(all[row].job) by {
            if k < n {
                assert(rest_keys[k] == done[row].key);
            } else {
                lemma_key_at_unique(done, keys.last(), row);
            }
        }
    } else {
        assert(keys[n] == all[row].key);
        assert forall|k: int| 0 <= k < n implies #[trigger] keys[k] != keys[n] by {
            if keys[k] == keys[n] {
                assert(rest_keys[k] == keys[n]);
                assert(has_key(done, keys[n]));
            }
        }
        assert(all[row].job =~= (FoundJobView { description: all[row].job.description, ..jobs[n] }));
    }
}

// ── Against what was found before ───────────────────────────────────────────

/// The new value where there is one, the old one otherwise.
pub open spec fn newer<T>(new: Option<T>, old: Option<T>) -> Option<T> {
    if new is Some {
        new
    } else {
        old
    }
}

/// A known job as it stands after a run. It is no longer new. Where the run found it again, what
/// the run knows replaces what was known, what it does not know stays, and a score comes with
/// its provenance.
pub open spec fn refreshed(row: FoundJobView, again: Option<FoundJobView>) -> FoundJobView {
    match again {
        None => FoundJobView { is_new: false, ..row },
        Some(inc) => FoundJobView {
            is_new: false,
            title: inc.title,
            company: inc.company,
            location: newer(inc.location, row.location),
            board: newer(inc.board, row.board),
            description: if description_blank(inc.description) {
                row.description
            } else {
                inc.description
            },
            posted_at: newer(inc.posted_at, row.posted_at),
            score: newer(inc.score, row.score),
            score_provisional: if inc.score is Some {
                inc.score_provisional
            } else {
                row.score_provisional
            },
            score_source: if inc.score is Some {
                inc.score_source
            } else {
                row.score_source
            },
            salary_min: newer(inc.salary_min, row.salary_min),
            salary_max: newer(inc.salary_max, row.salary_max),
            salary_currency: newer(inc.salary_currency, row.salary_currency),
            trust: newer(inc.trust, row.trust),
            ..row
        },
    }
}

/// The job of a key.
pub open spec fn job_at(list: Seq<KeyedJob>, key: Seq<char>) -> Option<FoundJobView> {
    match key_at(list, key) {
        Some(i) => Some(list[i].job),
        None => None,
    }
}

/// The jobs of a batch whose key is not among the known ones, marked as new, in their order.
pub open spec fn new_rows(batch: Seq<KeyedJob>, known: Seq<Seq<char>>) -> Seq<KeyedJob>
    decreases batch.len(),
{
    if batch.len() == 0 {
        Seq::empty()
    } else {
        let done = new_rows(batch.drop_last(), known);
        if known.contains(batch.last().key) {
            done
        } else {
            done.push(
                KeyedJob {
                    key: batch.last().key,
                    job: FoundJobView { is_new: true, applied: false, ..batch.last().job },
                },
            )
        }
    }
}

/// The jobs of a keyed list.
pub open spec fn unkeyed(list: Seq<KeyedJob>) -> Seq<FoundJobView> {
    Seq::new(list.len(), |i: int| list[i].job)
}

/// The known jobs after a run that found the batch.
pub open spec fn refreshed_rows(
    existing: Seq<FoundJobView>,
    known: Seq<Seq<char>>,
    batch: Seq<KeyedJob>,
) -> Seq<FoundJobView> {
    Seq::new(existing.len(), |i: int| refreshed(existing[i], job_at(batch, known[i])))
}

/// What an autopilot has found after a run: the new jobs on top, then the known ones, refreshed.
pub open spec fn merged(
    existing: Seq<FoundJobView>,
    known: Seq<Seq<char>>,
    jobs: Seq<FoundJobView>,
    keys: Seq<Seq<char>>,
) -> Seq<FoundJobView> {
    let batch = collapsed(jobs, keys);
    unkeyed(new_rows(batch, known)) + refreshed_rows(existing, known, batch)
}

fn description_is_blank(d: &Option<String>) -> (r: bool)
    ensures
        r == description_blank(opt_text(*d)),
{
    match d {
        Some(d) => is_blank(d.as_str()),
        None => true,
    }
}

fn newer_text(new: &Option<String>, old: &Option<String>) -> (r: Option<String>)
    ensures
        opt_text(r) == newer(opt_text(*new), opt_text(*old)),
{
    clone_opt_text(if new.is_some() { new } else { old })
}

fn newer_real(new: &Option<Real>, old: &Option<Real>) -> (r: Option<Real>)
    ensures
        opt_real(r) == newer(opt_real(*new), opt_real(*old)),
{
    clone_opt_real(if new.is_some() { new } else { old })
}

fn newer_trust(new: &Option<TrustAssessment>, old: &Option<TrustAssessment>) -> (r: Option<
    TrustAssessment,
>)
    ensures
        opt_trust(r) == newer(opt_trust(*new), opt_trust(*old)),
{
    clone_opt_trust(if new.is_some() { new } else { old })
}

fn refresh(row: &FoundJob, inc: &FoundJob) -> (r: FoundJob)
    ensures
        r@ == refreshed(row@, Some(inc@)),
{
    let scored: bool = inc.score.is_some();
    FoundJob {
        is_new: false,
        title: inc.title.clone(),
        company: inc.company.clone(),
        url: row.url.clone(),
        location: newer_text(&inc.location, &row.location),
        board: newer_text(&inc.board, &row.board),
        description: clone_opt_text(
            if description_is_blank(&inc.description) {
                &row.description
            } else {
                &inc.description
            },
        ),
        posted_at: if inc.posted_at.is_some() {
            inc.posted_at
        } else {
            row.posted_at
        },
        score: newer_real(&inc.score, &row.score),
        score_provisional: if scored {
            inc.score_provisional
        } else {
            row.score_provisional
        },
        score_source: if scored {
            inc.score_source
        } else {
            row.score_source
        },
        salary_min: newer_real(&inc.salary_min, &row.salary_min),
        salary_max: newer_real(&inc.salary_max, &row.salary_max),
        salary_currency: newer_text(&inc.salary_currency, &row.salary_currency),
        trust: newer_trust(&inc.trust, &row.trust),
        found_at: row.found_at,
        applied: row.applied,
        assistant_notes: clone_opt_text(&row.assistant_notes),
        cluster_id: clone_opt_text(&row.cluster_id),
        cluster_canonical: row.cluster_canonical,
        cluster_members: clone_members(&row.cluster_members),
        is_agency: row.is_agency,
    }
}

/// Merges the jobs of a run into those found before. The lists of keys run in parallel to the
/// lists of jobs.
pub fn merge_keyed_jobs(
    existing: &Vec<FoundJob>,
    known: &Vec<String>,
    jobs: &Vec<FoundJob>,
    keys: &Vec<String>,
) -> (r: Vec<FoundJob>)
    requires
        existing@.len() == known@.len(),
        jobs@.len() == keys@.len(),
    ensures
        jobs_view(r@) == merged(
            jobs_view(existing@),
            texts(known@),
            jobs_view(jobs@),
            texts(keys@),
        ),
{
    let (batch_keys, batch) = collapse_batch(jobs, keys);
    let ghost bv = keyed(batch_keys@, batch@);
    let ghost kv = texts(known@);
    let mut out: Vec<FoundJob> = Vec::new();
    let mut i: usize = 0;
    assert(bv.take(0) =~= Seq::empty());
    assert(jobs_view(out@) =~= unkeyed(new_rows(bv.take(0), kv)));
    while i < batch.len()
        invariant
            i <= batch@.len(),
            batch@.len() == batch_keys@.len(),
            bv == keyed(batch_keys@, batch@),
            kv == texts(known@),
            jobs_view(out@) == unkeyed(new_rows(bv.take(i as int), kv)),
        decreases batch@.len() - i,
    {
        let ghost before = jobs_view(out@);
        let ghost done = new_rows(bv.take(i as int), kv);
        proof {
            assert(bv.take(i as int + 1).drop_last() =~= bv.take(i as int));
            assert(bv.take(i as int + 1).last() == bv[i as int]);
        }
        if !list_contains(known, batch_keys[i].as_str()) {
            let mut row: FoundJob = batch[i].clone();
            row.is_new = true;
            row.applied = false;
            let ghost rv = row@;
            out.push(row);
            proof {
                assert(rv =~= (FoundJobView { is_new: true, applied: false, ..bv[i as int].job }));
                assert(jobs_view(out@) =~= before.push(rv));
                assert(unkeyed(new_rows(bv.take(i as int + 1), kv)) =~= unkeyed(done).push(rv));
            }
        }
        i = i + 1;
    }
    assert(bv.take(bv.len() as int) =~= bv);
    let ghost top = unkeyed(new_rows(bv, kv));
    let ghost ev = jobs_view(existing@);
    let mut j: usize = 0;
    assert(jobs_view(out@) =~= top + refreshed_rows(ev, kv, bv).take(0));
    while j < existing.len()
        invariant
            j <= existing@.len(),
            existing@.len() == known@.len(),
            batch@.len() == batch_keys@.len(),
            bv == keyed(batch_keys@, batch@),
            kv == texts(known@),
            ev == jobs_view(existing@),
            jobs_view(out@) == top + refreshed_rows(ev, kv, bv).take(j as int),
        decreases existing@.len() - j,
    {
        let ghost before = jobs_view(out@);
        let row: FoundJob = match position(&batch_keys, &batch, known[j].as_str()) {
            Some(at) => refresh(&existing[j], &batch[at]),
            None => {
                let mut row: FoundJob = existing[j].clone();
                row.is_new = false;
                row
            },
        };
        let ghost rv = row@;
        out.push(row);
        proof {
            assert(rv =~= refreshed_rows(ev, kv, bv)[j as int]);
            assert(jobs_view(out@) =~= before.push(rv));
            assert(refreshed_rows(ev, kv, bv).take(j as int + 1) =~= refreshed_rows(
                ev,
                kv,
                bv,
            ).take(j as int).push(rv));
            assert(jobs_view(out@) =~= top + refreshed_rows(ev, kv, bv).take(j as int + 1));
        }
        j = j + 1;
    }
    assert(refreshed_rows(ev, kv, bv).take(ev.len() as int) =~= refreshed_rows(ev, kv, bv));
    out
}

// ── Keys from a function ────────────────────────────────────────────────────

/// Whether `identify` makes this key of a job's address, title and company.
pub open spec fn identified_as<F: Fn(&str, &str, &str) -> String>(
    identify: F,
    job: FoundJobView,
    key: Seq<char>,
) -> bool {
    exists|url: &str, title: &str, company: &str, r: String|
        url@ == job.url && title@ == job.title && company@ == job.company && r@ == key
            && #[trigger] identify.ensures((url, title, company), r)
}

/// Whether the keys are what `identify` makes of the jobs.
pub open spec fn keys_by<F: Fn(&str, &str, &str) -> String>(
    identify: F,
    jobs: Seq<FoundJobView>,
    keys: Seq<Seq<char>>,
) -> bool {
    &&& keys.len() == jobs.len()
    &&& forall|i: int|
        0 <= i < jobs.len() ==> identified_as(identify, #[trigger] jobs[i], keys[i])
}

/// The merge key of a job: what `identify` makes of its address, title and company.
pub fn merge_key<F: Fn(&str, &str, &str) -> String>(job: &FoundJob, identify: &F) -> (r: String)
    requires
        forall|url: &str, title: &str, company: &str| identify.requires((url, title, company)),
    ensures
        identified_as(*identify, job@, r@),
{
    let url: &str = job.url.as_str();
    let title: &str = job.title.as_str();
    let company: &str = job.company.as_str();
    let key: String = identify(url, title, company);
    assert(identify.ensures((url, title, company), key));
    key
}

/// The merge keys of jobs.
pub fn merge_keys<F: Fn(&str, &str, &str) -> String>(jobs: &Vec<FoundJob>, identify: &F) -> (r: Vec<
    String,
>)
    requires
        forall|url: &str, title: &str, company: &str| identify.requires((url, title, company)),
    ensures
        keys_by(*identify, jobs_view(jobs@), texts(r@)),
{
    let mut keys: Vec<String> = Vec::new();
    let mut i: usize = 0;
    while i < jobs.len()
        invariant
            i <= jobs@.len(),
            keys@.len() == i,
            forall|url: &str, title: &str, company: &str|
                identify.requires((url, title, company)),
            forall|k: int|
                0 <= k < i ==> identified_as(*identify, jobs@[k]@, (#[trigger] keys@[k])@),
        decreases jobs@.len() - i,
    {
        keys.push(merge_key(&jobs[i], identify));
        i = i + 1;
    }
    assert forall|k: int| 0 <= k < jobs@.len() implies identified_as(
        *identify,
        #[trigger] jobs_view(jobs@)[k],
        texts(keys@)[k],
    ) by {
        assert(identified_as(*identify, jobs@[k]@, keys@[k]@));
    }
    keys
}

/// Whether a list is the merge of a run into what was found before, for keys that `identify`
/// makes.
pub open spec fn merged_by<F: Fn(&str, &str, &str) -> String>(
    identify: F,
    existing: Seq<FoundJobView>,
    incoming: Seq<FoundJobView>,
    r: Seq<FoundJobView>,
) -> bool {
    exists|known: Seq<Seq<char>>, keys: Seq<Seq<char>>|
        #![trigger keys_by(identify, existing, known), keys_by(identify, incoming, keys)]
        keys_by(identify, existing, known) && keys_by(identify, incoming, keys) && r == merged(
            existing,
            known,
            incoming,
            keys,
        )
}

/// Merges the jobs of a run into those found before; `identify` makes a job's merge key of its
/// address, title and company.
pub fn merge_found_jobs<F: Fn(&str, &str, &str) -> String>(
    existing: &Vec<FoundJob>,
    incoming: Vec<FoundJob>,
    identify: &F,
) -> (r: Vec<FoundJob>)
    requires
        forall|url: &str, title: &str, company: &str| identify.requires((url, title, company)),
    ensures
        merged_by(*identify, jobs_view(existing@), jobs_view(incoming@), jobs_view(r@)),
{
    let known: Vec<String> = merge_keys(existing, identify);
    let keys: Vec<String> = merge_keys(&incoming, identify);
    merge_keyed_jobs(existing, &known, &incoming, &keys)
}

// ── Laws ────────────────────────────────────────────────────────────────────

/// A run never loses a job, never moves one above another, and never changes when a job was
/// first found, its address, its note or its cluster.
pub proof fn merge_keeps_known_jobs(
    existing: Seq<FoundJobView>,
    known: Seq<Seq<char>>,
    jobs: Seq<FoundJobView>,
    keys: Seq<Seq<char>>,
    i: int,
)
    requires
        existing.len() == known.len(),
        jobs.len() == keys.len(),
        0 <= i < existing.len(),
    ensures
        ({
            let all = merged(existing, known, jobs, keys);
            let row = all[all.len() - existing.len() + i];
            &&& all.len() >= existing.len()
            &&& !row.is_new
            &&& row.found_at == existing[i].found_at
            &&& row.url == existing[i].url
            &&& row.assistant_notes == existing[i].assistant_notes
            &&& row.applied == existing[i].applied
            &&& row.cluster_id == existing[i].cluster_id
            &&& row.cluster_canonical == existing[i].cluster_canonical
            &&& row.cluster_members == existing[i].cluster_members
            &&& row.is_agency == existing[i].is_agency
        }),
{
}

/// A run never replaces a description by a blank one.
pub proof fn merge_keeps_descriptions(
    existing: Seq<FoundJobView>,
    known: Seq<Seq<char>>,
    jobs: Seq<FoundJobView>,
    keys: Seq<Seq<char>>,
    i: int,
)
    requires
        existing.len() == known.len(),
        jobs.len() == keys.len(),
        0 <= i < existing.len(),
        !description_blank(existing[i].description),
    ensures
        ({
            let all = merged(existing, known, jobs, keys);
            !description_blank(all[all.len() - existing.len() + i].description)
        }),
{
}

/// The score of a known job, whether it is provisional and what computed it all stem from one
/// find: from before, or from the run.
pub proof fn merge_moves_scores_whole(
    existing: Seq<FoundJobView>,
    known: Seq<Seq<char>>,
    jobs: Seq<FoundJobView>,
    keys: Seq<Seq<char>>,
    i: int,
)
    requires
        existing.len() == known.len(),
        jobs.len() == keys.len(),
        0 <= i < existing.len(),
    ensures
        ({
            let all = merged(existing, known, jobs, keys);
            let row = all[all.len() - existing.len() + i];
            let again = job_at(collapsed(jobs, keys), known[i]);
            let from = if again is Some && again->0.score is Some {
                again->0
            } else {
                existing[i]
            };
            &&& row.score == from.score
            &&& row.score_provisional == from.score_provisional
            &&& row.score_source == from.score_source
        }),
{
}

proof fn lemma_new_rows(batch: Seq<KeyedJob>, known: Seq<Seq<char>>)
    requires
        keys_distinct(batch),
    ensures
        keys_distinct(new_rows(batch, known)),
        forall|i: int|
            0 <= i < new_rows(batch, known).len() ==> (#[trigger] new_rows(
                batch,
                known,
            )[i]).job.is_new && !new_rows(batch, known)[i].job.applied && !known.contains(
                new_rows(batch, known)[i].key,
            ),
        forall|i: int|
            0 <= i < new_rows(batch, known).len() ==> exists|k: int|
                0 <= k < batch.len() && (#[trigger] batch[k]).key == (#[trigger] new_rows(
                    batch,
                    known,
                )[i]).key && new_rows(batch, known)[i].job == (FoundJobView {
                    is_new: true,
                    applied: false,
                    ..batch[k].job
                }),
        forall|k: int|
            0 <= k < batch.len() && !known.contains((#[trigger] batch[k]).key) ==> has_key(
                new_rows(batch, known),
                batch[k].key,
            ),
    decreases batch.len(),
{
    if batch.len() > 0 {
        let rest = batch.drop_last();
        let n = batch.len() - 1;
        assert(keys_distinct(rest)) by {
            assert forall|i: int, j: int| 0 <= i < j < rest.len() implies (
            #[trigger] rest[i]).key != (#[trigger] rest[j]).key by {
                assert(batch[i].key != batch[j].key);
            }
        }
        lemma_new_rows(rest, known);
        let done = new_rows(rest, known);
        let all = new_rows(batch, known);
        assert forall|i: int| 0 <= i < all.len() implies exists|k: int|
            0 <= k < batch.len() && (#[trigger] batch[k]).key == (#[trigger] all[i]).key
                && all[i].job == (FoundJobView { is_new: true, applied: false, ..batch[k].job }) by {
            if i < done.len() {
                assert(all[i] == done[i]);
                let k = choose|k: int|
                    0 <= k < rest.len() && (#[trigger] rest[k]).key == done[i].key && done[i].job
                        == (FoundJobView { is_new: true, applied: false, ..rest[k].job });
                assert(batch[k] == rest[k]);
            } else {
                assert(batch[n].key == all[i].key);
            }
        }
        assert forall|i: int, j: int| 0 <= i < j < all.len() implies (#[trigger] all[i]).key != (
        #[trigger] all[j]).key by {
            assert(all[i] == done[i]);
            if j < done.len() {
                assert(all[j] == done[j]);
            } else {
                let k = choose|k: int| 0 <= k < rest.len() && (#[trigger] rest[k]).key == done[i].key;
                assert(batch[k].key != batch[n].key);
            }
        }
        assert forall|k: int|
            0 <= k < batch.len() && !known.contains((#[trigger] batch[k]).key) implies has_key(
            all,
            batch[k].key,
        ) by {
            if k < n {
                assert(rest[k] == batch[k]);
                let i = choose|i: int|
                    0 <= i < done.len() && (#[trigger] done[i]).key == rest[k].key;
                assert(all[i] == done[i]);
            } else {
                assert(all[done.len() as int].key == batch[k].key);
            }
        }
    }
}

/// The rows above the known jobs are exactly the jobs of the run whose key was not known, one
/// for each key, marked as new and not applied to.
pub proof fn merge_puts_new_jobs_on_top(
    existing: Seq<FoundJobView>,
    known: Seq<Seq<char>>,
    jobs: Seq<FoundJobView>,
    keys: Seq<Seq<char>>,
)
    requires
        existing.len() == known.len(),
        jobs.len() == keys.len(),
    ensures
        ({
            let top = new_rows(collapsed(jobs, keys), known);
            let all = merged(existing, known, jobs, keys);
            &&& all.len() == top.len() + existing.len()
            &&& forall|i: int|
                0 <= i < top.len() ==> (#[trigger] all[i]) == top[i].job && all[i].is_new
                    && !all[i].applied
            &&& forall|i: int|
                top.len() <= i < all.len() ==> !(#[trigger] all[i]).is_new
            &&& keys_distinct(top)
            &&& forall|key: Seq<char>| #[trigger]
                has_key(top, key) <==> keys.contains(key) && !known.contains(key)
        }),
{
    let batch = collapsed(jobs, keys);
    let top = new_rows(batch, known);
    collapsed_has_each_key_once(jobs, keys);
    lemma_new_rows(batch, known);
    assert forall|key: Seq<char>| #[trigger]
        has_key(top, key) <==> keys.contains(key) && !known.contains(key) by {
        assert(has_key(batch, key) <==> keys.contains(key));
        if has_key(top, key) {
            let i = choose|i: int| 0 <= i < top.len() && (#[trigger] top[i]).key == key;
            let k = choose|k: int| 0 <= k < batch.len() && (#[trigger] batch[k]).key == top[i].key;
            assert(batch[k].key == key);
        }
        if keys.contains(key) && !known.contains(key) {
            let k = choose|k: int| 0 <= k < batch.len() && (#[trigger] batch[k]).key == key;
            assert(!known.contains(batch[k].key));
        }
    }
}

/// The keys of a keyed list.
pub open spec fn keys_of(list: Seq<KeyedJob>) -> Seq<Seq<char>> {
    Seq::new(list.len(), |i: int| list[i].key)
}

/// Running again with the same postings changes nothing but that no job is new any more: merging
/// a run into the result of merging it, with the keys that the rows have, gives the same rows.
pub proof fn merge_repeated_clears_only_is_new(
    existing: Seq<FoundJobView>,
    known: Seq<Seq<char>>,
    jobs: Seq<FoundJobView>,
    keys: Seq<Seq<char>>,
)
    requires
        existing.len() == known.len(),
        jobs.len() == keys.len(),
    ensures
        ({
            let once = merged(existing, known, jobs, keys);
            let once_keys = keys_of(new_rows(collapsed(jobs, keys), known)) + known;
            let twice = merged(once, once_keys, jobs, keys);
            &&& twice.len() == once.len()
            &&& forall|i: int|
                0 <= i < once.len() ==> (#[trigger] twice[i]) == (FoundJobView {
                    is_new: false,
                    ..once[i]
                })
        }),
{
    let batch = collapsed(jobs, keys);
    let top = new_rows(batch, known);
    let once = merged(existing, known, jobs, keys);
    let once_keys = keys_of(top) + known;
    collapsed_has_each_key_once(jobs, keys);
    lemma_new_rows(batch, known);
    let again = new_rows(batch, once_keys);
    lemma_new_rows(batch, once_keys);
    if again.len() > 0 {
        let key = again[0].key;
        assert(!once_keys.contains(key));
        let k = choose|k: int| 0 <= k < batch.len() && (#[trigger] batch[k]).key == key;
        if known.contains(key) {
            let j = choose|j: int| 0 <= j < known.len() && known[j] == key;
            assert(once_keys[top.len() + j] == key);
        } else {
            assert(!known.contains(batch[k].key));
            let j = choose|j: int| 0 <= j < top.len() && (#[trigger] top[j]).key == key;
            assert(once_keys[j] == key);
        }
        assert(false);
    }
    let twice = merged(once, once_keys, jobs, keys);
    assert forall|i: int| 0 <= i < once.len() implies (#[trigger] twice[i]) == (FoundJobView {
        is_new: false,
        ..once[i]
    }) by {
        assert(twice[i] == refreshed(once[i], job_at(batch, once_keys[i])));
        if i < top.len() {
            let k = choose|k: int|
                0 <= k < batch.len() && (#[trigger] batch[k]).key == top[i].key && top[i].job == (
                FoundJobView { is_new: true, applied: false, ..batch[k].job });
            lemma_key_at_unique(batch, top[i].key, k);
            assert(once[i] == top[i].job);
            assert(once_keys[i] == top[i].key);
            assert(twice[i] =~= (FoundJobView { is_new: false, ..once[i] }));
        } else {
            let e = i - top.len();
            assert(once_keys[i] == known[e]);
            assert(once[i] == refreshed(existing[e], job_at(batch, known[e])));
            assert(twice[i] =~= (FoundJobView { is_new: false, ..once[i] }));
        }
    }
}

// ── Laws on what identifies a job ───────────────────────────────────────────

/// A job under the title and the company of another.
pub open spec fn retitled(row: FoundJobView, again: FoundJobView) -> FoundJobView {
    FoundJobView { title: again.title, company: again.company, ..row }
}

/// Whether `identify` gives a job one key.
pub open spec fn one_key<F: Fn(&str, &str, &str) -> String>(identify: F) -> bool {
    forall|job: FoundJobView, a: Seq<char>, b: Seq<char>| #[trigger]
        identified_as(identify, job, a) && #[trigger] identified_as(identify, job, b) ==> a == b
}

/// Whether a known job keeps its key where it takes over the title and the company of a job of the
/// run with that key.
pub open spec fn keys_survive<F: Fn(&str, &str, &str) -> String>(
    identify: F,
    existing: Seq<FoundJobView>,
    jobs: Seq<FoundJobView>,
) -> bool {
    forall|i: int, j: int, key: Seq<char>|
        #![trigger identified_as(identify, retitled(existing[i], jobs[j]), key)]
        0 <= i < existing.len() && 0 <= j < jobs.len() && identified_as(identify, existing[i], key)
            && identified_as(identify, jobs[j], key) ==> identified_as(
            identify,
            retitled(existing[i], jobs[j]),
            key,
        )
}

/// Whether `identify` gives no two jobs of the list the same key.
pub open spec fn told_apart<F: Fn(&str, &str, &str) -> String>(
    identify: F,
    jobs: Seq<FoundJobView>,
) -> bool {
    forall|i: int, j: int, key: Seq<char>|
        0 <= i < j < jobs.len() ==> !(#[trigger] identified_as(identify, jobs[i], key)
            && #[trigger] identified_as(identify, jobs[j], key))
}

proof fn lemma_same_identity<F: Fn(&str, &str, &str) -> String>(
    identify: F,
    a: FoundJobView,
    b: FoundJobView,
    key: Seq<char>,
)
    requires
        identified_as(identify, a, key),
        a.url == b.url,
        a.title == b.title,
        a.company == b.company,
    ensures
        identified_as(identify, b, key),
{
}

proof fn lemma_one_list_of_keys<F: Fn(&str, &str, &str) -> String>(
    identify: F,
    jobs: Seq<FoundJobView>,
    a: Seq<Seq<char>>,
    b: Seq<Seq<char>>,
)
    requires
        one_key(identify),
        keys_by(identify, jobs, a),
        keys_by(identify, jobs, b),
    ensures
        a == b,
{
    assert forall|i: int| 0 <= i < a.len() implies a[i] == b[i] by {
        assert(identified_as(identify, jobs[i], a[i]));
        assert(identified_as(identify, jobs[i], b[i]));
    }
    assert(a =~= b);
}

/// The rows of a merge have the keys that they were merged by: those of the new jobs, then those
/// that were known.
pub proof fn merged_rows_keep_their_keys<F: Fn(&str, &str, &str) -> String>(
    identify: F,
    existing: Seq<FoundJobView>,
    known: Seq<Seq<char>>,
    jobs: Seq<FoundJobView>,
    keys: Seq<Seq<char>>,
)
    requires
        keys_survive(identify, existing, jobs),
        keys_by(identify, existing, known),
        keys_by(identify, jobs, keys),
    ensures
        keys_by(
            identify,
            merged(existing, known, jobs, keys),
            keys_of(new_rows(collapsed(jobs, keys), known)) + known,
        ),
{
    let batch = collapsed(jobs, keys);
    let top = new_rows(batch, known);
    let all = merged(existing, known, jobs, keys);
    let all_keys = keys_of(top) + known;
    collapsed_has_each_key_once(jobs, keys);
    lemma_new_rows(batch, known);
    assert forall|k: int| 0 <= k < batch.len() implies identified_as(
        identify,
        (#[trigger] batch[k]).job,
        batch[k].key,
    ) by {
        collapsed_keeps_first_with_longest_description(jobs, keys, k);
        let first = choose|first: int|
            0 <= first < jobs.len() && #[trigger] keys[first] == batch[k].key && batch[k].job == (
            FoundJobView { description: batch[k].job.description, ..jobs[first] });
        assert(identified_as(identify, jobs[first], keys[first]));
        lemma_same_identity(identify, jobs[first], batch[k].job, batch[k].key);
    }
    assert forall|i: int| 0 <= i < all.len() implies identified_as(
        identify,
        #[trigger] all[i],
        all_keys[i],
    ) by {
        if i < top.len() {
            assert(all[i] == top[i].job);
            let k = choose|k: int|
                0 <= k < batch.len() && (#[trigger] batch[k]).key == top[i].key && top[i].job == (
                FoundJobView { is_new: true, applied: false, ..batch[k].job });
            lemma_same_identity(identify, batch[k].job, all[i], top[i].key);
        } else {
            let e = i - top.len();
            let key = known[e];
            assert(all_keys[i] == key);
            assert(identified_as(identify, existing[e], key));
            assert(all[i] == refreshed(existing[e], job_at(batch, key)));
            lemma_key_at(batch, key);
            match key_at(batch, key) {
                None => {
                    lemma_same_identity(identify, existing[e], all[i], key);
                },
                Some(k) => {
                    collapsed_keeps_first_with_longest_description(jobs, keys, k);
                    let first = choose|first: int|
                        0 <= first < jobs.len() && #[trigger] keys[first] == batch[k].key
                            && batch[k].job == (FoundJobView {
                            description: batch[k].job.description,
                            ..jobs[first]
                        });
                    let row = retitled(existing[e], jobs[first]);
                    assert(identified_as(identify, jobs[first], key));
                    assert(identified_as(identify, row, key));
                    lemma_same_identity(identify, row, all[i], key);
                },
            }
        }
    }
}

/// Running again with the same postings changes nothing but that no job is new any more: merging
/// a run into the result of merging it gives the same rows.
pub proof fn repeated_run_clears_only_is_new<F: Fn(&str, &str, &str) -> String>(
    identify: F,
    existing: Seq<FoundJobView>,
    jobs: Seq<FoundJobView>,
    once: Seq<FoundJobView>,
    twice: Seq<FoundJobView>,
)
    requires
        one_key(identify),
        keys_survive(identify, existing, jobs),
        merged_by(identify, existing, jobs, once),
        merged_by(identify, once, jobs, twice),
    ensures
        twice.len() == once.len(),
        forall|i: int|
            0 <= i < once.len() ==> (#[trigger] twice[i]) == (FoundJobView {
                is_new: false,
                ..once[i]
            }),
{
    let (known, keys) = choose|known: Seq<Seq<char>>, keys: Seq<Seq<char>>|
        #![trigger keys_by(identify, existing, known), keys_by(identify, jobs, keys)]
        keys_by(identify, existing, known) && keys_by(identify, jobs, keys) && once == merged(
            existing,
            known,
            jobs,
            keys,
        );
    let (known_then, keys_then) = choose|known_then: Seq<Seq<char>>, keys_then: Seq<Seq<char>>|
        #![trigger keys_by(identify, once, known_then), keys_by(identify, jobs, keys_then)]
        keys_by(identify, once, known_then) && keys_by(identify, jobs, keys_then) && twice
            == merged(once, known_then, jobs, keys_then);
    let once_keys = keys_of(new_rows(collapsed(jobs, keys), known)) + known;
    merged_rows_keep_their_keys(identify, existing, known, jobs, keys);
    lemma_one_list_of_keys(identify, once, known_then, once_keys);
    lemma_one_list_of_keys(identify, jobs, keys_then, keys);
    merge_repeated_clears_only_is_new(existing, known, jobs, keys);
}

/// The first run of an autopilot, and a run that finds every known job under the title and the
/// company that it is known by, leave the known jobs their keys.
pub proof fn unchanged_titles_keep_keys<F: Fn(&str, &str, &str) -> String>(
    identify: F,
    existing: Seq<FoundJobView>,
    jobs: Seq<FoundJobView>,
)
    requires
        forall|i: int, j: int, key: Seq<char>|
            0 <= i < existing.len() && 0 <= j < jobs.len() && #[trigger] identified_as(
                identify,
                existing[i],
                key,
            ) && #[trigger] identified_as(identify, jobs[j], key) ==> existing[i].title
                == jobs[j].title && existing[i].company == jobs[j].company,
    ensures
        keys_survive(identify, existing, jobs),
{
    assert forall|i: int, j: int, key: Seq<char>|
        #![trigger identified_as(identify, retitled(existing[i], jobs[j]), key)]
        0 <= i < existing.len() && 0 <= j < jobs.len() && identified_as(identify, existing[i], key)
            && identified_as(identify, jobs[j], key) implies identified_as(
        identify,
        retitled(existing[i], jobs[j]),
        key,
    ) by {
        lemma_same_identity(identify, existing[i], retitled(existing[i], jobs[j]), key);
    }
}

/// A run never makes two rows of one job: where the known jobs have different keys, so have those
/// of the result.
pub proof fn merge_keeps_jobs_apart<F: Fn(&str, &str, &str) -> String>(
    identify: F,
    existing: Seq<FoundJobView>,
    jobs: Seq<FoundJobView>,
    r: Seq<FoundJobView>,
)
    requires
        one_key(identify),
        keys_survive(identify, existing, jobs),
        told_apart(identify, existing),
        merged_by(identify, existing, jobs, r),
    ensures
        told_apart(identify, r),
{
    let (known, keys) = choose|known: Seq<Seq<char>>, keys: Seq<Seq<char>>|
        #![trigger keys_by(identify, existing, known), keys_by(identify, jobs, keys)]
        keys_by(identify, existing, known) && keys_by(identify, jobs, keys) && r == merged(
            existing,
            known,
            jobs,
            keys,
        );
    let top = new_rows(collapsed(jobs, keys), known);
    let r_keys = keys_of(top) + known;
    merged_rows_keep_their_keys(identify, existing, known, jobs, keys);
    collapsed_has_each_key_once(jobs, keys);
    lemma_new_rows(collapsed(jobs, keys), known);
    assert forall|i: int, j: int, key: Seq<char>| 0 <= i < j < r.len() implies !(
    #[trigger] identified_as(identify, r[i], key) && #[trigger] identified_as(
        identify,
        r[j],
        key,
    )) by {
        if identified_as(identify, r[i], key) && identified_as(identify, r[j], key) {
            assert(identified_as(identify, r[i], r_keys[i]));
            assert(identified_as(identify, r[j], r_keys[j]));
            let n = top.len() as int;
            if j < n {
                assert(top[i].key != top[j].key);
            } else if i < n {
                assert(!known.contains(top[i].key));
                assert(known[j - n] == key);
            } else {
                assert(identified_as(identify, existing[i - n], known[i - n]));
                assert(identified_as(identify, existing[j - n], known[j - n]));
            }
        }
    }
}

// ── Laws on what a run says of a job ────────────────────────────────────────

/// Whether a run names a key first at this place.
pub open spec fn first_of(keys: Seq<Seq<char>>, key: Seq<char>, first: int) -> bool {
    &&& 0 <= first < keys.len()
    &&& keys[first] == key
    &&& forall|k: int| 0 <= k < first ==> #[trigger] keys[k] != key
}

/// How many bytes a text has, none where there is no text.
pub open spec fn text_bytes(d: Option<Seq<char>>) -> nat {
    match d {
        Some(s) => encode_utf8(s).len(),
        None => 0,
    }
}

/// Whether no job of the key has a longer description than the job at this place, and none before
/// it has one as long.
pub open spec fn longest_of(
    jobs: Seq<FoundJobView>,
    keys: Seq<Seq<char>>,
    key: Seq<char>,
    best: int,
) -> bool {
    &&& 0 <= best < jobs.len()
    &&& keys[best] == key
    &&& forall|k: int|
        0 <= k < jobs.len() && #[trigger] keys[k] == key ==> text_bytes(jobs[k].description)
            <= text_bytes(jobs[best].description)
    &&& forall|k: int|
        0 <= k < best && #[trigger] keys[k] == key ==> text_bytes(jobs[k].description)
            < text_bytes(jobs[best].description)
}

/// Whether a text says something: it is there, and some character of it is no white space.
pub open spec fn says_something(d: Option<Seq<char>>) -> bool {
    d is Some && exists|i: int| 0 <= i < d->0.len() && !white(#[trigger] d->0[i])
}

/// The one value where there is one, and the other where there is none.
pub open spec fn given_or<T>(given: Option<T>, otherwise: Option<T>) -> Option<T> {
    match given {
        Some(x) => Some(x),
        None => otherwise,
    }
}

proof fn lemma_collapsed_row(jobs: Seq<FoundJobView>, keys: Seq<Seq<char>>, row: int)
    requires
        jobs.len() == keys.len(),
        0 <= row < collapsed(jobs, keys).len(),
    ensures
        exists|first: int, best: int|
            #![trigger keys[first], keys[best]]
            first_of(keys, collapsed(jobs, keys)[row].key, first) && longest_of(
                jobs,
                keys,
                collapsed(jobs, keys)[row].key,
                best,
            ) && collapsed(jobs, keys)[row].job == (FoundJobView {
                description: jobs[best].description,
                ..jobs[first]
            }),
    decreases jobs.len(),
{
    let rest = jobs.drop_last();
    let rest_keys = keys.drop_last();
    let done = collapsed(rest, rest_keys);
    let all = collapsed(jobs, keys);
    let n = jobs.len() - 1;
    let key = all[row].key;
    collapsed_has_each_key_once(rest, rest_keys);
    collapsed_has_each_key_once(jobs, keys);
    lemma_key_at(done, keys.last());
    if row < done.len() {
        assert(done[row].key == key);
        lemma_collapsed_row(rest, rest_keys, row);
        let (first, best) = choose|first: int, best: int|
            #![trigger rest_keys[first], rest_keys[best]]
            first_of(rest_keys, key, first) && longest_of(rest, rest_keys, key, best)
                && done[row].job == (FoundJobView {
                description: rest[best].description,
                ..rest[first]
            });
        assert forall|k: int| 0 <= k < first implies #[trigger] keys[k] != key by {
            assert(rest_keys[k] != key);
        }
        assert(first_of(keys, key, first));
        let longer = keys[n] == key && text_bytes(jobs[n].description) > text_bytes(
            jobs[best].description,
        );
        if keys[n] == key {
            lemma_key_at_unique(done, key, row);
        }
        let b = if longer {
            n
        } else {
            best
        };
        assert forall|k: int| 0 <= k < jobs.len() && #[trigger] keys[k] == key implies text_bytes(
            jobs[k].description,
        ) <= text_bytes(jobs[b].description) by {
            if k < n {
                assert(rest_keys[k] == key);
            }
        }
        assert forall|k: int| 0 <= k < b && #[trigger] keys[k] == key implies text_bytes(
            jobs[k].description,
        ) < text_bytes(jobs[b].description) by {
            assert(rest_keys[k] == key);
        }
        assert(longest_of(jobs, keys, key, b));
        assert(all[row].job =~= (FoundJobView { description: jobs[b].description, ..jobs[first] }));
        assert(keys[first] == key && keys[b] == key);
    } else {
        assert(key == keys[n]);
        assert forall|k: int| 0 <= k < n implies #[trigger] keys[k] != key by {
            if keys[k] == key {
                assert(rest_keys[k] == key);
                assert(has_key(done, key));
            }
        }
        assert(first_of(keys, key, n));
        assert(longest_of(jobs, keys, key, n));
        assert(all[row].job =~= (FoundJobView { description: jobs[n].description, ..jobs[n] }));
        assert(keys[n] == key);
    }
}

proof fn lemma_job_at(jobs: Seq<FoundJobView>, keys: Seq<Seq<char>>, first: int, best: int)
    requires
        jobs.len() == keys.len(),
        0 <= first < keys.len(),
        first_of(keys, keys[first], first),
        longest_of(jobs, keys, keys[first], best),
    ensures
        job_at(collapsed(jobs, keys), keys[first]) == Some(
            FoundJobView { description: jobs[best].description, ..jobs[first] },
        ),
{
    let key = keys[first];
    let batch = collapsed(jobs, keys);
    collapsed_has_each_key_once(jobs, keys);
    assert(keys.contains(key));
    assert(has_key(batch, key));
    let row = choose|row: int| 0 <= row < batch.len() && (#[trigger] batch[row]).key == key;
    lemma_key_at_unique(batch, key, row);
    lemma_collapsed_row(jobs, keys, row);
    let (f, b) = choose|f: int, b: int|
        #![trigger keys[f], keys[b]]
        first_of(keys, key, f) && longest_of(jobs, keys, key, b) && batch[row].job == (
        FoundJobView { description: jobs[b].description, ..jobs[f] });
    if f < first {
        assert(keys[f] != key);
    } else if first < f {
        assert(keys[first] != key);
    }
    if b < best {
        assert(keys[b] == key);
        assert(keys[best] == key);
    } else if best < b {
        assert(keys[b] == key);
        assert(keys[best] == key);
    }
    assert(b == best);
}

/// What a run knows of a known job replaces what was known of it, field by field: the title and
/// the company always, the place, the board, the publication, the salary and the trust where the
/// run has them, and the description where it says something. What the run does not have stays.
/// Of several finds in the run the first one speaks, with the longest description among them.
pub proof fn merge_takes_over_what_the_run_knows(
    existing: Seq<FoundJobView>,
    known: Seq<Seq<char>>,
    jobs: Seq<FoundJobView>,
    keys: Seq<Seq<char>>,
    i: int,
    first: int,
    best: int,
)
    requires
        existing.len() == known.len(),
        jobs.len() == keys.len(),
        0 <= i < existing.len(),
        first_of(keys, known[i], first),
        longest_of(jobs, keys, known[i], best),
    ensures
        ({
            let all = merged(existing, known, jobs, keys);
            let row = all[all.len() - existing.len() + i];
            let was = existing[i];
            let inc = jobs[first];
            let text = jobs[best].description;
            &&& row.title == inc.title
            &&& row.company == inc.company
            &&& row.location == given_or(inc.location, was.location)
            &&& row.board == given_or(inc.board, was.board)
            &&& row.posted_at == given_or(inc.posted_at, was.posted_at)
            &&& row.salary_min == given_or(inc.salary_min, was.salary_min)
            &&& row.salary_max == given_or(inc.salary_max, was.salary_max)
            &&& row.salary_currency == given_or(inc.salary_currency, was.salary_currency)
            &&& row.trust == given_or(inc.trust, was.trust)
            &&& row.score == given_or(inc.score, was.score)
            &&& inc.score is Some ==> row.score_provisional == inc.score_provisional
                && row.score_source == inc.score_source
            &&& inc.score is None ==> row.score_provisional == was.score_provisional
                && row.score_source == was.score_source
            &&& says_something(text) ==> row.description == text
            &&& !says_something(text) ==> row.description == was.description
            &&& !row.is_new
            &&& row.url == was.url
            &&& row.found_at == was.found_at
            &&& row.applied == was.applied
            &&& row.assistant_notes == was.assistant_notes
            &&& row.cluster_id == was.cluster_id
            &&& row.cluster_canonical == was.cluster_canonical
            &&& row.cluster_members == was.cluster_members
            &&& row.is_agency == was.is_agency
        }),
{
    lemma_job_at(jobs, keys, first, best);
    let text = jobs[best].description;
    assert(says_something(text) <==> !description_blank(text));
}

/// A known job that the run did not find again stays as it is, and is no longer new.
pub proof fn merge_leaves_jobs_that_were_not_found(
    existing: Seq<FoundJobView>,
    known: Seq<Seq<char>>,
    jobs: Seq<FoundJobView>,
    keys: Seq<Seq<char>>,
    i: int,
)
    requires
        existing.len() == known.len(),
        jobs.len() == keys.len(),
        0 <= i < existing.len(),
        !keys.contains(known[i]),
    ensures
        ({
            let all = merged(existing, known, jobs, keys);
            all[all.len() - existing.len() + i] == (FoundJobView { is_new: false, ..existing[i] })
        }),
{
    collapsed_has_each_key_once(jobs, keys);
    lemma_key_at(collapsed(jobs, keys), known[i]);
    assert(!has_key(collapsed(jobs, keys), known[i]));
}

/// A find of a run whose key is not known becomes a row of its own above the known jobs: as the
/// run found it first, with the longest description among the finds of its key, new and not
/// applied to. There is no second row of the key among the new ones.
pub proof fn merge_adds_new_jobs_as_they_were_found(
    existing: Seq<FoundJobView>,
    known: Seq<Seq<char>>,
    jobs: Seq<FoundJobView>,
    keys: Seq<Seq<char>>,
    first: int,
    best: int,
)
    requires
        existing.len() == known.len(),
        jobs.len() == keys.len(),
        0 <= first < keys.len(),
        !known.contains(keys[first]),
        first_of(keys, keys[first], first),
        longest_of(jobs, keys, keys[first], best),
    ensures
        ({
            let all = merged(existing, known, jobs, keys);
            exists|row: int|
                0 <= row < all.len() - existing.len() && #[trigger] all[row] == (FoundJobView {
                    description: jobs[best].description,
                    is_new: true,
                    applied: false,
                    ..jobs[first]
                })
        }),
{
    let batch = collapsed(jobs, keys);
    let top = new_rows(batch, known);
    let all = merged(existing, known, jobs, keys);
    collapsed_has_each_key_once(jobs, keys);
    lemma_new_rows(batch, known);
    lemma_job_at(jobs, keys, first, best);
    lemma_key_at(batch, keys[first]);
    let k = key_at(batch, keys[first])->0;
    assert(!known.contains(batch[k].key));
    let row = choose|row: int| 0 <= row < top.len() && (#[trigger] top[row]).key == batch[k].key;
    let m = choose|m: int|
        0 <= m < batch.len() && (#[trigger] batch[m]).key == top[row].key && top[row].job == (
        FoundJobView { is_new: true, applied: false, ..batch[m].job });
    lemma_key_at_unique(batch, keys[first], m);
    assert(all[row] == top[row].job);
}

proof fn lemma_collapsed_order(jobs: Seq<FoundJobView>, keys: Seq<Seq<char>>, a: int, b: int)
    requires
        jobs.len() == keys.len(),
        0 <= a < b < collapsed(jobs, keys).len(),
    ensures
        exists|x: int, y: int|
            #![trigger keys[x], keys[y]]
            x < y && first_of(keys, collapsed(jobs, keys)[a].key, x) && first_of(
                keys,
                collapsed(jobs, keys)[b].key,
                y,
            ),
    decreases jobs.len(),
{
    let rest = jobs.drop_last();
    let rest_keys = keys.drop_last();
    let done = collapsed(rest, rest_keys);
    let all = collapsed(jobs, keys);
    let n = jobs.len() - 1;
    lemma_key_at(done, keys.last());
    collapsed_has_each_key_once(rest, rest_keys);
    if b < done.len() {
        lemma_collapsed_order(rest, rest_keys, a, b);
        let (x, y) = choose|x: int, y: int|
            #![trigger rest_keys[x], rest_keys[y]]
            x < y && first_of(rest_keys, done[a].key, x) && first_of(rest_keys, done[b].key, y);
        assert forall|k: int| 0 <= k < x implies #[trigger] keys[k] != done[a].key by {
            assert(rest_keys[k] != done[a].key);
        }
        assert forall|k: int| 0 <= k < y implies #[trigger] keys[k] != done[b].key by {
            assert(rest_keys[k] != done[b].key);
        }
        assert(first_of(keys, all[a].key, x));
        assert(first_of(keys, all[b].key, y));
        assert(keys[x] == all[a].key && keys[y] == all[b].key);
    } else {
        lemma_collapsed_row(rest, rest_keys, a);
        let (x, best) = choose|x: int, best: int|
            #![trigger rest_keys[x], rest_keys[best]]
            first_of(rest_keys, done[a].key, x) && longest_of(rest, rest_keys, done[a].key, best)
                && done[a].job == (FoundJobView { description: rest[best].description, ..rest[x] });
        assert forall|k: int| 0 <= k < x implies #[trigger] keys[k] != done[a].key by {
            assert(rest_keys[k] != done[a].key);
        }
        assert forall|k: int| 0 <= k < n implies #[trigger] keys[k] != keys[n] by {
            if keys[k] == keys[n] {
                assert(rest_keys[k] == keys[n]);
                assert(has_key(done, keys[n]));
            }
        }
        assert(first_of(keys, all[a].key, x));
        assert(first_of(keys, all[b].key, n));
        assert(keys[x] == all[a].key && keys[n] == all[b].key);
    }
}

proof fn lemma_new_rows_order(batch: Seq<KeyedJob>, known: Seq<Seq<char>>, a: int, b: int)
    requires
        0 <= a < b < new_rows(batch, known).len(),
    ensures
        exists|x: int, y: int|
            #![trigger batch[x], batch[y]]
            0 <= x < y < batch.len() && batch[x].key == new_rows(batch, known)[a].key
                && batch[y].key == new_rows(batch, known)[b].key,
    decreases batch.len(),
{
    let rest = batch.drop_last();
    let done = new_rows(rest, known);
    if b < done.len() {
        lemma_new_rows_order(rest, known, a, b);
        let (x, y) = choose|x: int, y: int|
            #![trigger rest[x], rest[y]]
            0 <= x < y < rest.len() && rest[x].key == done[a].key && rest[y].key == done[b].key;
        assert(batch[x] == rest[x] && batch[y] == rest[y]);
    } else {
        lemma_new_row_from(rest, known, a);
        let x = choose|x: int| 0 <= x < rest.len() && (#[trigger] rest[x]).key == done[a].key;
        assert(batch[x] == rest[x]);
        assert(batch[batch.len() - 1].key == new_rows(batch, known)[b].key);
    }
}

proof fn lemma_new_row_from(batch: Seq<KeyedJob>, known: Seq<Seq<char>>, a: int)
    requires
        0 <= a < new_rows(batch, known).len(),
    ensures
        exists|x: int|
            0 <= x < batch.len() && (#[trigger] batch[x]).key == new_rows(batch, known)[a].key,
    decreases batch.len(),
{
    let rest = batch.drop_last();
    let done = new_rows(rest, known);
    if a < done.len() {
        lemma_new_row_from(rest, known, a);
        let x = choose|x: int| 0 <= x < rest.len() && (#[trigger] rest[x]).key == done[a].key;
        assert(batch[x] == rest[x]);
    } else {
        assert(batch[batch.len() - 1].key == new_rows(batch, known)[a].key);
    }
}

/// The new jobs stand in the order in which the run found them first.
pub proof fn merge_keeps_the_order_of_finds(
    existing: Seq<FoundJobView>,
    known: Seq<Seq<char>>,
    jobs: Seq<FoundJobView>,
    keys: Seq<Seq<char>>,
    a: int,
    b: int,
)
    requires
        existing.len() == known.len(),
        jobs.len() == keys.len(),
        0 <= a < b < merged(existing, known, jobs, keys).len() - existing.len(),
    ensures
        ({
            let all = merged(existing, known, jobs, keys);
            exists|x: int, y: int|
                #![trigger jobs[x], jobs[y]]
                0 <= x < y < jobs.len() && jobs[x].url == all[a].url && jobs[y].url == all[b].url
                    && jobs[x].title == all[a].title && jobs[y].title == all[b].title
                    && jobs[x].found_at == all[a].found_at && jobs[y].found_at == all[b].found_at
        }),
{
    let batch = collapsed(jobs, keys);
    let top = new_rows(batch, known);
    let all = merged(existing, known, jobs, keys);
    collapsed_has_each_key_once(jobs, keys);
    lemma_new_rows(batch, known);
    lemma_new_rows_order(batch, known, a, b);
    let (p, q) = choose|p: int, q: int|
        #![trigger batch[p], batch[q]]
        0 <= p < q < batch.len() && batch[p].key == top[a].key && batch[q].key == top[b].key;
    lemma_collapsed_order(jobs, keys, p, q);
    let (x, y) = choose|x: int, y: int|
        #![trigger keys[x], keys[y]]
        x < y && first_of(keys, batch[p].key, x) && first_of(keys, batch[q].key, y);
    lemma_row_is_first_find(jobs, keys, known, a, x);
    lemma_row_is_first_find(jobs, keys, known, b, y);
    assert(all[a] == top[a].job && all[b] == top[b].job);
    assert(jobs[x].url == all[a].url && jobs[y].url == all[b].url);
}

proof fn lemma_row_is_first_find(
    jobs: Seq<FoundJobView>,
    keys: Seq<Seq<char>>,
    known: Seq<Seq<char>>,
    a: int,
    x: int,
)
    requires
        jobs.len() == keys.len(),
        0 <= a < new_rows(collapsed(jobs, keys), known).len(),
        first_of(keys, new_rows(collapsed(jobs, keys), known)[a].key, x),
    ensures
        ({
            let row = new_rows(collapsed(jobs, keys), known)[a].job;
            row.url == jobs[x].url && row.title == jobs[x].title && row.found_at
                == jobs[x].found_at
        }),
{
    let batch = collapsed(jobs, keys);
    let top = new_rows(batch, known);
    collapsed_has_each_key_once(jobs, keys);
    lemma_new_rows(batch, known);
    let m = choose|m: int|
        0 <= m < batch.len() && (#[trigger] batch[m]).key == top[a].key && top[a].job == (
        FoundJobView { is_new: true, applied: false, ..batch[m].job });
    lemma_collapsed_row(jobs, keys, m);
    let (f, b) = choose|f: int, b: int|
        #![trigger keys[f], keys[b]]
        first_of(keys, batch[m].key, f) && longest_of(jobs, keys, batch[m].key, b)
            && batch[m].job == (FoundJobView { description: jobs[b].description, ..jobs[f] });
    if f < x {
        assert(keys[f] != top[a].key);
    } else if x < f {
        assert(keys[x] != top[a].key);
    }
}

/// The key of a job is what `identify` says of its address, its title and its company, in this
/// order, where it says one thing of them.
pub proof fn keys_are_what_identify_says<F: Fn(&str, &str, &str) -> String>(
    identify: F,
    job: FoundJobView,
    key: Seq<char>,
    said: Seq<char>,
)
    requires
        forall|url: &str, title: &str, company: &str, r: String|
            url@ == job.url && title@ == job.title && company@ == job.company
                && #[trigger] identify.ensures((url, title, company), r) ==> r@ == said,
        identified_as(identify, job, key),
    ensures
        key == said,
{
}

/// Where `identify` says one thing of an address, a title and a company, which `key` names, a merge
/// goes by that key of each job, old and new.
pub proof fn merge_goes_by_what_identify_says<F: Fn(&str, &str, &str) -> String>(
    identify: F,
    existing: Seq<FoundJobView>,
    incoming: Seq<FoundJobView>,
    rows: Seq<FoundJobView>,
    key: spec_fn(Seq<char>, Seq<char>, Seq<char>) -> Seq<char>,
)
    requires
        merged_by(identify, existing, incoming, rows),
        forall|url: &str, title: &str, company: &str, out: String|
            #[trigger] identify.ensures((url, title, company), out) ==> out@ == key(
                url@,
                title@,
                company@,
            ),
    ensures
        rows == merged(
            existing,
            Seq::new(
                existing.len(),
                |i: int| key(existing[i].url, existing[i].title, existing[i].company),
            ),
            incoming,
            Seq::new(
                incoming.len(),
                |i: int| key(incoming[i].url, incoming[i].title, incoming[i].company),
            ),
        ),
{
    let (known, keys) = choose|known: Seq<Seq<char>>, keys: Seq<Seq<char>>|
        #![trigger keys_by(identify, existing, known), keys_by(identify, incoming, keys)]
        keys_by(identify, existing, known) && keys_by(identify, incoming, keys) && rows == merged(
            existing,
            known,
            incoming,
            keys,
        );
    assert forall|i: int| 0 <= i < known.len() implies #[trigger] known[i] == key(
        existing[i].url,
        existing[i].title,
        existing[i].company,
    ) by {
        assert(identified_as(identify, existing[i], known[i]));
    }
    assert forall|i: int| 0 <= i < keys.len() implies #[trigger] keys[i] == key(
        incoming[i].url,
        incoming[i].title,
        incoming[i].company,
    ) by {
        assert(identified_as(identify, incoming[i], keys[i]));
    }
    assert(known =~= Seq::new(
        existing.len(),
        |i: int| key(existing[i].url, existing[i].title, existing[i].company),
    ));
    assert(keys =~= Seq::new(
        incoming.len(),
        |i: int| key(incoming[i].url, incoming[i].title, incoming[i].company),
    ));
}

} // verus!
