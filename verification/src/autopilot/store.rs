//! The store of autopilots.
use vstd::prelude::*;

use crate::autopilot::cluster::{
    annotated, assigned_by, assignments_view, cluster_found_jobs, cluster_keyed_jobs, new_job_keys,
    new_keys, ClusterAssignment, ClusterInput,
};
use crate::autopilot::merge::{merge_found_jobs, merge_keys, merged_by};
use crate::autopilot::model::{
    autopilots_view, jobs_view, summaries_view, Autopilot, AutopilotFilter, AutopilotStatus,
    AutopilotTarget, AutopilotView, BoardScrapeSummary, FoundJob, FoundJobView, RunStatus,
    SummaryView, TrustAssessment, TrustView,
};
use crate::autopilot::order::listed_before;
use crate::autopilot::records::{
    by_id, by_id_at, by_id_has_ids, by_id_of_map, by_id_of_push, by_id_of_remove, by_id_of_update,
    ids_distinct, newest_first_order, sorted_records,
};
use crate::autopilot::relax::{relax_legacy_filters, relaxed};
use crate::autopilot::requests::{
    apply_patch, created, new_record, opt_filter, opt_target, patched,
};
use crate::autopilot::status::{
    derive_run_status, run_status_of, strip_board_health, strip_summaries, stripped,
    without_health,
};
use crate::chance::fresh_id;
use crate::json::{opt_str, Json};
use crate::text::{owned, str_eq, texts};

verus! {

/// The autopilots by their ids.
pub struct AutopilotStore {
    records: Vec<Autopilot>,
}

impl View for AutopilotStore {
    type V = Map<Seq<char>, AutopilotView>;

    closed spec fn view(&self) -> Map<Seq<char>, AutopilotView> {
        by_id(autopilots_view(self.records@))
    }
}

impl AutopilotStore {
    /// The records in the order in which the store holds them.
    pub closed spec fn rows(&self) -> Seq<Autopilot> {
        self.records@
    }

    /// What holds of a store at every time: no two records share an id.
    pub open spec fn valid(&self) -> bool {
        &&& ids_distinct(autopilots_view(self.rows()))
        &&& self@ == by_id(autopilots_view(self.rows()))
    }

    /// An empty store.
    pub fn new() -> (r: Self)
        ensures
            r.valid(),
            r@ == Map::<Seq<char>, AutopilotView>::empty(),
    {
        let r = AutopilotStore { records: Vec::new() };
        assert(autopilots_view(r.records@) =~= Seq::empty());
        r
    }

    fn position(&self, id: &str) -> (r: Option<usize>)
        requires
            self.valid(),
        ensures
            match r {
                Some(i) => i < self.rows().len() && self.rows()[i as int]@.id == id@
                    && self@.contains_key(id@) && self@[id@] == self.rows()[i as int]@,
                None => !self@.contains_key(id@),
            },
    {
        proof {
            by_id_at(autopilots_view(self.records@));
            by_id_has_ids(autopilots_view(self.records@));
        }
        let mut i: usize = 0;
        while i < self.records.len()
            invariant
                i <= self.records@.len(),
                forall|k: int|
                    0 <= k < self.records@.len() ==> self@[(#[trigger] autopilots_view(
                        self.records@,
                    )[k]).id] == self.records@[k]@ && self@.contains_key(
                        autopilots_view(self.records@)[k].id,
                    ),
                forall|k: int|
                    0 <= k < i ==> (#[trigger] autopilots_view(self.records@)[k]).id != id@,
            decreases self.records@.len() - i,
        {
            if str_eq(self.records[i].id.as_str(), id) {
                assert(autopilots_view(self.records@)[i as int].id == id@);
                return Some(i);
            }
            i = i + 1;
        }
        None
    }

    /// The records, newest first.
    pub fn list(&self) -> (r: Vec<Autopilot>)
        requires
            self.valid(),
        ensures
            newest_first_order(autopilots_view(r@)),
            ids_distinct(autopilots_view(r@)),
            by_id(autopilots_view(r@)) == self@,
    {
        sorted_records(&self.records)
    }

    /// The record with this id.
    pub fn get(&self, id: &str) -> (r: Option<Autopilot>)
        requires
            self.valid(),
        ensures
            match r {
                Some(ap) => self@.contains_key(id@) && ap@ == self@[id@],
                None => !self@.contains_key(id@),
            },
    {
        match self.position(id) {
            Some(i) => Some(self.records[i].clone()),
            None => None,
        }
    }

    /// Puts a record under its id.
    fn put(&mut self, ap: Autopilot)
        requires
            old(self).valid(),
        ensures
            final(self).valid(),
            final(self)@ == old(self)@.insert(ap@.id, ap@),
    {
        let ghost s = autopilots_view(self.records@);
        let ghost r = ap@;
        match self.position(ap.id.as_str()) {
            Some(i) => {
                proof {
                    by_id_of_update(s, i as int, r);
                }
                self.records[i] = ap;
                assert(autopilots_view(self.records@) =~= s.update(i as int, r));
            },
            None => {
                proof {
                    by_id_of_push(s, r);
                }
                self.records.push(ap);
                assert(autopilots_view(self.records@) =~= s.push(r));
            },
        }
    }

    /// Creates a record with this id. `target` and `filter` are what the request's own target
    /// and filter read as, where they are readable.
    pub fn create_with_id(
        &mut self,
        input: &Json,
        target: Option<AutopilotTarget>,
        filter: Option<AutopilotFilter>,
        id: String,
        now: u64,
    ) -> (r: Autopilot)
        requires
            old(self).valid(),
        ensures
            final(self).valid(),
            r@ == created(input@, opt_target(target), opt_filter(filter), id@, now),
            final(self)@ == old(self)@.insert(id@, r@),
    {
        let ap: Autopilot = new_record(input, target, filter, id, now);
        self.put(ap.clone());
        ap
    }

    /// Creates a record with a random id.
    pub fn create(
        &mut self,
        input: &Json,
        target: Option<AutopilotTarget>,
        filter: Option<AutopilotFilter>,
        now: u64,
    ) -> (r: Autopilot)
        requires
            old(self).valid(),
        ensures
            final(self).valid(),
            r@.id.len() == 36,
            r@ == created(input@, opt_target(target), opt_filter(filter), r@.id, now),
            final(self)@ == old(self)@.insert(r@.id, r@),
    {
        let id: String = fresh_id();
        self.create_with_id(input, target, filter, id, now)
    }

    /// Changes a record by a patch. `target` and `filter` are what the patch's own target and
    /// filter read as, where they are readable. Without such a record nothing happens.
    pub fn update(
        &mut self,
        id: &str,
        patch: &Json,
        target: Option<AutopilotTarget>,
        filter: Option<AutopilotFilter>,
        now: u64,
    ) -> (r: Option<Autopilot>)
        requires
            old(self).valid(),
        ensures
            final(self).valid(),
            match r {
                Some(ap) => old(self)@.contains_key(id@) && ap@ == patched(
                    old(self)@[id@],
                    patch@,
                    opt_target(target),
                    opt_filter(filter),
                    now,
                ) && final(self)@ == old(self)@.insert(id@, ap@),
                None => !old(self)@.contains_key(id@) && final(self)@ == old(self)@,
            },
    {
        let ghost s = autopilots_view(self.records@);
        match self.position(id) {
            Some(i) => {
                apply_patch(&mut self.records[i], patch, target, filter, now);
                proof {
                    let r = self.records@[i as int]@;
                    by_id_of_update(s, i as int, r);
                    assert(autopilots_view(self.records@) =~= s.update(i as int, r));
                }
                Some(self.records[i].clone())
            },
            None => None,
        }
    }

    /// Removes a record.
    pub fn remove(&mut self, id: &str)
        requires
            old(self).valid(),
        ensures
            final(self).valid(),
            final(self)@ == old(self)@.remove(id@),
    {
        let ghost s = autopilots_view(self.records@);
        match self.position(id) {
            Some(i) => {
                proof {
                    by_id_of_remove(s, i as int);
                }
                self.records.remove(i);
                assert(autopilots_view(self.records@) =~= s.remove(i as int));
            },
            None => {
                assert(self@ =~= self@.remove(id@));
            },
        }
    }

    /// Removes every record.
    pub fn clear_all(&mut self)
        ensures
            final(self).valid(),
            final(self)@ == Map::<Seq<char>, AutopilotView>::empty(),
    {
        self.records = Vec::new();
        assert(autopilots_view(self.records@) =~= Seq::empty());
    }

    /// Replaces all records by these. Of several records with one id the last one stays.
    pub fn replace_all(&mut self, items: Vec<Autopilot>)
        ensures
            final(self).valid(),
            final(self)@ == by_id(autopilots_view(items@)),
    {
        let ghost s = autopilots_view(items@);
        self.clear_all();
        let mut i: usize = 0;
        assert(s.take(0) =~= Seq::empty());
        while i < items.len()
            invariant
                i <= items@.len(),
                s == autopilots_view(items@),
                self.valid(),
                self@ == by_id(s.take(i as int)),
            decreases items@.len() - i,
        {
            assert(s.take(i as int + 1).drop_last() =~= s.take(i as int));
            self.put(items[i].clone());
            i = i + 1;
        }
        assert(s.take(s.len() as int) =~= s);
    }
}

// ── Runs ────────────────────────────────────────────────────────────────────

/// A record with another status.
pub open spec fn with_status(ap: AutopilotView, status: AutopilotStatus, now: u64) -> AutopilotView {
    AutopilotView { status, updated_at: now, ..ap }
}

/// A record with another outcome of its latest run.
pub open spec fn with_run_status(ap: AutopilotView, status: RunStatus, now: u64) -> AutopilotView {
    AutopilotView { run_status: Some(status), updated_at: now, ..ap }
}

/// A record with another outcome of its latest run and without the summaries of the run before.
pub open spec fn with_bare_run_status(
    ap: AutopilotView,
    status: RunStatus,
    now: u64,
) -> AutopilotView {
    AutopilotView {
        run_status: Some(status),
        last_run_summaries: Seq::empty(),
        updated_at: now,
        ..ap
    }
}

/// A record whose latest run was at `now`.
pub open spec fn with_last_run(ap: AutopilotView, now: u64) -> AutopilotView {
    AutopilotView { last_run_at: Some(now), updated_at: now, ..ap }
}

/// A record at the start of the program: a run that is still in progress was interrupted.
pub open spec fn reconciled(ap: AutopilotView, now: u64) -> AutopilotView {
    if ap.run_status == Some(RunStatus::InProgress) {
        AutopilotView { run_status: Some(RunStatus::Interrupted), updated_at: now, ..ap }
    } else {
        ap
    }
}

/// A record after a run: the counts, the jobs, the outcome that the summaries show, and the
/// summaries without the verdicts on the boards' health.
pub open spec fn after_run(
    ap: AutopilotView,
    total_found: u32,
    total_applied: u32,
    jobs: Seq<FoundJobView>,
    summaries: Seq<SummaryView>,
    now: u64,
) -> AutopilotView {
    AutopilotView {
        total_found,
        total_applied,
        found_jobs: jobs,
        run_status: Some(run_status_of(summaries)),
        last_run_summaries: without_health(summaries),
        last_run_at: Some(now),
        updated_at: now,
        ..ap
    }
}

/// A store with the record of an id changed; without such a record it stays as it is.
pub open spec fn with_record(
    store: Map<Seq<char>, AutopilotView>,
    id: Seq<char>,
    ap: AutopilotView,
) -> Map<Seq<char>, AutopilotView> {
    if store.contains_key(id) {
        store.insert(id, ap)
    } else {
        store
    }
}

/// Whether the jobs and the count are what a run makes of the jobs before it: the postings of
/// the run are merged in, the merged list is grouped, the verdicts are written on it, and the
/// groups whose members are all new are counted.
pub open spec fn run_merged<
    F: Fn(&str, &str, &str) -> String,
    G: Fn(&Vec<ClusterInput>) -> Vec<ClusterAssignment>,
    H: Fn(&Vec<ClusterAssignment>, &Vec<String>) -> u32,
>(
    identify: F,
    assign: G,
    count_new: H,
    existing: Seq<FoundJobView>,
    incoming: Seq<FoundJobView>,
    jobs: Seq<FoundJobView>,
    count: u32,
) -> bool {
    exists|
        rows: Seq<FoundJobView>,
        keys: Seq<Seq<char>>,
        verdicts: Vec<ClusterAssignment>,
        fresh: Vec<String>,
    |
        #![trigger assigned_by(identify, assign, rows, keys, verdicts), count_new.ensures((&verdicts, &fresh), count)]
        {
            &&& merged_by(identify, existing, incoming, rows)
            &&& assigned_by(identify, assign, rows, keys, verdicts)
            &&& jobs == annotated(rows, assignments_view(verdicts@))
            &&& texts(fresh@) == new_keys(rows, keys)
            &&& count_new.ensures((&verdicts, &fresh), count)
        }
}

impl AutopilotStore {
    /// What changing the record at `i` in place does to the map.
    proof fn lemma_changed(before: Seq<Autopilot>, after: Seq<Autopilot>, i: int)
        requires
            ids_distinct(autopilots_view(before)),
            0 <= i < before.len(),
            after.len() == before.len(),
            forall|k: int| 0 <= k < before.len() && k != i ==> (#[trigger] after[k]) == before[k],
            after[i]@.id == before[i]@.id,
        ensures
            ids_distinct(autopilots_view(after)),
            by_id(autopilots_view(after)) == by_id(autopilots_view(before)).insert(
                before[i]@.id,
                after[i]@,
            ),
    {
        by_id_of_update(autopilots_view(before), i, after[i]@);
        assert(autopilots_view(after) =~= autopilots_view(before).update(i, after[i]@));
    }

    /// Sets whether an autopilot runs.
    pub fn set_status(&mut self, id: &str, status: AutopilotStatus, now: u64)
        requires
            old(self).valid(),
        ensures
            final(self).valid(),
            final(self)@ == with_record(
                old(self)@,
                id@,
                with_status(old(self)@[id@], status, now),
            ),
    {
        let ghost before = self.records@;
        if let Some(i) = self.position(id) {
            self.records[i].status = status;
            self.records[i].updated_at = now;
            proof {
                Self::lemma_changed(before, self.records@, i as int);
                assert(self.records@[i as int]@ =~= with_status(before[i as int]@, status, now));
            }
        }
    }

    /// Sets the outcome of the latest run.
    pub fn set_run_status(&mut self, id: &str, status: RunStatus, now: u64)
        requires
            old(self).valid(),
        ensures
            final(self).valid(),
            final(self)@ == with_record(
                old(self)@,
                id@,
                with_run_status(old(self)@[id@], status, now),
            ),
    {
        let ghost before = self.records@;
        if let Some(i) = self.position(id) {
            self.records[i].run_status = Some(status);
            self.records[i].updated_at = now;
            proof {
                Self::lemma_changed(before, self.records@, i as int);
                assert(self.records@[i as int]@ =~= with_run_status(
                    before[i as int]@,
                    status,
                    now,
                ));
            }
        }
    }

    /// Sets the outcome of a run that has no summaries to report, and drops those of the run
    /// before, which would otherwise look like its own.
    pub fn set_run_status_clearing_summaries(&mut self, id: &str, status: RunStatus, now: u64)
        requires
            old(self).valid(),
        ensures
            final(self).valid(),
            final(self)@ == with_record(
                old(self)@,
                id@,
                with_bare_run_status(old(self)@[id@], status, now),
            ),
    {
        let ghost before = self.records@;
        if let Some(i) = self.position(id) {
            self.records[i].run_status = Some(status);
            self.records[i].last_run_summaries = Vec::new();
            self.records[i].updated_at = now;
            proof {
                Self::lemma_changed(before, self.records@, i as int);
                assert(summaries_view(self.records@[i as int].last_run_summaries@)
                    =~= Seq::empty());
                assert(self.records@[i as int]@ =~= with_bare_run_status(
                    before[i as int]@,
                    status,
                    now,
                ));
            }
        }
    }

    /// Marks a run as failed before it had any summaries.
    pub fn fail_run_without_summaries(&mut self, id: &str, now: u64)
        requires
            old(self).valid(),
        ensures
            final(self).valid(),
            final(self)@ == with_record(
                old(self)@,
                id@,
                with_bare_run_status(old(self)@[id@], RunStatus::Failed, now),
            ),
    {
        self.set_run_status_clearing_summaries(id, RunStatus::Failed, now);
    }

    /// Notes that an autopilot ran.
    pub fn stamp_last_run(&mut self, id: &str, now: u64)
        requires
            old(self).valid(),
        ensures
            final(self).valid(),
            final(self)@ == with_record(old(self)@, id@, with_last_run(old(self)@[id@], now)),
    {
        let ghost before = self.records@;
        if let Some(i) = self.position(id) {
            self.records[i].last_run_at = Some(now);
            self.records[i].updated_at = now;
            proof {
                Self::lemma_changed(before, self.records@, i as int);
                assert(self.records@[i as int]@ =~= with_last_run(before[i as int]@, now));
            }
        }
    }

    /// Marks the runs that are still in progress as interrupted, and says which ones.
    pub fn mark_interrupted_runs(&mut self, now: u64) -> (r: Vec<String>)
        requires
            old(self).valid(),
        ensures
            final(self).valid(),
            final(self)@ == old(self)@.map_values(|ap: AutopilotView| reconciled(ap, now)),
            texts(r@).no_duplicates(),
            forall|id: Seq<char>| #[trigger]
                texts(r@).contains(id) <==> old(self)@.contains_key(id)
                    && old(self)@[id].run_status == Some(RunStatus::InProgress),
    {
        let ghost before = self.records@;
        let ghost s = autopilots_view(before);
        let mut ids: Vec<String> = Vec::new();
        let mut i: usize = 0;
        while i < self.records.len()
            invariant
                i <= self.records@.len(),
                self.records@.len() == before.len(),
                s == autopilots_view(before),
                ids_distinct(s),
                forall|k: int|
                    0 <= k < i ==> (#[trigger] self.records@[k])@ == reconciled(before[k]@, now),
                forall|k: int| i <= k < before.len() ==> (#[trigger] self.records@[k]) == before[k],
                texts(ids@).no_duplicates(),
                forall|id: Seq<char>| #[trigger]
                    texts(ids@).contains(id) <==> exists|k: int|
                        0 <= k < i && (#[trigger] s[k]).id == id && s[k].run_status == Some(
                            RunStatus::InProgress,
                        ),
            decreases self.records@.len() - i,
        {
            let running: bool = match self.records[i].run_status {
                Some(status) => status == RunStatus::InProgress,
                None => false,
            };
            let ghost done = texts(ids@);
            let ghost at = s[i as int];
            if running {
                self.records[i].run_status = Some(RunStatus::Interrupted);
                self.records[i].updated_at = now;
                assert(self.records@[i as int]@ =~= reconciled(before[i as int]@, now));
                ids.push(self.records[i].id.clone());
                proof {
                    assert(texts(ids@) =~= done.push(at.id));
                    if done.contains(at.id) {
                        let k = choose|k: int|
                            0 <= k < i && (#[trigger] s[k]).id == at.id && s[k].run_status == Some(
                                RunStatus::InProgress,
                            );
                        assert(s[k].id != s[i as int].id);
                    }
                    assert forall|id: Seq<char>| #[trigger]
                        texts(ids@).contains(id) <==> exists|k: int|
                            0 <= k < i + 1 && (#[trigger] s[k]).id == id && s[k].run_status == Some(
                                RunStatus::InProgress,
                            ) by {
                        if done.contains(id) {
                            let j = choose|j: int| 0 <= j < done.len() && done[j] == id;
                            assert(texts(ids@)[j] == id);
                        }
                        if id == at.id {
                            assert(texts(ids@)[done.len() as int] == id);
                            assert(s[i as int].id == id);
                        }
                        if texts(ids@).contains(id) && id != at.id {
                            let j = choose|j: int|
                                0 <= j < texts(ids@).len() && texts(ids@)[j] == id;
                            assert(done[j] == id);
                        }
                    }
                }
            }
            i = i + 1;
        }
        proof {
            let t = autopilots_view(self.records@);
            let f = |ap: AutopilotView| reconciled(ap, now);
            assert forall|k: int| 0 <= k < s.len() implies (#[trigger] t[k]) == f(s[k]) && t[k].id
                == s[k].id by {
                assert(self.records@[k]@ == reconciled(before[k]@, now));
            }
            by_id_of_map(s, t, f);
            by_id_at(s);
            by_id_has_ids(s);
            assert forall|id: Seq<char>| #[trigger]
                texts(ids@).contains(id) <==> by_id(s).contains_key(id) && by_id(s)[id].run_status
                    == Some(RunStatus::InProgress) by {
                if texts(ids@).contains(id) {
                    let k = choose|k: int|
                        0 <= k < s.len() && (#[trigger] s[k]).id == id && s[k].run_status == Some(
                            RunStatus::InProgress,
                        );
                    assert(by_id(s)[s[k].id] == s[k]);
                }
                if by_id(s).contains_key(id) && by_id(s)[id].run_status == Some(
                    RunStatus::InProgress,
                ) {
                    let k = choose|k: int| 0 <= k < s.len() && (#[trigger] s[k]).id == id;
                    assert(by_id(s)[s[k].id] == s[k]);
                }
            }
        }
        ids
    }

    fn relax_all(&mut self)
        requires
            old(self).valid(),
        ensures
            final(self).valid(),
            final(self)@ == old(self)@.map_values(|ap: AutopilotView| relaxed(ap)),
    {
        let ghost before = self.records@;
        let ghost s = autopilots_view(before);
        let mut i: usize = 0;
        while i < self.records.len()
            invariant
                i <= self.records@.len(),
                self.records@.len() == before.len(),
                forall|k: int|
                    0 <= k < i ==> (#[trigger] self.records@[k])@ == relaxed(before[k]@),
                forall|k: int| i <= k < before.len() ==> (#[trigger] self.records@[k]) == before[k],
            decreases self.records@.len() - i,
        {
            relax_legacy_filters(&mut self.records[i]);
            i = i + 1;
        }
        proof {
            let t = autopilots_view(self.records@);
            let f = |ap: AutopilotView| relaxed(ap);
            assert forall|k: int| 0 <= k < s.len() implies (#[trigger] t[k]) == f(s[k]) && t[k].id
                == s[k].id by {
                assert(self.records@[k]@ == relaxed(before[k]@));
            }
            by_id_of_map(s, t, f);
        }
    }

    /// Takes the filters that older versions filled in out of every record, unless a mark says
    /// that this was done before: then nothing is kept either. `persist` keeps the relaxed records,
    /// and no others, and says whether that worked. Returns whether the mark is to be set: only
    /// what was kept counts as done.
    pub fn relax_legacy_filters_once<P: Fn(&AutopilotStore) -> bool>(
        &mut self,
        marked: bool,
        persist: &P,
    ) -> (r: bool)
        requires
            old(self).valid(),
            !marked ==> forall|store: &AutopilotStore| #[trigger]
                store.valid() && store@ == old(self)@.map_values(|ap: AutopilotView| relaxed(ap))
                    ==> persist.requires((store,)),
        ensures
            final(self).valid(),
            marked ==> !r && final(self)@ == old(self)@,
            !marked ==> final(self)@ == old(self)@.map_values(|ap: AutopilotView| relaxed(ap))
                && persist.ensures((&*final(self),), r),
    {
        if marked {
            return false;
        }
        self.relax_all();
        persist(self)
    }

    /// Records the outcome of a run: the counts, the jobs merged with those of earlier runs, the
    /// grouping, the summaries and the status that they show. Returns how many groups are new
    /// by `count_new`. Without such a record nothing happens, and nothing is new.
    ///
    /// `identify` makes a job's merge key of its address, title and company, and `assign` groups
    /// jobs.
    pub fn record_run<
        F: Fn(&str, &str, &str) -> String,
        G: Fn(&Vec<ClusterInput>) -> Vec<ClusterAssignment>,
        H: Fn(&Vec<ClusterAssignment>, &Vec<String>) -> u32,
    >(
        &mut self,
        id: &str,
        total_found: u32,
        total_applied: u32,
        found_jobs: Vec<FoundJob>,
        summaries: Vec<BoardScrapeSummary>,
        identify: &F,
        assign: &G,
        count_new: &H,
        now: u64,
    ) -> (r: u32)
        requires
            old(self).valid(),
            forall|url: &str, title: &str, company: &str| identify.requires((url, title, company)),
            forall|inputs: Vec<ClusterInput>| assign.requires((&inputs,)),
            forall|verdicts: Vec<ClusterAssignment>, fresh: Vec<String>|
                count_new.requires((&verdicts, &fresh)),
        ensures
            final(self).valid(),
            old(self)@.contains_key(id@) ==> exists|jobs: Seq<FoundJobView>| #[trigger]
                run_merged(
                    *identify,
                    *assign,
                    *count_new,
                    old(self)@[id@].found_jobs,
                    jobs_view(found_jobs@),
                    jobs,
                    r,
                ) && final(self)@ == old(self)@.insert(
                    id@,
                    after_run(
                        old(self)@[id@],
                        total_found,
                        total_applied,
                        jobs,
                        summaries_view(summaries@),
                        now,
                    ),
                ),
            !old(self)@.contains_key(id@) ==> r == 0 && final(self)@ == old(self)@,
    {
        let ghost before = self.records@;
        match self.position(id) {
            Some(i) => {
                let ghost existing = self.records@[i as int]@.found_jobs;
                let mut jobs: Vec<FoundJob> = merge_found_jobs(
                    &self.records[i].found_jobs,
                    found_jobs,
                    identify,
                );
                let ghost rows = jobs_view(jobs@);
                let keys: Vec<String> = merge_keys(&jobs, identify);
                let fresh: Vec<String> = new_job_keys(&jobs, &keys);
                let verdicts: Vec<ClusterAssignment> = cluster_keyed_jobs(
                    &mut jobs,
                    &keys,
                    assign,
                );
                let count: u32 = count_new(&verdicts, &fresh);
                let status: RunStatus = derive_run_status(summaries.as_slice());
                let mut kept: Vec<BoardScrapeSummary> = summaries;
                strip_summaries(&mut kept);
                let ghost jv = jobs_view(jobs@);
                self.records[i].total_found = total_found;
                self.records[i].total_applied = total_applied;
                self.records[i].found_jobs = jobs;
                self.records[i].run_status = Some(status);
                self.records[i].last_run_summaries = kept;
                self.records[i].last_run_at = Some(now);
                self.records[i].updated_at = now;
                proof {
                    Self::lemma_changed(before, self.records@, i as int);
                    assert(self.records@[i as int]@ =~= after_run(
                        before[i as int]@,
                        total_found,
                        total_applied,
                        jv,
                        summaries_view(summaries@),
                        now,
                    ));
                    assert(run_merged(
                        *identify,
                        *assign,
                        *count_new,
                        existing,
                        jobs_view(found_jobs@),
                        jv,
                        count,
                    )) by {
                        assert(assigned_by(*identify, *assign, rows, texts(keys@), verdicts));
                        assert(count_new.ensures((&verdicts, &fresh), count));
                    }
                }
                count
            },
            None => 0,
        }
    }

    /// Groups the jobs of a record anew. Without such a record nothing happens.
    pub fn recompute_record_clusters<
        F: Fn(&str, &str, &str) -> String,
        G: Fn(&Vec<ClusterInput>) -> Vec<ClusterAssignment>,
    >(&mut self, id: &str, identify: &F, assign: &G, now: u64)
        requires
            old(self).valid(),
            forall|url: &str, title: &str, company: &str| identify.requires((url, title, company)),
            forall|inputs: Vec<ClusterInput>| assign.requires((&inputs,)),
        ensures
            final(self).valid(),
            old(self)@.contains_key(id@) ==> exists|
                keys: Seq<Seq<char>>,
                verdicts: Vec<ClusterAssignment>,
            |
                #![trigger assigned_by(*identify, *assign, old(self)@[id@].found_jobs, keys, verdicts)]
                assigned_by(*identify, *assign, old(self)@[id@].found_jobs, keys, verdicts)
                    && final(self)@ == old(self)@.insert(
                    id@,
                    AutopilotView {
                        found_jobs: annotated(
                            old(self)@[id@].found_jobs,
                            assignments_view(verdicts@),
                        ),
                        updated_at: now,
                        ..old(self)@[id@]
                    },
                ),
            !old(self)@.contains_key(id@) ==> final(self)@ == old(self)@,
    {
        let ghost before = self.records@;
        if let Some(i) = self.position(id) {
            let (keys, verdicts) = cluster_found_jobs(
                &mut self.records[i].found_jobs,
                identify,
                assign,
            );
            self.records[i].updated_at = now;
            proof {
                Self::lemma_changed(before, self.records@, i as int);
                let ap = before[i as int]@;
                assert(self.records@[i as int]@ =~= AutopilotView {
                    found_jobs: annotated(ap.found_jobs, assignments_view(verdicts@)),
                    updated_at: now,
                    ..ap
                });
                assert(assigned_by(*identify, *assign, ap.found_jobs, texts(keys@), verdicts));
            }
        }
    }
}

// ── Corrected descriptions ──────────────────────────────────────────────────

/// A job with a corrected description, and with the trust that goes with it. Its score stays,
/// and so does what is said of the score.
pub open spec fn corrected(job: FoundJobView, description: Seq<char>, trust: TrustView) -> FoundJobView {
    FoundJobView { description: Some(description), trust: Some(trust), ..job }
}

/// Whether a job came out of a correction: `hit` says whether `normalize` gives its address the
/// wanted form, and a hit has the description and the trust that `assess` finds for its address,
/// its company and the description.
pub open spec fn job_corrected<
    N: Fn(&str) -> String,
    A: Fn(&str, &str, &str) -> TrustAssessment,
>(
    normalize: N,
    assess: A,
    before: FoundJobView,
    after: FoundJobView,
    url: Seq<char>,
    description: Seq<char>,
    hit: bool,
) -> bool {
    &&& exists|u: &str, address: String|
        u@ == before.url && hit == (address@ == url) && #[trigger] normalize.ensures((u,), address)
    &&& hit ==> exists|u: &str, company: &str, text: &str, trust: TrustAssessment|
        u@ == before.url && company@ == before.company && text@ == description && after
            == corrected(before, description, trust@) && #[trigger] assess.ensures(
            (u, company, text),
            trust,
        )
    &&& !hit ==> after == before
}

/// How many of the flags are set.
pub open spec fn set_flags(hits: Seq<bool>) -> nat
    decreases hits.len(),
{
    if hits.len() == 0 {
        0
    } else {
        set_flags(hits.drop_last()) + (if hits.last() {
            1nat
        } else {
            0
        })
    }
}

/// How many of the flags of all lists are set.
pub open spec fn all_set_flags(hits: Seq<Seq<bool>>) -> nat
    decreases hits.len(),
{
    if hits.len() == 0 {
        0
    } else {
        all_set_flags(hits.drop_last()) + set_flags(hits.last())
    }
}

/// Whether a record came out of a correction with these hits: every job came out of it, and the
/// record was changed at `now` where there was a hit.
pub open spec fn record_corrected<
    N: Fn(&str) -> String,
    A: Fn(&str, &str, &str) -> TrustAssessment,
>(
    normalize: N,
    assess: A,
    before: AutopilotView,
    after: AutopilotView,
    url: Seq<char>,
    description: Seq<char>,
    hits: Seq<bool>,
    now: u64,
) -> bool {
    &&& hits.len() == before.found_jobs.len()
    &&& after.found_jobs.len() == before.found_jobs.len()
    &&& forall|i: int|
        0 <= i < hits.len() ==> job_corrected(
            normalize,
            assess,
            before.found_jobs[i],
            #[trigger] after.found_jobs[i],
            url,
            description,
            hits[i],
        )
    &&& after == (AutopilotView {
        found_jobs: after.found_jobs,
        updated_at: if set_flags(hits) > 0 {
            now
        } else {
            before.updated_at
        },
        ..before
    })
}

/// Corrects the description of every job of a record whose address has the wanted form, and
/// says how many there were.
pub fn correct_descriptions<
    N: Fn(&str) -> String,
    A: Fn(&str, &str, &str) -> TrustAssessment,
>(
    ap: &mut Autopilot,
    normalized_url: &str,
    description: &str,
    normalize: &N,
    assess: &A,
    now: u64,
) -> (r: usize)
    requires
        forall|url: &str| normalize.requires((url,)),
        forall|url: &str, company: &str, text: &str| assess.requires((url, company, text)),
    ensures
        exists|hits: Seq<bool>| #[trigger]
            record_corrected(
                *normalize,
                *assess,
                old(ap)@,
                final(ap)@,
                normalized_url@,
                description@,
                hits,
                now,
            ) && r == set_flags(hits),
{
    let ghost before = *ap;
    let ghost mut hits: Seq<bool> = Seq::empty();
    let mut updated: usize = 0;
    let mut i: usize = 0;
    while i < ap.found_jobs.len()
        invariant
            i <= ap.found_jobs@.len(),
            ap.found_jobs@.len() == before.found_jobs@.len(),
            *ap == (Autopilot { found_jobs: ap.found_jobs, ..before }),
            forall|url: &str| normalize.requires((url,)),
            forall|url: &str, company: &str, text: &str| assess.requires((url, company, text)),
            hits.len() == i,
            updated == set_flags(hits),
            updated <= i,
            forall|k: int|
                0 <= k < i ==> job_corrected(
                    *normalize,
                    *assess,
                    before.found_jobs@[k]@,
                    (#[trigger] ap.found_jobs@[k])@,
                    normalized_url@,
                    description@,
                    hits[k],
                ),
            forall|k: int|
                i <= k < before.found_jobs@.len() ==> (#[trigger] ap.found_jobs@[k])
                    == before.found_jobs@[k],
        decreases ap.found_jobs@.len() - i,
    {
        let ghost job = ap.found_jobs@[i as int];
        let address: String = {
            let url: &str = ap.found_jobs[i].url.as_str();
            let address: String = normalize(url);
            assert(normalize.ensures((url,), address));
            address
        };
        let hit: bool = str_eq(address.as_str(), normalized_url);
        if hit {
            let trust: TrustAssessment = {
                let url: &str = ap.found_jobs[i].url.as_str();
                let company: &str = ap.found_jobs[i].company.as_str();
                let trust: TrustAssessment = assess(url, company, description);
                assert(assess.ensures((url, company, description), trust));
                trust
            };
            ap.found_jobs[i].description = Some(owned(description));
            ap.found_jobs[i].trust = Some(trust);
            assert(ap.found_jobs@[i as int]@ =~= corrected(job@, description@, trust@));
            updated = updated + 1;
        }
        proof {
            let longer = hits.push(hit);
            assert(longer.drop_last() =~= hits);
            assert(job_corrected(
                *normalize,
                *assess,
                job@,
                ap.found_jobs@[i as int]@,
                normalized_url@,
                description@,
                hit,
            ));
            hits = longer;
        }
        i = i + 1;
    }
    if updated > 0 {
        ap.updated_at = now;
    }
    assert(record_corrected(
        *normalize,
        *assess,
        before@,
        ap@,
        normalized_url@,
        description@,
        hits,
        now,
    ));
    updated
}

impl AutopilotStore {
    /// Corrects the description of every job, in every record, whose address `normalize` gives
    /// the wanted form. `assess` says how far a job with this
    /// address, company and description can be trusted.
    /// Returns how many jobs were corrected, at most the largest number of its type.
    pub fn update_found_job_descriptions<
        N: Fn(&str) -> String,
        A: Fn(&str, &str, &str) -> TrustAssessment,
    >(
        &mut self,
        normalized_url: &str,
        description: &str,
        normalize: &N,
        assess: &A,
        now: u64,
    ) -> (r: u32)
        requires
            old(self).valid(),
            forall|url: &str| normalize.requires((url,)),
            forall|url: &str, company: &str, text: &str| assess.requires((url, company, text)),
        ensures
            final(self).valid(),
            final(self).rows().len() == old(self).rows().len(),
            exists|hits: Seq<Seq<bool>>|
                #![trigger all_set_flags(hits)]
                {
                    &&& hits.len() == old(self).rows().len()
                    &&& forall|i: int|
                        0 <= i < hits.len() ==> record_corrected(
                            *normalize,
                            *assess,
                            old(self).rows()[i]@,
                            final(self).rows()[i]@,
                            normalized_url@,
                            description@,
                            #[trigger] hits[i],
                            now,
                        )
                    &&& r == if all_set_flags(hits) > u32::MAX {
                        u32::MAX as nat
                    } else {
                        all_set_flags(hits)
                    }
                },
    {
        let ghost before = self.records@;
        let ghost mut hits: Seq<Seq<bool>> = Seq::empty();
        let mut updated: u32 = 0;
        let mut i: usize = 0;
        while i < self.records.len()
            invariant
                i <= self.records@.len(),
                self.records@.len() == before.len(),
                forall|url: &str| normalize.requires((url,)),
                forall|url: &str, company: &str, text: &str| assess.requires((url, company, text)),
                hits.len() == i,
                updated == if all_set_flags(hits) > u32::MAX {
                    u32::MAX as nat
                } else {
                    all_set_flags(hits)
                },
                forall|k: int|
                    0 <= k < i ==> record_corrected(
                        *normalize,
                        *assess,
                        before[k]@,
                        self.records@[k]@,
                        normalized_url@,
                        description@,
                        #[trigger] hits[k],
                        now,
                    ),
                forall|k: int| i <= k < before.len() ==> (#[trigger] self.records@[k]) == before[k],
            decreases self.records@.len() - i,
        {
            let n: usize = correct_descriptions(
                &mut self.records[i],
                normalized_url,
                description,
                normalize,
                assess,
                now,
            );
            let ghost found = choose|found: Seq<bool>| #[trigger]
                record_corrected(
                    *normalize,
                    *assess,
                    before[i as int]@,
                    self.records@[i as int]@,
                    normalized_url@,
                    description@,
                    found,
                    now,
                ) && n == set_flags(found);
            proof {
                let longer = hits.push(found);
                assert(longer.drop_last() =~= hits);
                hits = longer;
            }
            updated = if n as u128 > (u32::MAX - updated) as u128 {
                u32::MAX
            } else {
                updated + n as u32
            };
            i = i + 1;
        }
        proof {
            let s = autopilots_view(before);
            let t = autopilots_view(self.records@);
            assert forall|a: int, b: int| 0 <= a < b < t.len() implies (#[trigger] t[a]).id != (
            #[trigger] t[b]).id by {
                assert(hits[a].len() >= 0);
                assert(hits[b].len() >= 0);
                assert(s[a].id != s[b].id);
            }
        }
        updated
    }
}

// ── Backups ─────────────────────────────────────────────────────────────────

impl AutopilotStore {
    /// The name of the store in a backup.
    pub fn key(&self) -> (r: &'static str)
        ensures
            r@ == "autopilots"@,
    {
        "autopilots"
    }

    /// The records for a backup: newest first, without the verdicts on the boards' health.
    pub fn export(&self) -> (r: Vec<Autopilot>)
        requires
            self.valid(),
        ensures
            newest_first_order(autopilots_view(r@)),
            ids_distinct(autopilots_view(r@)),
            by_id(autopilots_view(r@)) == self@.map_values(|ap: AutopilotView| stripped(ap)),
    {
        let mut list: Vec<Autopilot> = self.list();
        let ghost s = autopilots_view(list@);
        strip_board_health(&mut list);
        proof {
            let t = autopilots_view(list@);
            let f = |ap: AutopilotView| stripped(ap);
            assert forall|i: int| 0 <= i < s.len() implies (#[trigger] t[i]) == f(s[i]) && t[i].id
                == s[i].id by {
                assert(list@[i]@ == stripped(s[i]));
            }
            by_id_of_map(s, t, f);
            assert forall|i: int, j: int| 0 <= i < j < t.len() implies listed_before(
                #[trigger] t[i],
                #[trigger] t[j],
            ) by {
                assert(listed_before(s[i], s[j]));
            }
        }
        list
    }

    /// Restores the records of a backup in place of all records, without the verdicts on the
    /// boards' health. Returns how many records the backup has.
    pub fn import(&mut self, items: Vec<Autopilot>) -> (r: usize)
        ensures
            final(self).valid(),
            final(self)@ == by_id(
                autopilots_view(items@).map_values(|ap: AutopilotView| stripped(ap)),
            ),
            r == items@.len(),
    {
        let ghost s = autopilots_view(items@);
        let count: usize = items.len();
        let mut items: Vec<Autopilot> = items;
        strip_board_health(&mut items);
        assert(autopilots_view(items@) =~= s.map_values(|ap: AutopilotView| stripped(ap)));
        self.replace_all(items);
        count
    }

    /// A store of records that were read from outside, without the verdicts on the boards'
    /// health. Where a record could not be read, only that one is missing.
    pub fn load(rows: &Vec<Option<Autopilot>>) -> (r: Self)
        ensures
            r.valid(),
            r@ == by_id(readable(rows@).map_values(|ap: AutopilotView| stripped(ap))),
    {
        let mut items: Vec<Autopilot> = Vec::new();
        let mut i: usize = 0;
        assert(rows@.take(0) =~= Seq::empty());
        assert(autopilots_view(items@) =~= Seq::empty());
        while i < rows.len()
            invariant
                i <= rows@.len(),
                autopilots_view(items@) == readable(rows@.take(i as int)),
            decreases rows@.len() - i,
        {
            assert(rows@.take(i as int + 1).drop_last() =~= rows@.take(i as int));
            let ghost before = autopilots_view(items@);
            match &rows[i] {
                Some(ap) => {
                    items.push(ap.clone());
                    assert(autopilots_view(items@) =~= before.push(rows@[i as int]->0@));
                },
                None => {},
            }
            i = i + 1;
        }
        assert(rows@.take(rows@.len() as int) =~= rows@);
        let mut store: AutopilotStore = AutopilotStore::new();
        store.import(items);
        store
    }
}

/// The records that could be read, in their order.
pub open spec fn readable(rows: Seq<Option<Autopilot>>) -> Seq<AutopilotView>
    decreases rows.len(),
{
    if rows.len() == 0 {
        Seq::empty()
    } else {
        match rows.last() {
            Some(ap) => readable(rows.drop_last()).push(ap@),
            None => readable(rows.drop_last()),
        }
    }
}

/// Whether a text has to be written where `on_disk` is what is there, none where that cannot be
/// read. What is there already is not written again.
pub fn needs_write(on_disk: Option<&str>, text: &str) -> (r: bool)
    ensures
        r == (opt_str(on_disk) != Some(text@)),
{
    match on_disk {
        Some(there) => !str_eq(there, text),
        None => true,
    }
}

} // verus!
