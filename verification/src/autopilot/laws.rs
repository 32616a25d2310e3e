//! What the operations on records promise together.
use vstd::prelude::*;

use crate::autopilot::cluster::{ClusterAssignment, ClusterInput};
use crate::autopilot::merge::{keys_by, merge_keeps_known_jobs, merged, merged_by};
use crate::autopilot::model::{
    AutopilotView, FilterView, FoundJobView, RunStatus, SummaryView, TargetView, TrustView,
};
use crate::autopilot::records::{by_id, by_id_of_map, ids_distinct};
use crate::autopilot::relax::{relaxed, relaxed_is_final};
use crate::autopilot::requests::{created, patched};
use crate::autopilot::status::{stripped, stripped_has_no_health};
use crate::autopilot::store::{after_run, corrected, reconciled, run_merged};
use crate::json::{EntryView, JsonView};

verus! {

/// Whether the time at which a record runs is a time of the day.
pub open spec fn schedule_in_range(ap: AutopilotView) -> bool {
    &&& ap.schedule_hour is Some ==> ap.schedule_hour->0 <= 23
    &&& ap.schedule_minute is Some ==> ap.schedule_minute->0 <= 59
}

/// A record is created with a time of the day or none, whatever the request says.
pub proof fn created_schedule_in_range(
    input: JsonView,
    target: Option<TargetView>,
    filter: Option<FilterView>,
    id: Seq<char>,
    now: u64,
)
    ensures
        schedule_in_range(created(input, target, filter, id, now)),
{
}

/// A patch keeps the time of a record a time of the day, whatever it says.
pub proof fn patched_schedule_in_range(
    ap: AutopilotView,
    patch: JsonView,
    target: Option<TargetView>,
    filter: Option<FilterView>,
    now: u64,
)
    requires
        schedule_in_range(ap),
    ensures
        schedule_in_range(patched(ap, patch, target, filter, now)),
{
}

/// No patch reaches the identity of a record, when it was created, or anything that its runs
/// have recorded.
pub proof fn patched_keeps_runs(
    ap: AutopilotView,
    patch: JsonView,
    target: Option<TargetView>,
    filter: Option<FilterView>,
    now: u64,
)
    ensures
        ({
            let after = patched(ap, patch, target, filter, now);
            &&& after.id == ap.id
            &&& after.created_at == ap.created_at
            &&& after.total_found == ap.total_found
            &&& after.total_applied == ap.total_applied
            &&& after.found_jobs == ap.found_jobs
            &&& after.run_status == ap.run_status
            &&& after.last_run_summaries == ap.last_run_summaries
            &&& after.last_run_at == ap.last_run_at
        }),
{
}

/// A patch that names nothing changes nothing but when the record was changed.
pub proof fn empty_patch_only_stamps(ap: AutopilotView, now: u64)
    ensures
        patched(ap, JsonView::Object(Seq::<EntryView>::empty()), None, None, now) == (
        AutopilotView { updated_at: now, ..ap }),
{
    assert(patched(ap, JsonView::Object(Seq::<EntryView>::empty()), None, None, now)
        =~= AutopilotView { updated_at: now, ..ap });
}

/// Switching the notes off leaves no provider behind that the same patch does not name.
pub proof fn switching_notes_off_clears_provider(
    ap: AutopilotView,
    patch: JsonView,
    target: Option<TargetView>,
    filter: Option<FilterView>,
    now: u64,
)
    requires
        patch.boolean_at("assistant"@) == Some(false),
    ensures
        ({
            let after = patched(ap, patch, target, filter, now);
            &&& !after.assistant
            &&& after.assistant_provider == patch.text_at("assistantProvider"@)
            &&& after.assistant_model == patch.text_at("assistantModel"@)
            &&& after.assistant_base_url == patch.text_at("assistantBaseUrl"@)
        }),
{
}

/// After the sweep at the start no run is in progress, and a second sweep finds nothing.
pub proof fn reconciled_is_final(store: Map<Seq<char>, AutopilotView>, first: u64, second: u64)
    ensures
        ({
            let once = store.map_values(|ap: AutopilotView| reconciled(ap, first));
            &&& forall|id: Seq<char>| #[trigger]
                once.contains_key(id) ==> once[id].run_status != Some(RunStatus::InProgress)
            &&& once.map_values(|ap: AutopilotView| reconciled(ap, second)) == once
        }),
{
    let once = store.map_values(|ap: AutopilotView| reconciled(ap, first));
    assert(once.map_values(|ap: AutopilotView| reconciled(ap, second)) =~= once);
}

/// Loosening the filters of a whole store again changes nothing.
pub proof fn relaxing_store_is_final(store: Map<Seq<char>, AutopilotView>)
    ensures
        ({
            let once = store.map_values(|ap: AutopilotView| relaxed(ap));
            once.map_values(|ap: AutopilotView| relaxed(ap)) == once
        }),
{
    let once = store.map_values(|ap: AutopilotView| relaxed(ap));
    let twice = once.map_values(|ap: AutopilotView| relaxed(ap));
    assert forall|id: Seq<char>| once.contains_key(id) implies #[trigger] twice[id] == once[id] by {
        relaxed_is_final(store[id]);
    }
    assert(twice =~= once);
}

/// Restoring the backup of a store gives the store without the verdicts on the boards' health;
/// ids and everything else are kept.
pub proof fn import_restores_export(
    store: Map<Seq<char>, AutopilotView>,
    backup: Seq<AutopilotView>,
)
    requires
        ids_distinct(backup),
        by_id(backup) == store.map_values(|ap: AutopilotView| stripped(ap)),
    ensures
        by_id(backup.map_values(|ap: AutopilotView| stripped(ap))) == store.map_values(
            |ap: AutopilotView| stripped(ap),
        ),
{
    let f = |ap: AutopilotView| stripped(ap);
    let again = backup.map_values(f);
    by_id_of_map(backup, again, f);
    let kept = store.map_values(f);
    assert forall|id: Seq<char>| kept.contains_key(id) implies #[trigger] kept.map_values(f)[id]
        == kept[id] by {
        stripped_has_no_health(store[id]);
    }
    assert(kept.map_values(f) =~= kept);
}

/// What a run records never carries a verdict on a board's health.
pub proof fn run_records_no_health(
    ap: AutopilotView,
    total_found: u32,
    total_applied: u32,
    jobs: Seq<FoundJobView>,
    summaries: Seq<SummaryView>,
    now: u64,
)
    ensures
        ({
            let after = after_run(ap, total_found, total_applied, jobs, summaries, now);
            &&& after.last_run_summaries.len() == summaries.len()
            &&& forall|i: int|
                0 <= i < summaries.len() ==> (#[trigger] after.last_run_summaries[i]).health is None
                    && after.last_run_summaries[i].error == summaries[i].error
        }),
{
}

/// A run keeps every job that was there, below the new ones, with its address, its note and the
/// time at which it was first found.
pub proof fn run_keeps_jobs<
    F: Fn(&str, &str, &str) -> String,
    G: Fn(&Vec<ClusterInput>) -> Vec<ClusterAssignment>,
    H: Fn(&Vec<ClusterAssignment>, &Vec<String>) -> u32,
>(
    identify: F,
    assign: G,
    count_new: H,
    existing: Seq<FoundJobView>,
    incoming: Seq<FoundJobView>,
    jobs: Seq<FoundJobView>,
    count: u32,
)
    requires
        run_merged(identify, assign, count_new, existing, incoming, jobs, count),
    ensures
        jobs.len() >= existing.len(),
        forall|i: int|
            0 <= i < existing.len() ==> (#[trigger] jobs[jobs.len() - existing.len() + i]).url
                == existing[i].url && jobs[jobs.len() - existing.len() + i].found_at
                == existing[i].found_at && jobs[jobs.len() - existing.len() + i].assistant_notes
                == existing[i].assistant_notes && !jobs[jobs.len() - existing.len() + i].is_new,
{
    let rows = choose|rows: Seq<FoundJobView>|
        merged_by(identify, existing, incoming, rows) && jobs.len() == rows.len() && (forall|k: int|
            0 <= k < rows.len() ==> (#[trigger] jobs[k]).url == rows[k].url && jobs[k].found_at
                == rows[k].found_at && jobs[k].assistant_notes == rows[k].assistant_notes
                && jobs[k].is_new == rows[k].is_new);
    let (known, keys) = choose|known: Seq<Seq<char>>, keys: Seq<Seq<char>>|
        #![trigger keys_by(identify, existing, known), keys_by(identify, incoming, keys)]
        keys_by(identify, existing, known) && keys_by(identify, incoming, keys) && rows == merged(
            existing,
            known,
            incoming,
            keys,
        );
    assert forall|i: int| 0 <= i < existing.len() implies (#[trigger] jobs[jobs.len()
        - existing.len() + i]).url == existing[i].url && jobs[jobs.len() - existing.len()
        + i].found_at == existing[i].found_at && jobs[jobs.len() - existing.len()
        + i].assistant_notes == existing[i].assistant_notes && !jobs[jobs.len() - existing.len()
        + i].is_new by {
        merge_keeps_known_jobs(existing, known, incoming, keys, i);
    }
}

/// A corrected description touches neither the score of a job nor what is said of the score.
pub proof fn correction_keeps_score(job: FoundJobView, description: Seq<char>, trust: TrustView)
    ensures
        corrected(job, description, trust).score == job.score,
        corrected(job, description, trust).score_provisional == job.score_provisional,
        corrected(job, description, trust).score_source == job.score_source,
        corrected(job, description, trust).url == job.url,
{
}

} // verus!
