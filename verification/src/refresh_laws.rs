//! What holds of starting up, and of GPUs that come and go.
use crate::blocker::{confirmed, lemma_filter_member};
use crate::blocker_laws::{
    cleared, exp_map, law_clear_empties_the_map, law_list_mirrors_map,
    law_sync_leaves_exactly_the_wanted_entries, mirrors, sync_writes, synced,
};
use crate::debug::{
    answers_refresh, claimed, listed, plan_step, refresh_step, unclaimed, NvidiaPlan, NvidiaRun,
    RefreshState, RefreshStep,
};
use crate::gpu::{removals, GpuInterface};
use crate::gpu_laws::{accounted, differ_in_entries, lemma_removals};
use crate::keys::InodeKey;
use crate::manager::{answers_task, follows_task, StartupState, StartupStep};
use crate::maps::{apply_all, KernelMaps};
use crate::order::{in_order, lemma_in_order};
use crate::roster::all_pushed;
use crate::types::Modes;
use vstd::prelude::*;

verus! {

/// What one of these GPUs had written is among what all of them had.
pub proof fn lemma_all_pushed(list: Map<usize, GpuInterface>, ids: Seq<usize>, id: usize, key: InodeKey)
    requires
        ids.contains(id),
        list[id].pushed().contains(key),
    ensures
        all_pushed(list, ids).contains(key),
    decreases ids.len(),
{
    let rest = ids.drop_last();
    let before = all_pushed(list, rest);
    let all = all_pushed(list, ids);
    let i = choose|i: int| 0 <= i < ids.len() && ids[i] == id;
    if i == ids.len() - 1 {
        let pushed = list[id].pushed();
        let j = choose|j: int| 0 <= j < pushed.len() && pushed[j] == key;
        assert(all[before.len() + j] == key);
    } else {
        assert(rest[i] == id);
        lemma_all_pushed(list, rest, id, key);
        let j = choose|j: int| 0 <= j < before.len() && before[j] == key;
        assert(all[j] == key);
    }
}

/// When all GPUs are no longer served, account is kept of every tracked entry, whatever GPUs are
/// served next: the entries are among those that the old GPUs had written.
pub proof fn law_retired_entries_are_remembered(
    maps: KernelMaps,
    list: Map<usize, GpuInterface>,
    next: Map<usize, GpuInterface>,
)
    requires
        accounted(maps, list, Seq::empty()),
    ensures
        accounted(maps, next, all_pushed(list, in_order(list.dom()))),
{
    let gone = all_pushed(list, in_order(list.dom()));
    assert forall|key: InodeKey| #[trigger] maps.blocked.contains_key(key) implies claimed(
        next,
        key,
    ) || gone.contains(key) by {
        assert(claimed(list, key));
        let id = choose|id: usize| #[trigger]
            list.contains_key(id) && list[id].pushed().contains(key);
        lemma_in_order(list.dom());
        assert(in_order(list.dom()).contains(id));
        lemma_all_pushed(list, in_order(list.dom()), id, key);
    }
}

/// Dropping what no GPU stands for leaves no entry behind: afterwards every tracked entry is on
/// the record of a GPU that is served. Entries that are on record stay as they were, and nothing
/// else changes.
pub proof fn law_refresh_leaves_no_entry_behind(
    maps: KernelMaps,
    list: Map<usize, GpuInterface>,
    gone: Seq<InodeKey>,
)
    requires
        accounted(maps, list, gone),
    ensures
        ({
            let after = apply_all(maps, removals(gone.filter(unclaimed(list))));
            &&& accounted(after, list, Seq::empty())
            &&& differ_in_entries(maps, after)
            &&& forall|key: InodeKey| #[trigger]
                maps.blocked.contains_key(key) && claimed(list, key)
                    ==> after.blocked.contains_key(key) && after.blocked[key] == maps.blocked[key]
        }),
{
    let dropped = gone.filter(unclaimed(list));
    let after = apply_all(maps, removals(dropped));
    lemma_removals(maps, dropped);
    assert forall|key: InodeKey| #[trigger] after.blocked.contains_key(key) implies claimed(
        list,
        key,
    ) by {
        lemma_filter_member(gone, unclaimed(list), key);
        assert(maps.blocked.contains_key(key));
    }
    assert forall|key: InodeKey| #[trigger]
        maps.blocked.contains_key(key) && claimed(list, key) implies after.blocked.contains_key(key)
        && after.blocked[key] == maps.blocked[key] by {
        lemma_filter_member(gone, unclaimed(list), key);
        assert(after.blocked.contains_key(key));
    }
}

/// Keeping up with the bus never saves a mode. A mode that cannot be read or set is answered with
/// hybrid mode, and once the new GPUs are served nothing ends it early: entries of GPUs that are
/// gone are dropped however setting the mode went.
pub proof fn law_refresh_falls_back_to_hybrid(state: RefreshState)
    ensures
        refresh_step(state) matches RefreshStep::SetMode { mode, save } ==> !save && (state
            matches RefreshState::ModeRead(read) && mode == match read {
            Ok(m) => m,
            Err(_) => Modes::Hybrid,
        }),
        refresh_step(state) matches RefreshStep::FallBack { mode, save } ==> !save && mode
            == Modes::Hybrid && (state matches RefreshState::ModeSet(Err(_))),
        state matches RefreshState::ModeSet(Err(_)) ==> refresh_step(state) is FallBack,
        state is FellBack ==> refresh_step(state) is DropUnclaimed,
        refresh_step(state) is Fail ==> state is Read || state is Served,
{
}

/// How much of keeping up with the bus is left.
pub open spec fn refresh_measure(state: RefreshState) -> nat {
    match state {
        RefreshState::Read(_) => 9,
        RefreshState::Retired => 8,
        RefreshState::Rebuilt => 7,
        RefreshState::Served(_) => 6,
        RefreshState::ModeRead(_) => 5,
        RefreshState::ModeSet(_) => 4,
        RefreshState::FellBack(_) => 3,
        RefreshState::Dropped => 2,
        RefreshState::NvidiaSynced(_) => 1,
        RefreshState::Emitted => 0,
    }
}

/// Keeping up with the bus comes to its end: each step leaves fewer to do. In particular hybrid
/// mode is tried in place of another at most once.
pub proof fn law_refresh_ends(state: RefreshState, next: RefreshState)
    requires
        answers_refresh(refresh_step(state), next),
    ensures
        refresh_measure(next) < refresh_measure(state),
{
}

/// How much of the tasks before the daemon runs is left.
pub open spec fn startup_measure(state: StartupState) -> nat {
    match state {
        StartupState::Begun => 7,
        StartupState::PidWhitelisted(_) => 6,
        StartupState::SettingWritten(_) => 5,
        StartupState::NvidiaSynced(_) => 4,
        StartupState::ProgramsWhitelisted(_) => 3,
        StartupState::StatePopulated(_) => 2,
        StartupState::ModeApplied(_) => 1,
        StartupState::FellBack(_) => 0,
    }
}

/// The tasks before the daemon runs come to their end: each leaves fewer to do.
pub proof fn law_startup_ends(state: StartupState, step: StartupStep, next: StartupState)
    requires
        follows_task(state, step),
        answers_task(step, next),
    ensures
        startup_measure(next) < startup_measure(state),
{
}

/// However far a plan for the files of the NVIDIA driver has come, the daemon's list names exactly
/// the entries of the kernel's map, once it has taken note of the pending write.
pub proof fn law_nvidia_run_keeps_the_mirror(
    run: NvidiaRun,
    pushed: Seq<InodeKey>,
    maps: KernelMaps,
)
    requires
        mirrors(pushed, maps),
    ensures
        mirrors(
            listed(run, pushed),
            match run.pending {
                Some(update) => update.apply(maps),
                None => maps,
            },
        ),
{
    if let Some(update) = run.pending {
        law_list_mirrors_map(pushed, maps, update);
    }
}

/// The list and the maps once the writes of a plan have taken place, at most `bound`.
pub open spec fn carried_out(
    plan: NvidiaPlan,
    pushed: Seq<InodeKey>,
    maps: KernelMaps,
    inserted: nat,
    bound: nat,
) -> (Seq<InodeKey>, KernelMaps)
    decreases bound,
{
    match plan_step(plan, pushed, inserted) {
        Some(update) => if bound == 0 {
            (pushed, maps)
        } else {
            carried_out(
                plan,
                confirmed(pushed, update),
                update.apply(maps),
                if update is InsertExpInode {
                    inserted + 1
                } else {
                    inserted
                },
                (bound - 1) as nat,
            )
        },
        None => (pushed, maps),
    }
}

/// How many writes a plan takes.
pub open spec fn plan_writes(plan: NvidiaPlan, pushed: Seq<InodeKey>) -> nat {
    match plan {
        NvidiaPlan::Clear => pushed.len(),
        NvidiaPlan::Sync { keys, .. } => sync_writes(pushed, keys@),
        _ => 0,
    }
}

proof fn lemma_carried_out(
    plan: NvidiaPlan,
    pushed: Seq<InodeKey>,
    maps: KernelMaps,
    inserted: nat,
    bound: nat,
)
    ensures
        carried_out(plan, pushed, maps, inserted, bound) == match plan {
            NvidiaPlan::Clear => cleared(pushed, maps, bound),
            NvidiaPlan::Sync { keys, .. } => synced(pushed, maps, keys@, inserted, bound),
            _ => (pushed, maps),
        },
    decreases bound,
{
    if let Some(update) = plan_step(plan, pushed, inserted) {
        if bound > 0 {
            let count = if update is InsertExpInode {
                inserted + 1
            } else {
                inserted
            };
            lemma_carried_out(
                plan,
                confirmed(pushed, update),
                update.apply(maps),
                count,
                (bound - 1) as nat,
            );
        }
    }
}

/// A plan for the files of the NVIDIA driver that is carried out brings the kernel's map up to
/// date: without a GPU to block them for it is empty, and with one it holds exactly the files that
/// were read, with value 0. Where they could not be read, nothing changes. The other maps never do.
pub proof fn law_nvidia_plan_brings_the_map_up_to_date(
    plan: NvidiaPlan,
    pushed: Seq<InodeKey>,
    maps: KernelMaps,
)
    requires
        mirrors(pushed, maps),
        pushed.no_duplicates(),
    ensures
        ({
            let (list, after) = carried_out(plan, pushed, maps, 0, plan_writes(plan, pushed));
            match plan {
                NvidiaPlan::Clear => after == (KernelMaps { exp: Map::empty(), ..maps }),
                NvidiaPlan::Sync { keys, .. } => after == (KernelMaps {
                    exp: exp_map(keys@),
                    ..maps
                }),
                _ => after == maps && list == pushed,
            }
        }),
{
    lemma_carried_out(plan, pushed, maps, 0, plan_writes(plan, pushed));
    match plan {
        NvidiaPlan::Clear => {
            law_clear_empties_the_map(pushed, maps);
        },
        NvidiaPlan::Sync { keys, .. } => {
            law_sync_leaves_exactly_the_wanted_entries(pushed, maps, keys@);
        },
        _ => {},
    }
}

/// The daemon only runs once a mode was set: the saved one, or hybrid mode in its place. Only a
/// saved mode that cannot be set is passed over.
pub proof fn law_daemon_runs_only_in_a_mode(state: StartupState, step: StartupStep)
    requires
        follows_task(state, step),
    ensures
        step is Ready <==> (state matches StartupState::ModeApplied(Ok(_))) || (state
            matches StartupState::FellBack(Ok(_))),
        step matches StartupStep::ApplyMode { mode_arg: Some(number) } ==> number
            == Modes::Hybrid.number() && (state matches StartupState::ModeApplied(Err(_))),
{
}

} // verus!
