//! What holds of modes once they are applied.
use crate::blocker::{lemma_filter_member, lemma_filter_no_duplicates};
use crate::errors::FdoError;
use crate::gpu::{sync_updates, GpuInterface};
use crate::gpu_laws::{differ_in_entries, law_sync_leaves_exactly_the_current_entries};
use crate::helpers::{denies, pid_lookup, Caller, HYBRID, INTEGRATED, MANUAL, SMART};
use crate::keys::{state_of, InodeKey};
use crate::maps::{apply_all, lemma_apply_all_concat, KernelMaps, MapUpdate};
use crate::mode::{
    action_of, all_notices, block_action, follow_up_plan, gpu_action, mode_plan, mode_refusal,
    notices, offered, sync_plan, unblock_action, ModeAction, ModeFollowUp, ModeInterface, ModeStep,
};
use crate::order::{in_order, lemma_in_order};
use crate::state::recorded_blocked;
use crate::text::{has_text, occurs_at};
use crate::types::{
    available_ids, devices, has_gpu, is_available, system_type, GpuDevice, Modes, SystemType,
};
use std::collections::BTreeMap;
use vstd::prelude::*;

verus! {

/// A mode can be applied exactly where it is offered.
pub proof fn law_offered_modes_are_those_that_apply(mode: Modes, kind: SystemType)
    ensures
        mode_refusal(mode, kind) is None <==> offered(kind).contains(mode),
{
    let modes = offered(kind);
    if kind == SystemType::Laptop {
        assert(modes[0] == Modes::Integrated);
        assert(modes[1] == Modes::Hybrid);
        assert(modes[2] == Modes::Smart);
    } else {
        assert(modes[0] == Modes::Hybrid);
        assert(modes[1] == Modes::Manual);
    }
}

/// What a mode does to GPUs is done to a GPU of the list that can be used, under its number.
pub proof fn lemma_plan_member(
    mode: Modes,
    reapply: bool,
    state: Map<Seq<char>, bool>,
    list: Map<usize, GpuInterface>,
    action: ModeAction,
)
    requires
        sync_plan(mode, reapply, state, list).contains(action),
    ensures
        exists|id: usize| #[trigger]
            list.contains_key(id) && gpu_action(mode, reapply, state, id, list[id]) == Some(action),
{
    let ids = in_order(list.dom());
    let f = action_of(mode, reapply, state, list);
    ids.lemma_filter_map_contains(f, action);
    let id = choose|id: usize| #[trigger] ids.contains(id) && f(id) == Some(action);
    lemma_in_order(list.dom());
    assert(list.contains_key(id));
}

/// No mode blocks the GPU that drives the default display, nor one that cannot be used.
pub proof fn law_default_gpu_is_never_blocked(
    mode: Modes,
    reapply: bool,
    state: Map<Seq<char>, bool>,
    list: Map<usize, GpuInterface>,
    id: usize,
    gpu_id: u32,
)
    requires
        mode_plan(mode, reapply, state, list).contains(
            (ModeAction::Sync { id, gpu_id, blocked: true }),
        ),
    ensures
        list.contains_key(id),
        list[id].hardware().available,
        !list[id].hardware().default,
        gpu_id == id as u32,
{
    let action = ModeAction::Sync { id, gpu_id, blocked: true };
    let plan = mode_plan(mode, reapply, state, list);
    let syncs = sync_plan(mode, reapply, state, list);
    let i = choose|i: int| 0 <= i < plan.len() && plan[i] == action;
    assert(syncs[i] == action);
    lemma_plan_member(mode, reapply, state, list, action);
}

/// The writes of one step of applying a mode. `fresh` holds the entries that each GPU has now.
pub open spec fn action_updates(
    action: ModeAction,
    list: Map<usize, GpuInterface>,
    fresh: Map<usize, Seq<InodeKey>>,
) -> Seq<MapUpdate> {
    match action {
        ModeAction::Sync { id, gpu_id, blocked } => sync_updates(
            list[id].pushed(),
            fresh[id],
            gpu_id,
            blocked,
        ),
        ModeAction::WriteMode { mode } => seq![MapUpdate::Mode { mode }],
    }
}

/// The writes of steps of applying a mode, one after the other.
pub open spec fn plan_updates(
    plan: Seq<ModeAction>,
    list: Map<usize, GpuInterface>,
    fresh: Map<usize, Seq<InodeKey>>,
) -> Seq<MapUpdate>
    decreases plan.len(),
{
    if plan.len() == 0 {
        Seq::empty()
    } else {
        plan_updates(plan.drop_last(), list, fresh) + action_updates(plan.last(), list, fresh)
    }
}

/// The maps once a mode was applied.
pub open spec fn applied(
    maps: KernelMaps,
    mode: Modes,
    reapply: bool,
    state: Map<Seq<char>, bool>,
    list: Map<usize, GpuInterface>,
    fresh: Map<usize, Seq<InodeKey>>,
) -> KernelMaps {
    apply_all(maps, plan_updates(mode_plan(mode, reapply, state, list), list, fresh))
}

/// Among GPUs that `f` does something to, only GPU `id` has, or had written, the entry `key`.
pub open spec fn belongs_to(
    ids: Seq<usize>,
    f: spec_fn(usize) -> Option<ModeAction>,
    list: Map<usize, GpuInterface>,
    fresh: Map<usize, Seq<InodeKey>>,
    id: usize,
    key: InodeKey,
) -> bool {
    forall|other: usize| #[trigger]
        ids.contains(other) && other != id && f(other) is Some ==> !fresh[other].contains(key)
            && !list[other].pushed().contains(key)
}

/// `f` names its argument as the GPU to write.
pub open spec fn acts_on_argument(f: spec_fn(usize) -> Option<ModeAction>) -> bool {
    forall|id: usize|
        (#[trigger] f(id)) matches Some(action) ==> (action matches ModeAction::Sync { id: i, .. }
            && i == id)
}

proof fn lemma_syncs(
    maps: KernelMaps,
    ids: Seq<usize>,
    f: spec_fn(usize) -> Option<ModeAction>,
    list: Map<usize, GpuInterface>,
    fresh: Map<usize, Seq<InodeKey>>,
    id: usize,
    key: InodeKey,
)
    requires
        acts_on_argument(f),
        ids.no_duplicates(),
        belongs_to(ids, f, list, fresh, id, key),
    ensures
        differ_in_entries(maps, apply_all(maps, plan_updates(ids.filter_map(f), list, fresh))),
        ids.contains(id) && fresh[id].contains(key) ==> match f(id) {
            Some(ModeAction::Sync { gpu_id, blocked, .. }) => {
                let after = apply_all(maps, plan_updates(ids.filter_map(f), list, fresh));
                after.blocked.contains_key(key) && after.blocked[key] == state_of(gpu_id, blocked)
            },
            _ => true,
        },
    decreases ids.len(),
{
    let plan = ids.filter_map(f);
    if ids.len() == 0 {
    } else {
        let rest = ids.drop_last();
        let last = ids.last();
        assert(ids[ids.len() - 1] == last);
        assert forall|other: usize| rest.contains(other) implies ids.contains(other) && other
            != last by {
            let i = choose|i: int| 0 <= i < rest.len() && rest[i] == other;
            assert(ids[i] == other);
        }
        lemma_syncs(maps, rest, f, list, fresh, id, key);
        let middle = apply_all(maps, plan_updates(rest.filter_map(f), list, fresh));
        if ids.contains(id) && id != last {
            let i = choose|i: int| 0 <= i < ids.len() && ids[i] == id;
            assert(rest[i] == id);
        }
        match f(last) {
            None => {},
            Some(action) => {
                assert(plan.drop_last() =~= rest.filter_map(f));
                assert(plan.last() == action);
                let updates = action_updates(action, list, fresh);
                lemma_apply_all_concat(
                    maps,
                    plan_updates(rest.filter_map(f), list, fresh),
                    updates,
                );
                match action {
                    ModeAction::Sync { id: i, gpu_id, blocked } => {
                        law_sync_leaves_exactly_the_current_entries(
                            middle,
                            list[i].pushed(),
                            fresh[i],
                            gpu_id,
                            blocked,
                        );
                        let after = apply_all(middle, updates);
                        assert(ids.contains(last));
                        if last != id {
                            assert(middle.blocked.contains_key(key) ==> after.blocked.contains_key(
                                key,
                            ));
                        }
                    },
                    ModeAction::WriteMode { .. } => {},
                }
            },
        }
    }
}

/// The maps once a mode was applied: the mode is written, entries differ, and nothing else does.
/// An entry that only one GPU has is tracked as the mode says for that GPU.
proof fn lemma_applied(
    maps: KernelMaps,
    mode: Modes,
    reapply: bool,
    state: Map<Seq<char>, bool>,
    list: Map<usize, GpuInterface>,
    fresh: Map<usize, Seq<InodeKey>>,
    id: usize,
    key: InodeKey,
)
    requires
        belongs_to(
            in_order(list.dom()),
            action_of(mode, reapply, state, list),
            list,
            fresh,
            id,
            key,
        ),
    ensures
        ({
            let after = applied(maps, mode, reapply, state, list, fresh);
            &&& after == (KernelMaps { blocked: after.blocked, mode: mode.number() as u8, ..maps })
            &&& list.contains_key(id) && fresh[id].contains(key) ==> match gpu_action(
                mode,
                reapply,
                state,
                id,
                list[id],
            ) {
                Some(ModeAction::Sync { gpu_id, blocked, .. }) => after.blocked.contains_key(key)
                    && after.blocked[key] == state_of(gpu_id, blocked),
                _ => true,
            }
        }),
{
    let ids = in_order(list.dom());
    let f = action_of(mode, reapply, state, list);
    lemma_in_order(list.dom());
    assert(ids.no_duplicates());
    lemma_syncs(maps, ids, f, list, fresh, id, key);
    let syncs = sync_plan(mode, reapply, state, list);
    let plan = mode_plan(mode, reapply, state, list);
    assert(plan.drop_last() =~= syncs);
    let last = seq![MapUpdate::Mode { mode: mode.number() as u8 }];
    let middle = apply_all(maps, plan_updates(syncs, list, fresh));
    lemma_apply_all_concat(maps, plan_updates(syncs, list, fresh), last);
    assert(last.drop_last() =~= Seq::empty());
    assert(apply_all(middle, last) == last[0].apply(apply_all(middle, last.drop_last())));
    assert(ids.contains(id) <==> list.contains_key(id));
}

/// The mode is written last: as long as not every GPU was seen to, the kernel side goes by the
/// old mode. `n` steps have taken place.
pub proof fn law_mode_is_written_last(
    maps: KernelMaps,
    mode: Modes,
    reapply: bool,
    state: Map<Seq<char>, bool>,
    list: Map<usize, GpuInterface>,
    fresh: Map<usize, Seq<InodeKey>>,
    n: nat,
)
    requires
        n < mode_plan(mode, reapply, state, list).len(),
    ensures
        differ_in_entries(
            maps,
            apply_all(
                maps,
                plan_updates(mode_plan(mode, reapply, state, list).take(n as int), list, fresh),
            ),
        ),
    decreases n,
{
    let plan = mode_plan(mode, reapply, state, list);
    let syncs = sync_plan(mode, reapply, state, list);
    let part = plan.take(n as int);
    if n > 0 {
        law_mode_is_written_last(maps, mode, reapply, state, list, fresh, (n - 1) as nat);
        assert(part.drop_last() =~= plan.take(n - 1));
        let middle = apply_all(maps, plan_updates(plan.take(n - 1), list, fresh));
        let action = part.last();
        assert(action == syncs[n - 1]);
        assert(syncs.contains(action));
        lemma_plan_member(mode, reapply, state, list, action);
        match action {
            ModeAction::Sync { id, gpu_id, blocked } => {
                let updates = action_updates(action, list, fresh);
                lemma_apply_all_concat(
                    maps,
                    plan_updates(plan.take(n - 1), list, fresh),
                    updates,
                );
                law_sync_leaves_exactly_the_current_entries(
                    middle,
                    list[id].pushed(),
                    fresh[id],
                    gpu_id,
                    blocked,
                );
            },
            ModeAction::WriteMode { .. } => {},
        }
    }
}

/// Once hybrid mode was applied, nobody is refused anything.
pub proof fn law_hybrid_opens_every_gpu(
    maps: KernelMaps,
    reapply: bool,
    state: Map<Seq<char>, bool>,
    list: Map<usize, GpuInterface>,
    fresh: Map<usize, Seq<InodeKey>>,
    key: InodeKey,
    caller: Caller,
)
    ensures
        !denies(applied(maps, Modes::Hybrid, reapply, state, list, fresh), key, caller),
{
    let plan = mode_plan(Modes::Hybrid, reapply, state, list);
    let syncs = sync_plan(Modes::Hybrid, reapply, state, list);
    assert(plan.drop_last() =~= syncs);
    let last = seq![MapUpdate::Mode { mode: HYBRID }];
    let middle = apply_all(maps, plan_updates(syncs, list, fresh));
    lemma_apply_all_concat(maps, plan_updates(syncs, list, fresh), last);
    assert(apply_all(middle, last) == last[0].apply(apply_all(middle, last.drop_last())));
}

/// A laptop has exactly one discrete GPU that can be used and does not drive the default display.
pub proof fn law_laptop_has_one_offload_gpu(list: Map<usize, GpuDevice>, id: usize, other: usize)
    requires
        system_type(list) == SystemType::Laptop,
        list.contains_key(id),
        list[id].available && list[id].discrete && !list[id].default,
        list.contains_key(other),
        list[other].available && list[other].discrete && !list[other].default,
    ensures
        id == other,
{
    let ids = in_order(list.dom());
    let found = available_ids(list);
    lemma_in_order(list.dom());
    assert(ids.no_duplicates());
    lemma_filter_no_duplicates(ids, is_available(list));
    assert(has_gpu(list, true, false));
    let igpu = choose|igpu: usize| #[trigger]
        list.contains_key(igpu) && list[igpu].available && list[igpu].default
            && !list[igpu].discrete;
    lemma_filter_member(ids, is_available(list), id);
    lemma_filter_member(ids, is_available(list), other);
    lemma_filter_member(ids, is_available(list), igpu);
    assert(ids.contains(id) && ids.contains(other) && ids.contains(igpu));
    let i = choose|i: int| 0 <= i < found.len() && found[i] == id;
    let j = choose|j: int| 0 <= j < found.len() && found[j] == other;
    let k = choose|k: int| 0 <= k < found.len() && found[k] == igpu;
    assert(found.len() == 2);
}

/// Once integrated mode was applied on a laptop, every process is refused every entry of the
/// discrete GPU.
pub proof fn law_integrated_closes_the_offload_gpu(
    maps: KernelMaps,
    reapply: bool,
    state: Map<Seq<char>, bool>,
    list: Map<usize, GpuInterface>,
    fresh: Map<usize, Seq<InodeKey>>,
    id: usize,
    key: InodeKey,
    caller: Caller,
)
    requires
        mode_refusal(Modes::Integrated, system_type(devices(list))) is None,
        list.contains_key(id),
        list[id].hardware().available && list[id].hardware().discrete && !list[id].hardware().default,
        fresh[id].contains(key),
    ensures
        denies(applied(maps, Modes::Integrated, reapply, state, list, fresh), key, caller),
{
    let ids = in_order(list.dom());
    let f = action_of(Modes::Integrated, reapply, state, list);
    lemma_in_order(list.dom());
    assert(belongs_to(ids, f, list, fresh, id, key)) by {
        assert forall|other: usize| #[trigger]
            ids.contains(other) && other != id && f(other) is Some implies false by {
            let devs = devices(list);
            assert(list.contains_key(other));
            assert(devs.contains_key(other) && devs.contains_key(id));
            law_laptop_has_one_offload_gpu(devs, id, other);
        }
    }
    lemma_applied(maps, Modes::Integrated, reapply, state, list, fresh, id, key);
}

/// Once smart mode was applied, an entry that only the discrete GPU has is refused to ordinary
/// processes: those that are neither allowed nor held to a GPU, and whose parent is neither. The
/// GPU must not have number 0, which stands for the integrated one.
pub proof fn law_smart_closes_the_offload_gpu(
    maps: KernelMaps,
    reapply: bool,
    state: Map<Seq<char>, bool>,
    list: Map<usize, GpuInterface>,
    fresh: Map<usize, Seq<InodeKey>>,
    id: usize,
    key: InodeKey,
    caller: Caller,
)
    requires
        list.contains_key(id),
        list[id].hardware().available && list[id].hardware().discrete && !list[id].hardware().default,
        id as u32 != 0,
        fresh[id].contains(key),
        belongs_to(
            in_order(list.dom()),
            action_of(Modes::Smart, reapply, state, list),
            list,
            fresh,
            id,
            key,
        ),
        !maps.allowed_pid.contains(caller.pid),
        !maps.allowed_pid.contains(caller.parent()),
        pid_lookup(maps, caller).forced_gpu() is None,
    ensures
        denies(applied(maps, Modes::Smart, reapply, state, list, fresh), key, caller),
{
    lemma_applied(maps, Modes::Smart, reapply, state, list, fresh, id, key);
}

/// Once smart mode was applied, an entry that only the integrated GPU has stays open to ordinary
/// processes, if the GPU has number 0.
pub proof fn law_smart_leaves_the_integrated_gpu_open(
    maps: KernelMaps,
    reapply: bool,
    state: Map<Seq<char>, bool>,
    list: Map<usize, GpuInterface>,
    fresh: Map<usize, Seq<InodeKey>>,
    id: usize,
    key: InodeKey,
    caller: Caller,
)
    requires
        list.contains_key(id),
        list[id].hardware().available && !list[id].hardware().discrete && list[id].hardware().default,
        list[id].number() == 0,
        fresh[id].contains(key),
        belongs_to(
            in_order(list.dom()),
            action_of(Modes::Smart, reapply, state, list),
            list,
            fresh,
            id,
            key,
        ),
        pid_lookup(maps, caller).forced_gpu() is None,
    ensures
        !denies(applied(maps, Modes::Smart, reapply, state, list, fresh), key, caller),
{
    lemma_applied(maps, Modes::Smart, reapply, state, list, fresh, id, key);
}

/// Once manual mode was applied, an entry that only one GPU has is refused to a process that is
/// not held to a GPU exactly if that GPU was blocked by hand, the choice is applied again, and
/// the GPU does not drive the default display.
pub proof fn law_manual_follows_the_record(
    maps: KernelMaps,
    reapply: bool,
    state: Map<Seq<char>, bool>,
    list: Map<usize, GpuInterface>,
    fresh: Map<usize, Seq<InodeKey>>,
    id: usize,
    key: InodeKey,
    caller: Caller,
)
    requires
        list.contains_key(id),
        list[id].hardware().available,
        fresh[id].contains(key),
        belongs_to(
            in_order(list.dom()),
            action_of(Modes::Manual, reapply, state, list),
            list,
            fresh,
            id,
            key,
        ),
        pid_lookup(maps, caller).forced_gpu() is None,
    ensures
        denies(applied(maps, Modes::Manual, reapply, state, list, fresh), key, caller) == (reapply
            && recorded_blocked(state, list[id].hardware().pci.pci_address@)
            && !list[id].hardware().default),
{
    lemma_applied(maps, Modes::Manual, reapply, state, list, fresh, id, key);
}

/// What was recorded of a GPU by hand is what manual mode applies again, for a GPU that does not
/// drive the default display.
pub proof fn law_manual_applies_the_last_record(
    state: Map<Seq<char>, bool>,
    id: usize,
    gpu: GpuInterface,
    blocked: bool,
)
    requires
        gpu.hardware().available,
        !gpu.hardware().default,
    ensures
        gpu_action(
            Modes::Manual,
            true,
            state.insert(gpu.hardware().pci.pci_address@, blocked),
            id,
            gpu,
        ) == Some(
            if blocked {
                block_action(id)
            } else {
                unblock_action(id, gpu)
            },
        ),
{
}

/// What `f` does to GPUs comes in the order of their numbers, once for each GPU that it does
/// something to.
proof fn lemma_one_action_each(ids: Seq<usize>, f: spec_fn(usize) -> Option<ModeAction>)
    requires
        acts_on_argument(f),
        forall|i: int, j: int| 0 <= i < j < ids.len() ==> ids[i] < ids[j],
    ensures
        forall|i: int|
            0 <= i < ids.filter_map(f).len() ==> (#[trigger] ids.filter_map(f)[i]) is Sync
                && ids.contains(ids.filter_map(f)[i]->id) && f(ids.filter_map(f)[i]->id) == Some(
                ids.filter_map(f)[i],
            ),
        forall|i: int, j: int|
            0 <= i < j < ids.filter_map(f).len() ==> (#[trigger] ids.filter_map(f)[i])->id < (
            #[trigger] ids.filter_map(f)[j])->id,
        forall|id: usize| #[trigger]
            ids.contains(id) && f(id) is Some ==> ids.filter_map(f).contains(f(id)->0),
    decreases ids.len(),
{
    if ids.len() > 0 {
        let rest = ids.drop_last();
        let last = ids.last();
        let before = rest.filter_map(f);
        let all = ids.filter_map(f);
        lemma_one_action_each(rest, f);
        assert(ids[ids.len() - 1] == last);
        assert forall|id: usize| #[trigger] rest.contains(id) implies ids.contains(id) && id
            < last by {
            let i = choose|i: int| 0 <= i < rest.len() && rest[i] == id;
            assert(ids[i] == id);
        }
        assert forall|id: usize| #[trigger] ids.contains(id) && id != last implies rest.contains(
            id,
        ) by {
            let i = choose|i: int| 0 <= i < ids.len() && ids[i] == id;
            assert(rest[i] == id);
        }
        match f(last) {
            None => {
                assert(all =~= before);
            },
            Some(action) => {
                assert(all =~= before.push(action));
                assert(all[before.len() as int] == action);
                assert forall|id: usize| #[trigger]
                    ids.contains(id) && f(id) is Some implies all.contains(f(id)->0) by {
                    if id != last {
                        let i = choose|i: int| 0 <= i < before.len() && before[i] == f(id)->0;
                        assert(all[i] == before[i]);
                    }
                }
            },
        }
    } else {
        assert(ids.filter_map(f) =~= Seq::empty());
    }
}

/// The plan of a mode writes GPUs of the list in the order of their numbers, each as the mode
/// says for it, and then the mode.
proof fn lemma_plan(
    mode: Modes,
    reapply: bool,
    state: Map<Seq<char>, bool>,
    list: Map<usize, GpuInterface>,
)
    ensures
        ({
            let plan = mode_plan(mode, reapply, state, list);
            &&& forall|i: int|
                0 <= i < plan.len() - 1 ==> (#[trigger] plan[i]) is Sync && list.contains_key(
                    plan[i]->id,
                ) && gpu_action(mode, reapply, state, plan[i]->id, list[plan[i]->id]) == Some(plan[i])
            &&& forall|i: int, j: int|
                0 <= i < j < plan.len() - 1 ==> (#[trigger] plan[i])->id < (#[trigger] plan[j])->id
            &&& forall|id: usize| #[trigger]
                list.contains_key(id) && gpu_action(mode, reapply, state, id, list[id]) is Some
                    ==> plan.contains(gpu_action(mode, reapply, state, id, list[id])->0)
            &&& plan.len() > 0
            &&& plan.last() == (ModeAction::WriteMode { mode: mode.number() as u8 })
        }),
{
    let ids = in_order(list.dom());
    let f = action_of(mode, reapply, state, list);
    let syncs = sync_plan(mode, reapply, state, list);
    let plan = mode_plan(mode, reapply, state, list);
    lemma_in_order(list.dom());
    assert(acts_on_argument(f));
    lemma_one_action_each(ids, f);
    assert forall|i: int| 0 <= i < plan.len() - 1 implies (#[trigger] plan[i]) is Sync
        && list.contains_key(plan[i]->id) && gpu_action(
        mode,
        reapply,
        state,
        plan[i]->id,
        list[plan[i]->id],
    ) == Some(plan[i]) by {
        assert(plan[i] == syncs[i]);
        assert(ids.contains(syncs[i]->id));
    }
    assert forall|id: usize| #[trigger]
        list.contains_key(id) && gpu_action(mode, reapply, state, id, list[id]) is Some implies plan.contains(
        gpu_action(mode, reapply, state, id, list[id])->0,
    ) by {
        assert(ids.contains(id));
        let i = choose|i: int| 0 <= i < syncs.len() && syncs[i] == f(id)->0;
        assert(plan[i] == syncs[i]);
    }
}

/// Hybrid mode can always be applied. It writes every GPU that can be used, each once, under its
/// own number and as not blocked; it writes no other GPU, and last comes the mode.
pub proof fn law_hybrid_unblocks_every_available_gpu(
    mode_int: ModeInterface,
    list: BTreeMap<usize, GpuInterface>,
    plan: Result<Vec<ModeAction>, FdoError>,
)
    requires
        mode_int.wf(),
        call_ensures(ModeInterface::apply_mode, (&mode_int, &list, Modes::Hybrid), plan),
    ensures
        plan matches Ok(actions) && {
            &&& actions@.len() > 0
            &&& actions@.last() == (ModeAction::WriteMode { mode: HYBRID })
            &&& forall|id: usize| #[trigger]
                list@.contains_key(id) && list@[id].hardware().available ==> actions@.contains(
                    ModeAction::Sync { id, gpu_id: list@[id].number(), blocked: false },
                )
            &&& forall|i: int|
                0 <= i < actions@.len() - 1 ==> ((#[trigger] actions@[i]) matches ModeAction::Sync {
                    id,
                    gpu_id,
                    blocked,
                } && list@.contains_key(id) && list@[id].hardware().available && gpu_id
                    == list@[id].number() && !blocked)
            &&& forall|i: int, j: int|
                0 <= i < j < actions@.len() - 1 ==> (#[trigger] actions@[i])->id < (
                #[trigger] actions@[j])->id
        },
{
    lemma_plan(Modes::Hybrid, mode_int.auto_apply_gpu_state, mode_int.gpu_state@, list@);
}

/// Integrated mode blocks, under its number, each discrete GPU that can be used and does not drive
/// the default display, each once. It writes no other GPU, and last comes the mode.
pub proof fn law_integrated_blocks_the_offload_gpus(
    mode_int: ModeInterface,
    list: BTreeMap<usize, GpuInterface>,
    plan: Result<Vec<ModeAction>, FdoError>,
)
    requires
        mode_int.wf(),
        call_ensures(ModeInterface::apply_mode, (&mode_int, &list, Modes::Integrated), plan),
    ensures
        plan matches Ok(actions) ==> {
            &&& actions@.len() > 0
            &&& actions@.last() == (ModeAction::WriteMode { mode: INTEGRATED })
            &&& forall|id: usize| #[trigger]
                list@.contains_key(id) && list@[id].hardware().available
                    && list@[id].hardware().discrete && !list@[id].hardware().default
                    ==> actions@.contains(
                    ModeAction::Sync { id, gpu_id: id as u32, blocked: true },
                )
            &&& forall|i: int|
                0 <= i < actions@.len() - 1 ==> ((#[trigger] actions@[i]) matches ModeAction::Sync {
                    id,
                    gpu_id,
                    blocked,
                } && list@.contains_key(id) && list@[id].hardware().available
                    && list@[id].hardware().discrete && !list@[id].hardware().default && gpu_id
                    == id as u32 && blocked)
            &&& forall|i: int, j: int|
                0 <= i < j < actions@.len() - 1 ==> (#[trigger] actions@[i])->id < (
                #[trigger] actions@[j])->id
        },
{
    lemma_plan(Modes::Integrated, mode_int.auto_apply_gpu_state, mode_int.gpu_state@, list@);
}

/// Smart mode blocks what integrated mode blocks, and writes as not blocked, under its own number,
/// an integrated GPU that can be used and drives the default display. It writes no other GPU, and
/// last comes the mode.
pub proof fn law_smart_tracks_both_gpus(
    mode_int: ModeInterface,
    list: BTreeMap<usize, GpuInterface>,
    plan: Result<Vec<ModeAction>, FdoError>,
)
    requires
        mode_int.wf(),
        call_ensures(ModeInterface::apply_mode, (&mode_int, &list, Modes::Smart), plan),
    ensures
        plan matches Ok(actions) ==> {
            &&& actions@.len() > 0
            &&& actions@.last() == (ModeAction::WriteMode { mode: SMART })
            &&& forall|id: usize| #[trigger]
                list@.contains_key(id) && list@[id].hardware().available
                    && list@[id].hardware().discrete && !list@[id].hardware().default
                    ==> actions@.contains(
                    ModeAction::Sync { id, gpu_id: id as u32, blocked: true },
                )
            &&& forall|id: usize| #[trigger]
                list@.contains_key(id) && list@[id].hardware().available
                    && !list@[id].hardware().discrete && list@[id].hardware().default
                    ==> actions@.contains(
                    ModeAction::Sync { id, gpu_id: list@[id].number(), blocked: false },
                )
            &&& forall|i: int|
                0 <= i < actions@.len() - 1 ==> ((#[trigger] actions@[i]) matches ModeAction::Sync {
                    id,
                    blocked,
                    ..
                } && list@.contains_key(id) && list@[id].hardware().available
                    && list@[id].hardware().discrete == blocked && list@[id].hardware().default
                    != blocked)
            &&& forall|i: int, j: int|
                0 <= i < j < actions@.len() - 1 ==> (#[trigger] actions@[i])->id < (
                #[trigger] actions@[j])->id
        },
{
    lemma_plan(Modes::Smart, mode_int.auto_apply_gpu_state, mode_int.gpu_state@, list@);
}

/// Manual mode writes every GPU that can be used, each once. It is written as blocked exactly if
/// it is recorded as blocked under its PCI address, records are applied again, and it does not
/// drive the default display. Last comes the mode.
pub proof fn law_manual_writes_every_available_gpu(
    mode_int: ModeInterface,
    list: BTreeMap<usize, GpuInterface>,
    plan: Result<Vec<ModeAction>, FdoError>,
)
    requires
        mode_int.wf(),
        call_ensures(ModeInterface::apply_mode, (&mode_int, &list, Modes::Manual), plan),
    ensures
        plan matches Ok(actions) ==> {
            &&& actions@.len() > 0
            &&& actions@.last() == (ModeAction::WriteMode { mode: MANUAL })
            &&& forall|id: usize| #[trigger]
                list@.contains_key(id) && list@[id].hardware().available ==> exists|i: int|
                    0 <= i < actions@.len() - 1 && (#[trigger] actions@[i])->id == id
            &&& forall|i: int|
                0 <= i < actions@.len() - 1 ==> ((#[trigger] actions@[i]) matches ModeAction::Sync {
                    id,
                    gpu_id,
                    blocked,
                } && list@.contains_key(id) && list@[id].hardware().available && gpu_id == (
                if blocked {
                    id as u32
                } else {
                    list@[id].number()
                }) && (blocked <==> mode_int.auto_apply_gpu_state
                    && !list@[id].hardware().default && mode_int.gpu_state@.contains_key(
                    list@[id].hardware().pci.pci_address@,
                ) && mode_int.gpu_state@[list@[id].hardware().pci.pci_address@]))
            &&& forall|i: int, j: int|
                0 <= i < j < actions@.len() - 1 ==> (#[trigger] actions@[i])->id < (
                #[trigger] actions@[j])->id
        },
{
    let reapply = mode_int.auto_apply_gpu_state;
    let state = mode_int.gpu_state@;
    lemma_plan(Modes::Manual, reapply, state, list@);
    if let Ok(actions) = plan {
        assert forall|id: usize| #[trigger]
            list@.contains_key(id) && list@[id].hardware().available implies exists|i: int|
            0 <= i < actions@.len() - 1 && (#[trigger] actions@[i])->id == id by {
            let action = gpu_action(Modes::Manual, reapply, state, id, list@[id])->0;
            let i = choose|i: int| 0 <= i < actions@.len() && actions@[i] == action;
            assert(actions@[i]->id == id);
        }
    }
}

/// Which modes can be applied goes by the kind of system alone: hybrid everywhere, integrated and
/// smart on laptops, manual everywhere else. Those are also the modes that are offered, each once.
pub proof fn law_modes_go_by_the_kind_of_system(
    mode_int: ModeInterface,
    list: BTreeMap<usize, GpuInterface>,
    mode: Modes,
    plan: Result<Vec<ModeAction>, FdoError>,
    modes: Vec<Modes>,
    kind: SystemType,
)
    requires
        mode_int.wf(),
        call_ensures(ModeInterface::apply_mode, (&mode_int, &list, mode), plan),
        call_ensures(ModeInterface::available_modes, (&list,), modes),
        call_ensures(SystemType::from_interfaces, (&list,), kind),
    ensures
        plan is Ok <==> match mode {
            Modes::Hybrid => true,
            Modes::Manual => kind != SystemType::Laptop,
            Modes::Integrated => kind == SystemType::Laptop,
            Modes::Smart => kind == SystemType::Laptop,
        },
        plan matches Err(err) ==> err is NotSupported,
        modes@.contains(mode) <==> plan is Ok,
        modes@.no_duplicates(),
{
    law_offered_modes_are_those_that_apply(mode, kind);
    assert(modes@ == offered(kind));
    assert(modes@.len() <= 3);
}

/// A plan is carried out step by step, in its order and to its end, unless a step fails: its error
/// then ends the plan, whatever is left of it.
pub proof fn law_first_failure_ends_the_plan(
    plan: Vec<ModeAction>,
    done: usize,
    last: Result<(), FdoError>,
    step: ModeStep,
)
    requires
        call_ensures(ModeInterface::apply_step, (&plan, done, last), step),
    ensures
        last matches Err(err) ==> step == ModeStep::Finished(Err(err)),
        last is Ok && done < plan@.len() ==> step == ModeStep::Perform(plan@[done as int]),
        last is Ok && done >= plan@.len() ==> (step matches ModeStep::Finished(Ok(_))),
        step matches ModeStep::Finished(Ok(_)) ==> last is Ok && done >= plan@.len(),
{
}

/// A request on the bus for a mode is a request for the mode with that number, and asks to save it.
pub proof fn law_requested_mode_is_saved(number: u32, requested: Result<(Modes, bool), FdoError>)
    requires
        call_ensures(ModeInterface::set_mode, (number,), requested),
    ensures
        number == 0 ==> requested == Ok::<(Modes, bool), FdoError>((Modes::Integrated, true)),
        number == 1 ==> requested == Ok::<(Modes, bool), FdoError>((Modes::Hybrid, true)),
        number == 2 ==> requested == Ok::<(Modes, bool), FdoError>((Modes::Manual, true)),
        number == 3 ==> requested == Ok::<(Modes, bool), FdoError>((Modes::Smart, true)),
        number > 3 ==> (requested matches Err(err) && err is InvalidArgs),
{
}

/// What is sent out about GPUs concerns the available ones alone, and each of them twice: that it
/// may have been blocked or unblocked, and its card.
proof fn lemma_notices(list: Map<usize, GpuInterface>, ids: Seq<usize>)
    requires
        forall|i: int| 0 <= i < ids.len() ==> list.contains_key(#[trigger] ids[i]),
    ensures
        forall|id: usize| #[trigger]
            ids.contains(id) && list[id].hardware().available ==> all_notices(list, ids).contains(
                ModeFollowUp::EmitBlockChanged { id },
            ) && all_notices(list, ids).contains(
                ModeFollowUp::SendUevent { card: list[id].hardware().card },
            ),
        forall|i: int|
            0 <= i < all_notices(list, ids).len() ==> tells_of_a_gpu(
                list,
                #[trigger] all_notices(list, ids)[i],
            ),
    decreases ids.len(),
{
    if ids.len() > 0 {
        let rest = ids.drop_last();
        let last = ids.last();
        let before = all_notices(list, rest);
        let now = notices(list, last);
        let all = all_notices(list, ids);
        assert forall|i: int| 0 <= i < rest.len() implies list.contains_key(#[trigger] rest[i]) by {
            assert(rest[i] == ids[i]);
        }
        lemma_notices(list, rest);
        assert(list.contains_key(ids[ids.len() - 1]));
        assert forall|id: usize| #[trigger]
            ids.contains(id) && list[id].hardware().available implies all.contains(
            ModeFollowUp::EmitBlockChanged { id },
        ) && all.contains(ModeFollowUp::SendUevent { card: list[id].hardware().card }) by {
            if id == last {
                assert(all[before.len() as int] == now[0]);
                assert(all[before.len() + 1int] == now[1]);
            } else {
                let k = choose|k: int| 0 <= k < ids.len() && ids[k] == id;
                assert(rest[k] == id);
                assert(rest.contains(id));
                let i = choose|i: int|
                    0 <= i < before.len() && before[i] == (ModeFollowUp::EmitBlockChanged { id });
                assert(all[i] == before[i]);
                let j = choose|j: int|
                    0 <= j < before.len() && before[j] == (ModeFollowUp::SendUevent {
                        card: list[id].hardware().card,
                    });
                assert(all[j] == before[j]);
            }
        }
        assert forall|i: int| 0 <= i < all.len() implies tells_of_a_gpu(
            list,
            #[trigger] all[i],
        ) by {
            if i < before.len() {
                assert(all[i] == before[i]);
            } else {
                assert(all[i] == now[i - before.len()]);
                assert(list.contains_key(last));
            }
        }
    }
}

/// `step` tells of a GPU of the list that can be used.
pub open spec fn tells_of_a_gpu(list: Map<usize, GpuInterface>, step: ModeFollowUp) -> bool {
    exists|id: usize| #[trigger]
        list.contains_key(id) && list[id].hardware().available && (step == (
        ModeFollowUp::EmitBlockChanged { id }) || step == (ModeFollowUp::SendUevent {
            card: list[id].hardware().card,
        }))
}

/// What follows once a mode was applied.
proof fn lemma_follow_ups(
    mode: Modes,
    save: bool,
    list: Map<usize, GpuInterface>,
)
    ensures
        ({
            let steps = follow_up_plan(mode, save, list);
            &&& steps.len() >= 4
            &&& steps[0] == (ModeFollowUp::SaveState { mode, save })
            &&& steps[1] == ModeFollowUp::EmitModeChanged
            &&& steps[steps.len() - 2] == ModeFollowUp::RefreshSwitcheroo
            &&& steps.last() == if mode == Modes::Hybrid || mode == Modes::Manual {
                ModeFollowUp::StartPowerd
            } else {
                ModeFollowUp::StopPowerd
            }
            &&& forall|id: usize| #[trigger]
                list.contains_key(id) && list[id].hardware().available ==> steps.contains(
                    ModeFollowUp::EmitBlockChanged { id },
                ) && steps.contains(ModeFollowUp::SendUevent { card: list[id].hardware().card })
            &&& forall|i: int|
                2 <= i < steps.len() - 2 ==> tells_of_a_gpu(list, #[trigger] steps[i])
        }),
{
    let ids = in_order(list.dom());
    let steps = follow_up_plan(mode, save, list);
    let middle = all_notices(list, ids);
    lemma_in_order(list.dom());
    assert forall|i: int| 0 <= i < ids.len() implies list.contains_key(#[trigger] ids[i]) by {
        assert(ids.contains(ids[i]));
    }
    lemma_notices(list, ids);
    assert forall|id: usize| #[trigger]
        list.contains_key(id) && list[id].hardware().available implies steps.contains(
        ModeFollowUp::EmitBlockChanged { id },
    ) && steps.contains(ModeFollowUp::SendUevent { card: list[id].hardware().card }) by {
        assert(ids.contains(id));
        let i = choose|i: int|
            0 <= i < middle.len() && middle[i] == (ModeFollowUp::EmitBlockChanged { id });
        assert(steps[2 + i] == middle[i]);
        let j = choose|j: int|
            0 <= j < middle.len() && middle[j] == (ModeFollowUp::SendUevent {
                card: list[id].hardware().card,
            });
        assert(steps[2 + j] == middle[j]);
    }
    assert forall|i: int| 2 <= i < steps.len() - 2 implies tells_of_a_gpu(
        list,
        #[trigger] steps[i],
    ) by {
        assert(steps[i] == middle[i - 2]);
    }
}

/// Once a mode was applied, it is saved first, as the request asked for, and told on the bus; then
/// every GPU that can be used, and no other, is told of on the bus and to the display server; then
/// the list of GPUs is sent out; and last the power daemon is started in hybrid and manual mode,
/// and stopped in integrated and smart mode.
pub proof fn law_applied_mode_is_saved_and_told(
    before: ModeInterface,
    after: ModeInterface,
    list: BTreeMap<usize, GpuInterface>,
    mode: Modes,
    save: bool,
    plan: Result<Vec<ModeFollowUp>, FdoError>,
)
    requires
        exists|mode_int: &mut ModeInterface|
            *mode_int == before && *final(mode_int) == after && #[trigger] call_ensures(
                ModeInterface::internal_set_mode,
                (mode_int, &list, mode, save, Ok::<(), FdoError>(())),
                plan,
            ),
    ensures
        after == (ModeInterface { mode, ..before }),
        plan matches Ok(steps) && {
            &&& steps@.len() >= 4
            &&& steps@[0] == (ModeFollowUp::SaveState { mode, save })
            &&& steps@[1] == ModeFollowUp::EmitModeChanged
            &&& steps@[steps@.len() - 2] == ModeFollowUp::RefreshSwitcheroo
            &&& steps@.last() == if mode == Modes::Hybrid || mode == Modes::Manual {
                ModeFollowUp::StartPowerd
            } else {
                ModeFollowUp::StopPowerd
            }
            &&& forall|id: usize| #[trigger]
                list@.contains_key(id) && list@[id].hardware().available ==> steps@.contains(
                    ModeFollowUp::EmitBlockChanged { id },
                ) && steps@.contains(ModeFollowUp::SendUevent { card: list@[id].hardware().card })
            &&& forall|i: int|
                2 <= i < steps@.len() - 2 ==> tells_of_a_gpu(list@, #[trigger] steps@[i])
        },
{
    lemma_follow_ups(mode, save, list@);
}

/// A mode that could not be applied changes nothing: nothing follows, the error is told as it is,
/// and the mode stays what it was.
pub proof fn law_failed_mode_changes_nothing(
    before: ModeInterface,
    after: ModeInterface,
    list: BTreeMap<usize, GpuInterface>,
    mode: Modes,
    save: bool,
    err: FdoError,
    plan: Result<Vec<ModeFollowUp>, FdoError>,
)
    requires
        exists|mode_int: &mut ModeInterface|
            *mode_int == before && *final(mode_int) == after && #[trigger] call_ensures(
                ModeInterface::internal_set_mode,
                (mode_int, &list, mode, save, Err::<(), FdoError>(err)),
                plan,
            ),
    ensures
        after == before,
        plan == Err::<Vec<ModeFollowUp>, FdoError>(err),
{
}

/// Of the GPUs of the list, only GPU `id` has, or had written, the entry `key`.
pub open spec fn only_of(
    list: Map<usize, GpuInterface>,
    fresh: Map<usize, Seq<InodeKey>>,
    id: usize,
    key: InodeKey,
) -> bool {
    forall|other: usize| #[trigger]
        list.contains_key(other) && other != id ==> !fresh[other].contains(key)
            && !list[other].pushed().contains(key)
}

proof fn lemma_only_of(
    mode: Modes,
    reapply: bool,
    state: Map<Seq<char>, bool>,
    list: Map<usize, GpuInterface>,
    fresh: Map<usize, Seq<InodeKey>>,
    id: usize,
    key: InodeKey,
)
    requires
        only_of(list, fresh, id, key),
    ensures
        belongs_to(
            in_order(list.dom()),
            action_of(mode, reapply, state, list),
            list,
            fresh,
            id,
            key,
        ),
{
    lemma_in_order(list.dom());
    assert forall|other: usize| #[trigger]
        in_order(list.dom()).contains(other) && other != id implies !fresh[other].contains(key)
        && !list[other].pushed().contains(key) by {
        assert(list.contains_key(other));
    }
}

/// Once hybrid mode was applied, every entry of every GPU that can be used is tracked as not
/// blocked, under the number of the GPU, whatever was written for it before.
pub proof fn law_hybrid_tracks_every_entry_as_open(
    maps: KernelMaps,
    reapply: bool,
    state: Map<Seq<char>, bool>,
    list: Map<usize, GpuInterface>,
    fresh: Map<usize, Seq<InodeKey>>,
    id: usize,
    key: InodeKey,
)
    requires
        list.contains_key(id),
        list[id].hardware().available,
        fresh[id].contains(key),
        only_of(list, fresh, id, key),
    ensures
        ({
            let after = applied(maps, Modes::Hybrid, reapply, state, list, fresh);
            &&& after.blocked.contains_key(key)
            &&& after.blocked[key].blocked == 0
            &&& after.blocked[key].gpu_id == list[id].number()
        }),
{
    lemma_only_of(Modes::Hybrid, reapply, state, list, fresh, id, key);
    lemma_applied(maps, Modes::Hybrid, reapply, state, list, fresh, id, key);
}

/// Once integrated or smart mode was applied, every entry of a discrete GPU that can be used and
/// does not drive the default display is tracked as blocked, under the number of the GPU; and in
/// smart mode every entry of an integrated GPU that can be used and drives it is tracked as not
/// blocked.
pub proof fn law_offload_entries_are_tracked_as_blocked(
    maps: KernelMaps,
    mode: Modes,
    reapply: bool,
    state: Map<Seq<char>, bool>,
    list: Map<usize, GpuInterface>,
    fresh: Map<usize, Seq<InodeKey>>,
    id: usize,
    key: InodeKey,
)
    requires
        mode == Modes::Integrated || mode == Modes::Smart,
        list.contains_key(id),
        list[id].hardware().available,
        fresh[id].contains(key),
        only_of(list, fresh, id, key),
    ensures
        ({
            let after = applied(maps, mode, reapply, state, list, fresh);
            let device = list[id].hardware();
            &&& device.discrete && !device.default ==> after.blocked.contains_key(key)
                && after.blocked[key].blocked == 1 && after.blocked[key].gpu_id == id as u32
            &&& mode == Modes::Smart && !device.discrete && device.default
                ==> after.blocked.contains_key(key) && after.blocked[key].blocked == 0
                && after.blocked[key].gpu_id == list[id].number()
        }),
{
    lemma_only_of(mode, reapply, state, list, fresh, id, key);
    lemma_applied(maps, mode, reapply, state, list, fresh, id, key);
}

/// Once manual mode was applied, every entry of every GPU that can be used is tracked: as blocked
/// if the GPU is recorded as blocked, records are applied again and the GPU does not drive the
/// default display, and as not blocked otherwise.
pub proof fn law_manual_tracks_every_entry_by_the_record(
    maps: KernelMaps,
    reapply: bool,
    state: Map<Seq<char>, bool>,
    list: Map<usize, GpuInterface>,
    fresh: Map<usize, Seq<InodeKey>>,
    id: usize,
    key: InodeKey,
)
    requires
        list.contains_key(id),
        list[id].hardware().available,
        fresh[id].contains(key),
        only_of(list, fresh, id, key),
    ensures
        ({
            let after = applied(maps, Modes::Manual, reapply, state, list, fresh);
            let address = list[id].hardware().pci.pci_address@;
            &&& after.blocked.contains_key(key)
            &&& after.blocked[key].blocked == if reapply && state.contains_key(address)
                && state[address] && !list[id].hardware().default {
                1u8
            } else {
                0u8
            }
        }),
{
    lemma_only_of(Modes::Manual, reapply, state, list, fresh, id, key);
    lemma_applied(maps, Modes::Manual, reapply, state, list, fresh, id, key);
}

proof fn lemma_syncs_keep(
    maps: KernelMaps,
    ids: Seq<usize>,
    f: spec_fn(usize) -> Option<ModeAction>,
    list: Map<usize, GpuInterface>,
    fresh: Map<usize, Seq<InodeKey>>,
    key: InodeKey,
)
    requires
        acts_on_argument(f),
        forall|i: int|
            0 <= i < ids.len() && f(#[trigger] ids[i]) is Some ==> !fresh[ids[i]].contains(key)
                && !list[ids[i]].pushed().contains(key),
    ensures
        ({
            let after = apply_all(maps, plan_updates(ids.filter_map(f), list, fresh));
            &&& after.blocked.contains_key(key) == maps.blocked.contains_key(key)
            &&& maps.blocked.contains_key(key) ==> after.blocked[key] == maps.blocked[key]
        }),
    decreases ids.len(),
{
    if ids.len() > 0 {
        let rest = ids.drop_last();
        let last = ids.last();
        let plan = ids.filter_map(f);
        assert(ids[ids.len() - 1] == last);
        assert forall|i: int|
            0 <= i < rest.len() && f(#[trigger] rest[i]) is Some implies !fresh[rest[i]].contains(
            key,
        ) && !list[rest[i]].pushed().contains(key) by {
            assert(rest[i] == ids[i]);
        }
        lemma_syncs_keep(maps, rest, f, list, fresh, key);
        let middle = apply_all(maps, plan_updates(rest.filter_map(f), list, fresh));
        if let Some(action) = f(last) {
            assert(plan.drop_last() =~= rest.filter_map(f));
            assert(plan.last() == action);
            let updates = action_updates(action, list, fresh);
            lemma_apply_all_concat(maps, plan_updates(rest.filter_map(f), list, fresh), updates);
            if let ModeAction::Sync { id, gpu_id, blocked } = action {
                law_sync_leaves_exactly_the_current_entries(
                    middle,
                    list[id].pushed(),
                    fresh[id],
                    gpu_id,
                    blocked,
                );
            }
        }
    }
}

/// A mode leaves alone what belongs to GPUs that it does not write: an entry that only one GPU has
/// stays as it was in every mode if that GPU cannot be used; in integrated mode unless the GPU is
/// a discrete one that does not drive the default display; and in smart mode unless it is that or
/// an integrated one that does.
pub proof fn law_other_entries_stay_as_they_were(
    maps: KernelMaps,
    mode: Modes,
    reapply: bool,
    state: Map<Seq<char>, bool>,
    list: Map<usize, GpuInterface>,
    fresh: Map<usize, Seq<InodeKey>>,
    id: usize,
    key: InodeKey,
)
    requires
        list.contains_key(id),
        only_of(list, fresh, id, key),
        ({
            let device = list[id].hardware();
            ||| !device.available
            ||| mode == Modes::Integrated && !(device.discrete && !device.default)
            ||| mode == Modes::Smart && device.discrete == device.default
        }),
    ensures
        ({
            let after = applied(maps, mode, reapply, state, list, fresh);
            &&& after.blocked.contains_key(key) == maps.blocked.contains_key(key)
            &&& maps.blocked.contains_key(key) ==> after.blocked[key] == maps.blocked[key]
        }),
{
    let ids = in_order(list.dom());
    let f = action_of(mode, reapply, state, list);
    lemma_in_order(list.dom());
    assert forall|i: int|
        0 <= i < ids.len() && f(#[trigger] ids[i]) is Some implies !fresh[ids[i]].contains(key)
        && !list[ids[i]].pushed().contains(key) by {
        assert(ids.contains(ids[i]));
        assert(list.contains_key(ids[i]));
    }
    lemma_syncs_keep(maps, ids, f, list, fresh, key);
    let syncs = sync_plan(mode, reapply, state, list);
    assert(mode_plan(mode, reapply, state, list).drop_last() =~= syncs);
    let last = seq![MapUpdate::Mode { mode: mode.number() as u8 }];
    let middle = apply_all(maps, plan_updates(syncs, list, fresh));
    lemma_apply_all_concat(maps, plan_updates(syncs, list, fresh), last);
    assert(last.drop_last() =~= Seq::empty());
    assert(apply_all(middle, last) == last[0].apply(apply_all(middle, last.drop_last())));
}

/// The GPUs that can be used are `a` and `b`, and no others.
pub open spec fn only_two(list: Map<usize, GpuDevice>, a: usize, b: usize) -> bool {
    &&& a != b
    &&& list.contains_key(a) && list[a].available
    &&& list.contains_key(b) && list[b].available
    &&& forall|id: usize| #[trigger]
        list.contains_key(id) && list[id].available ==> id == a || id == b
}

/// Two GPUs are all that can be used exactly if two can be.
proof fn lemma_only_two(list: Map<usize, GpuDevice>, a: usize, b: usize)
    requires
        a != b,
        list.contains_key(a) && list[a].available,
        list.contains_key(b) && list[b].available,
    ensures
        only_two(list, a, b) <==> available_ids(list).len() == 2,
{
    let ids = in_order(list.dom());
    let found = available_ids(list);
    lemma_in_order(list.dom());
    assert(ids.no_duplicates());
    lemma_filter_no_duplicates(ids, is_available(list));
    lemma_filter_member(ids, is_available(list), a);
    lemma_filter_member(ids, is_available(list), b);
    assert(ids.contains(a) && ids.contains(b));
    let i = choose|i: int| 0 <= i < found.len() && found[i] == a;
    let j = choose|j: int| 0 <= j < found.len() && found[j] == b;
    assert(i != j);
    if found.len() == 2 {
        assert forall|id: usize| #[trigger]
            list.contains_key(id) && list[id].available implies id == a || id == b by {
            assert(ids.contains(id));
            lemma_filter_member(ids, is_available(list), id);
            let k = choose|k: int| 0 <= k < found.len() && found[k] == id;
            assert(k == i || k == j);
        }
    }
    if only_two(list, a, b) && found.len() > 2 {
        let k: int = if i != 0 && j != 0 {
            0
        } else if i != 1 && j != 1 {
            1
        } else {
            2
        };
        let id = found[k];
        assert(found.contains(id));
        lemma_filter_member(ids, is_available(list), id);
        assert(list.contains_key(id));
        assert(id == a || id == b);
        assert(false);
    }
}

/// A system is a laptop exactly if two GPUs can be used, of which the default one is integrated
/// and the other discrete, and a desktop exactly if they are the other way round. GPUs that cannot
/// be used make no difference.
pub proof fn law_kind_of_system(list: BTreeMap<usize, GpuDevice>, kind: SystemType)
    requires
        call_ensures(SystemType::from_gpulist, (&list,), kind),
    ensures
        kind == SystemType::Laptop <==> exists|a: usize, b: usize| #[trigger]
            only_two(list@, a, b) && list@[a].default && !list@[a].discrete && !list@[b].default
                && list@[b].discrete,
        kind == SystemType::Desktop <==> exists|a: usize, b: usize| #[trigger]
            only_two(list@, a, b) && list@[a].default && list@[a].discrete && !list@[b].default
                && !list@[b].discrete,
{
    let map = list@;
    if kind == SystemType::Laptop {
        let b = choose|b: usize| #[trigger]
            map.contains_key(b) && map[b].available && map[b].default == false && map[b].discrete
                == true;
        let a = choose|a: usize| #[trigger]
            map.contains_key(a) && map[a].available && map[a].default == true && map[a].discrete
                == false;
        lemma_only_two(map, a, b);
    }
    if kind == SystemType::Desktop {
        let a = choose|a: usize| #[trigger]
            map.contains_key(a) && map[a].available && map[a].default == true && map[a].discrete
                == true;
        let b = choose|b: usize| #[trigger]
            map.contains_key(b) && map[b].available && map[b].default == false && map[b].discrete
                == false;
        lemma_only_two(map, a, b);
    }
    assert forall|a: usize, b: usize| #[trigger] only_two(map, a, b) implies available_ids(
        map,
    ).len() == 2 by {
        lemma_only_two(map, a, b);
    }
    if exists|a: usize, b: usize| #[trigger]
        only_two(map, a, b) && map[a].default && !map[a].discrete && !map[b].default
            && map[b].discrete {
        let (a, b) = choose|a: usize, b: usize| #[trigger]
            only_two(map, a, b) && map[a].default && !map[a].discrete && !map[b].default
                && map[b].discrete;
        assert(has_gpu(map, true, false));
        assert(has_gpu(map, false, true));
        assert(!has_gpu(map, true, true));
    }
    if exists|a: usize, b: usize| #[trigger]
        only_two(map, a, b) && map[a].default && map[a].discrete && !map[b].default
            && !map[b].discrete {
        let (a, b) = choose|a: usize, b: usize| #[trigger]
            only_two(map, a, b) && map[a].default && map[a].discrete && !map[b].default
                && !map[b].discrete;
        assert(has_gpu(map, true, true));
        assert(has_gpu(map, false, false));
    }
}

/// The kind of a system is the same whether its GPUs are given as devices or as they are served.
pub proof fn law_served_gpus_make_the_same_system(
    list: BTreeMap<usize, GpuDevice>,
    served: BTreeMap<usize, GpuInterface>,
    kind: SystemType,
    other: SystemType,
)
    requires
        list@.dom() == served@.dom(),
        forall|id: usize| #[trigger]
            list@.contains_key(id) ==> served@[id].hardware() == list@[id],
        call_ensures(SystemType::from_gpulist, (&list,), kind),
        call_ensures(SystemType::from_interfaces, (&served,), other),
    ensures
        kind == other,
{
    assert(devices(served@) =~= list@);
}

/// The number under which the kernel side knows a mode, and under which it is asked for on the bus:
/// integrated is 0, hybrid 1, manual 2 and smart 3.
pub proof fn law_modes_have_the_numbers_of_the_kernel_side(mode: Modes, number: u32)
    requires
        call_ensures(Modes::to_u32, (mode,), number),
    ensures
        mode == Modes::Integrated <==> number == INTEGRATED,
        mode == Modes::Hybrid <==> number == HYBRID,
        mode == Modes::Manual <==> number == MANUAL,
        mode == Modes::Smart <==> number == SMART,
        number <= 3,
{
}

/// The mode that is written to the kernel side, and the one that is told on the bus, are the one
/// that is applied, under the same number; and a number leads back to the mode.
pub proof fn law_mode_is_told_by_its_number(
    mode_int: ModeInterface,
    action: ModeAction,
    number: u32,
    mode: Option<Modes>,
)
    requires
        call_ensures(ModeInterface::update_mode_bpf_map, (mode_int.mode,), action),
        call_ensures(ModeInterface::mode, (&mode_int,), number),
        call_ensures(Modes::from_u32, (number,), mode),
    ensures
        action matches ModeAction::WriteMode { mode: written } && written == number,
        mode == Some(mode_int.mode),
        number <= 3,
{
}

/// The names of the modes.
pub proof fn law_modes_go_by_their_names(mode: Modes, name: &'static str)
    requires
        call_ensures(Modes::name, (mode,), name),
    ensures
        mode == Modes::Integrated ==> name@ == "Integrated"@,
        mode == Modes::Hybrid ==> name@ == "Hybrid"@,
        mode == Modes::Manual ==> name@ == "Manual"@,
        mode == Modes::Smart ==> name@ == "Smart"@,
{
}

/// A mode that cannot be applied is refused in words that hold its name.
pub proof fn law_refused_mode_is_named(
    mode_int: ModeInterface,
    list: BTreeMap<usize, GpuInterface>,
    mode: Modes,
    plan: Result<Vec<ModeAction>, FdoError>,
    name: &'static str,
)
    requires
        mode_int.wf(),
        call_ensures(ModeInterface::apply_mode, (&mode_int, &list, mode), plan),
        call_ensures(Modes::name, (mode,), name),
    ensures
        plan matches Err(err) ==> has_text(err.text(), name@),
{
    if let Err(err) = plan {
        let head = "Couldn't set mode to "@;
        let i = head.len() as int;
        assert(err.text().subrange(i, i + name@.len()) =~= name@);
        assert(occurs_at(err.text(), name@, i));
    }
}

} // verus!
