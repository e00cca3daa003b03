//! What holds of GPUs and the entries written for them.
use crate::blocker::{lemma_filter_member, not_among, stale_keys};
use crate::debug::claimed;
use crate::errors::{CardwireEbpfError, FdoError};
use crate::gpu::{
    all_blocked, answers_request, answers_step, insertions, is_sync, removals, sync_updates, BlockedProbes,
    GpuInterface, InodeSync, NodeCheck, SetBlockState, SetBlockStep, SyncStep,
};
use crate::helpers::{denies, pid_lookup, Caller, INTEGRATED, MANUAL};
use crate::inode::{
    drm_keys, gpu_keys, hwmon_keys, inodes_error, node_key, nvidia_keys, pci_keys, probe_at, texts,
    InodeProbes, LinkProbe,
};
use crate::keys::{key_of, state_of, InodeKey, InodeState};
use crate::maps::{apply_all, lemma_apply_all_concat, KernelMaps, LookupReply, MapUpdate};
use crate::state::CardwireGpuState;
use crate::text::{decimal, has_text, occurs_at};
use crate::types::{GpuDevice, Modes};
use vstd::prelude::*;

verus! {

/// Only tracked entries differ.
pub open spec fn differ_in_entries(before: KernelMaps, after: KernelMaps) -> bool {
    after == (KernelMaps { blocked: after.blocked, ..before })
}

/// Removals take out exactly what they name.
pub proof fn lemma_removals(maps: KernelMaps, keys: Seq<InodeKey>)
    ensures
        differ_in_entries(maps, apply_all(maps, removals(keys))),
        forall|k: InodeKey| #[trigger]
            apply_all(maps, removals(keys)).blocked.contains_key(k) <==> maps.blocked.contains_key(
                k,
            ) && !keys.contains(k),
        forall|k: InodeKey| #[trigger]
            apply_all(maps, removals(keys)).blocked.contains_key(k) ==> apply_all(
                maps,
                removals(keys),
            ).blocked[k] == maps.blocked[k],
    decreases keys.len(),
{
    let updates = removals(keys);
    let after = apply_all(maps, updates);
    if keys.len() > 0 {
        let rest = keys.drop_last();
        lemma_removals(maps, rest);
        assert(updates.drop_last() =~= removals(rest));
        assert forall|k: InodeKey| #[trigger]
            after.blocked.contains_key(k) <==> maps.blocked.contains_key(k) && !keys.contains(
            k,
        ) by {
            lemma_last_or_rest(keys, k);
        }
    }
}

/// Insertions write exactly what they name.
pub proof fn lemma_insertions(maps: KernelMaps, keys: Seq<InodeKey>, gpu_id: u32, blocked: bool)
    ensures
        differ_in_entries(maps, apply_all(maps, insertions(keys, gpu_id, blocked))),
        forall|k: InodeKey| #[trigger]
            apply_all(maps, insertions(keys, gpu_id, blocked)).blocked.contains_key(k)
                <==> maps.blocked.contains_key(k) || keys.contains(k),
        forall|k: InodeKey| #[trigger]
            apply_all(maps, insertions(keys, gpu_id, blocked)).blocked.contains_key(k)
                ==> apply_all(maps, insertions(keys, gpu_id, blocked)).blocked[k]
                == if keys.contains(k) {
                state_of(gpu_id, blocked)
            } else {
                maps.blocked[k]
            },
    decreases keys.len(),
{
    let updates = insertions(keys, gpu_id, blocked);
    let after = apply_all(maps, updates);
    if keys.len() > 0 {
        let rest = keys.drop_last();
        lemma_insertions(maps, rest, gpu_id, blocked);
        assert(updates.drop_last() =~= insertions(rest, gpu_id, blocked));
        assert forall|k: InodeKey| #[trigger]
            after.blocked.contains_key(k) <==> maps.blocked.contains_key(k) || keys.contains(k) by {
            lemma_last_or_rest(keys, k);
        }
        assert forall|k: InodeKey| #[trigger] after.blocked.contains_key(k) implies after.blocked[k]
            == if keys.contains(k) {
            state_of(gpu_id, blocked)
        } else {
            maps.blocked[k]
        } by {
            lemma_last_or_rest(keys, k);
        }
    }
}

proof fn lemma_last_or_rest(keys: Seq<InodeKey>, k: InodeKey)
    requires
        keys.len() > 0,
    ensures
        keys.contains(k) <==> keys.last() == k || keys.drop_last().contains(k),
{
    let rest = keys.drop_last();
    if keys.contains(k) {
        let i = choose|i: int| 0 <= i < keys.len() && keys[i] == k;
        if i < rest.len() {
            assert(rest[i] == k);
        }
    }
    if rest.contains(k) {
        let i = choose|i: int| 0 <= i < rest.len() && rest[i] == k;
        assert(keys[i] == k);
    }
    assert(keys[keys.len() - 1] == keys.last());
}

/// A sync that is carried out leaves every entry of the GPU with the new state, and none of the
/// entries that the GPU had before and has no more. Everything else stays as it was.
pub proof fn law_sync_leaves_exactly_the_current_entries(
    maps: KernelMaps,
    pushed: Seq<InodeKey>,
    fresh: Seq<InodeKey>,
    gpu_id: u32,
    blocked: bool,
)
    ensures
        ({
            let after = apply_all(maps, sync_updates(pushed, fresh, gpu_id, blocked));
            &&& differ_in_entries(maps, after)
            &&& forall|k: InodeKey| #[trigger]
                after.blocked.contains_key(k) <==> fresh.contains(k) || (maps.blocked.contains_key(
                    k,
                ) && !pushed.contains(k))
            &&& forall|k: InodeKey| #[trigger]
                after.blocked.contains_key(k) ==> after.blocked[k] == if fresh.contains(k) {
                    state_of(gpu_id, blocked)
                } else {
                    maps.blocked[k]
                }
        }),
{
    let stale = stale_keys(pushed, fresh);
    let middle = apply_all(maps, removals(stale));
    let after = apply_all(maps, sync_updates(pushed, fresh, gpu_id, blocked));
    lemma_removals(maps, stale);
    lemma_insertions(middle, fresh, gpu_id, blocked);
    lemma_apply_all_concat(maps, removals(stale), insertions(fresh, gpu_id, blocked));
    assert forall|k: InodeKey| #[trigger]
        after.blocked.contains_key(k) <==> fresh.contains(k) || (maps.blocked.contains_key(k)
            && !pushed.contains(k)) by {
        lemma_filter_member(pushed, not_among(fresh), k);
        assert(middle.blocked.contains_key(k) <==> maps.blocked.contains_key(k) && !stale.contains(
            k,
        ));
    }
    assert forall|k: InodeKey| #[trigger] after.blocked.contains_key(k) implies after.blocked[k]
        == if fresh.contains(k) {
        state_of(gpu_id, blocked)
    } else {
        maps.blocked[k]
    } by {
        assert(middle.blocked.contains_key(k) ==> middle.blocked[k] == maps.blocked[k]);
    }
}

/// In manual mode a process that is not held to a GPU is refused the entries of a GPU exactly if
/// the GPU was last synced as blocked. In integrated mode that goes for every process.
pub proof fn law_blocked_gpu_is_refused(
    maps: KernelMaps,
    pushed: Seq<InodeKey>,
    fresh: Seq<InodeKey>,
    gpu_id: u32,
    blocked: bool,
    key: InodeKey,
    caller: Caller,
)
    requires
        maps.mode == INTEGRATED || (maps.mode == MANUAL && pid_lookup(
            maps,
            caller,
        ).forced_gpu() is None),
        fresh.contains(key),
    ensures
        denies(apply_all(maps, sync_updates(pushed, fresh, gpu_id, blocked)), key, caller)
            == blocked,
{
    law_sync_leaves_exactly_the_current_entries(maps, pushed, fresh, gpu_id, blocked);
    let after = apply_all(maps, sync_updates(pushed, fresh, gpu_id, blocked));
    assert(after.blocked.contains_key(key));
}

/// What a GPU has on record once it was asked for write number `asked` of a sync.
pub open spec fn on_record(pushed: Seq<InodeKey>, sync: InodeSync, asked: nat) -> Seq<InodeKey> {
    if asked < sync.stale@.len() {
        pushed
    } else {
        sync.fresh@
    }
}

/// At every point of a sync, every entry that was written for the GPU is on its record, so that
/// it can be removed later: whatever is tracked is on record, or it was tracked before and did
/// not belong to the GPU. `done` writes have taken place, and the one that was asked for last is
/// the last of them or the one after it.
pub proof fn law_written_entries_stay_removable(
    maps: KernelMaps,
    pushed: Seq<InodeKey>,
    sync: InodeSync,
    asked: nat,
    done: nat,
    key: InodeKey,
)
    requires
        is_sync(sync, pushed, sync.fresh@, sync.gpu_id, sync.blocked),
        asked <= done <= asked + 1,
        done <= sync.updates().len(),
        apply_all(maps, sync.updates().take(done as int)).blocked.contains_key(key),
    ensures
        on_record(pushed, sync, asked).contains(key) || (maps.blocked.contains_key(key)
            && !pushed.contains(key)),
{
    let stale = sync.stale@;
    let fresh = sync.fresh@;
    let updates = sync.updates();
    if done <= stale.len() {
        let part = stale.take(done as int);
        assert(updates.take(done as int) =~= removals(part));
        lemma_removals(maps, part);
        if asked == stale.len() {
            assert(part =~= stale);
            lemma_filter_member(pushed, not_among(fresh), key);
        }
    } else {
        let part = fresh.take(done - stale.len());
        assert(updates.take(done as int) =~= removals(stale) + insertions(
            part,
            sync.gpu_id,
            sync.blocked,
        ));
        let middle = apply_all(maps, removals(stale));
        lemma_removals(maps, stale);
        lemma_insertions(middle, part, sync.gpu_id, sync.blocked);
        lemma_apply_all_concat(maps, removals(stale), insertions(part, sync.gpu_id, sync.blocked));
        lemma_filter_member(pushed, not_among(fresh), key);
        if part.contains(key) {
            let i = choose|i: int| 0 <= i < part.len() && part[i] == key;
            assert(fresh[i] == key);
        }
    }
}

/// Every tracked entry is on the record of a GPU, or among those that GPUs had written that are
/// gone.
pub open spec fn accounted(
    maps: KernelMaps,
    list: Map<usize, GpuInterface>,
    gone: Seq<InodeKey>,
) -> bool {
    forall|key: InodeKey| #[trigger]
        maps.blocked.contains_key(key) ==> claimed(list, key) || gone.contains(key)
}

/// Syncing a GPU, whether or not it is carried through, loses account of no tracked entry.
pub proof fn law_sync_keeps_account_of_every_entry(
    maps: KernelMaps,
    list: Map<usize, GpuInterface>,
    gone: Seq<InodeKey>,
    after: Map<usize, GpuInterface>,
    id: usize,
    sync: InodeSync,
    asked: nat,
    done: nat,
)
    requires
        accounted(maps, list, gone),
        list.contains_key(id),
        is_sync(sync, list[id].pushed(), sync.fresh@, sync.gpu_id, sync.blocked),
        asked <= done <= asked + 1,
        done <= sync.updates().len(),
        after.dom() == list.dom(),
        after[id].pushed() == on_record(list[id].pushed(), sync, asked),
        forall|other: usize| #[trigger]
            list.contains_key(other) && other != id ==> after[other] == list[other],
    ensures
        accounted(apply_all(maps, sync.updates().take(done as int)), after, gone),
{
    let now = apply_all(maps, sync.updates().take(done as int));
    assert forall|key: InodeKey| #[trigger] now.blocked.contains_key(key) implies claimed(
        after,
        key,
    ) || gone.contains(key) by {
        law_written_entries_stay_removable(maps, list[id].pushed(), sync, asked, done, key);
        assert(after.contains_key(id));
        if !after[id].pushed().contains(key) && !gone.contains(key) {
            let other = choose|other: usize| #[trigger]
                list.contains_key(other) && list[other].pushed().contains(key);
            assert(other != id);
            assert(after.contains_key(other));
        }
    }
}

/// What the map of tracked entries answers about an entry.
pub open spec fn lookup(maps: KernelMaps, key: InodeKey) -> NodeCheck {
    Ok(
        if maps.blocked.contains_key(key) {
            LookupReply::Found(maps.blocked[key])
        } else {
            LookupReply::KeyNotFound
        },
    )
}

/// The keys of PCI devices hold that of the first one.
proof fn lemma_first_address(addresses: Seq<Seq<char>>, probes: Seq<LinkProbe>, ino: u64)
    requires
        addresses.len() > 0,
        probe_at(probes, 0).target == Some(ino),
    ensures
        pci_keys(addresses, probes).contains(key_of(addresses[0], ino)),
    decreases addresses.len(),
{
    let key = key_of(addresses[0], ino);
    let rest = addresses.drop_last();
    let before = pci_keys(rest, probes);
    let probe = probe_at(probes, addresses.len() - 1);
    let all = pci_keys(addresses, probes);
    if addresses.len() == 1 {
        assert(before =~= Seq::empty());
        assert(all[0] == key);
    } else {
        lemma_first_address(rest, probes, ino);
        let i = choose|i: int| 0 <= i < before.len() && before[i] == key;
        assert(all[i] == key);
    }
}

/// The nodes that tell whether a GPU is blocked are among its entries.
proof fn lemma_checked_nodes_are_entries(
    render: u32,
    card: u32,
    addresses: Seq<Seq<char>>,
    nvidia_minor: Option<u32>,
    probes: InodeProbes,
    pci_ino: u64,
)
    requires
        addresses.len() > 0,
        probe_at(probes.pci@, 0).target == Some(pci_ino),
    ensures
        ({
            let keys = gpu_keys(render, card, addresses, nvidia_minor, probes);
            &&& keys.contains(node_key("card"@, card, probes.card)->Ok_0)
            &&& keys.contains(node_key("renderD"@, render, probes.render)->Ok_0)
            &&& keys.contains(key_of(addresses[0], pci_ino))
            &&& nvidia_minor matches Some(minor) ==> keys.contains(
                node_key("nvidia"@, minor, probes.nvidia)->Ok_0,
            )
        }),
{
    let keys = gpu_keys(render, card, addresses, nvidia_minor, probes);
    let pci = pci_keys(addresses, probes.pci@);
    let drm = drm_keys(render, card, probes.drm->Ok_0@);
    let hwmon = match probes.hwmon {
        Ok(entries) => hwmon_keys(entries@),
        Err(_) => Seq::empty(),
    };
    lemma_first_address(addresses, probes.pci@, pci_ino);
    let i = choose|i: int| 0 <= i < pci.len() && pci[i] == key_of(addresses[0], pci_ino);
    assert(keys[0] == node_key("card"@, card, probes.card)->Ok_0);
    assert(keys[1] == node_key("renderD"@, render, probes.render)->Ok_0);
    assert(keys[2 + i] == pci[i]);
    if nvidia_minor is Some {
        assert(keys[(2 + pci.len() + drm.len() + hwmon.len()) as int] == nvidia_keys(
            nvidia_minor,
            probes,
        )[0]);
    }
}

/// A GPU whose entries were all written as blocked reads back as blocked, and one whose entries
/// were written as open reads back as not blocked. `probes` is what its entries were built from,
/// and `check` what the map holds on its nodes afterwards.
pub proof fn law_gpu_reads_back_as_written(
    gpu: GpuInterface,
    addresses: Seq<Seq<char>>,
    probes: InodeProbes,
    pci_ino: u64,
    maps: KernelMaps,
    blocked: bool,
    check: BlockedProbes,
)
    requires
        addresses.len() > 0,
        addresses[0] == gpu.hardware().pci.pci_address@,
        inodes_error(gpu.hardware().nvidia_minor, probes) is None,
        probe_at(probes.pci@, 0).target == Some(pci_ino),
        ({
            let device = gpu.hardware();
            let fresh = gpu_keys(device.render, device.card, addresses, device.nvidia_minor, probes);
            let after = apply_all(maps, sync_updates(gpu.pushed(), fresh, gpu.number(), blocked));
            &&& check.card == lookup(after, node_key("card"@, device.card, probes.card)->Ok_0)
            &&& check.render == lookup(
                after,
                node_key("renderD"@, device.render, probes.render)->Ok_0,
            )
            &&& check.pci == lookup(after, key_of(device.pci.pci_address@, pci_ino))
            &&& device.nvidia_minor matches Some(minor) ==> check.nvidia == lookup(
                after,
                node_key("nvidia"@, minor, probes.nvidia)->Ok_0,
            )
        }),
    ensures
        all_blocked(gpu.hardware(), gpu.number(), check) == Ok::<bool, Seq<char>>(blocked),
{
    let device = gpu.hardware();
    let fresh = gpu_keys(device.render, device.card, addresses, device.nvidia_minor, probes);
    law_sync_leaves_exactly_the_current_entries(maps, gpu.pushed(), fresh, gpu.number(), blocked);
    lemma_checked_nodes_are_entries(
        device.render,
        device.card,
        addresses,
        device.nvidia_minor,
        probes,
        pci_ino,
    );
    let after = apply_all(maps, sync_updates(gpu.pushed(), fresh, gpu.number(), blocked));
    assert(after.blocked.contains_key(node_key("card"@, device.card, probes.card)->Ok_0));
    assert(after.blocked.contains_key(node_key("renderD"@, device.render, probes.render)->Ok_0));
    assert(after.blocked.contains_key(key_of(device.pci.pci_address@, pci_ino)));
    if let Some(minor) = device.nvidia_minor {
        assert(after.blocked.contains_key(node_key("nvidia"@, minor, probes.nvidia)->Ok_0));
    }
}

/// By hand, a GPU is only blocked in manual mode, while it can be used, and while it drives
/// neither the default display nor any other: the entries are written as blocked only once its
/// displays were probed and found idle, and they are only probed under those conditions.
pub proof fn law_block_by_hand_is_guarded(
    gpu: GpuInterface,
    mode: Modes,
    block: bool,
    state: SetBlockState,
    step: SetBlockStep,
)
    requires
        answers_request(gpu.hardware(), gpu.number(), mode, block, state, step),
    ensures
        step matches SetBlockStep::Sync { blocked: true, .. } ==> state == SetBlockState::Probed(
            Some(false),
        ),
        step is ProbeDisplay ==> state is Asked && block && mode == Modes::Manual
            && gpu.hardware().available && !gpu.hardware().default,
        state is Asked && step is Sync ==> mode == Modes::Manual && gpu.hardware().available,
        step matches SetBlockStep::SaveState { blocked } ==> blocked == block && state
            matches SetBlockState::Synced(Ok(_)),
{
}

/// How much of a request to block or unblock a GPU is left.
pub open spec fn request_measure(state: SetBlockState) -> nat {
    match state {
        SetBlockState::Asked => 5,
        SetBlockState::Probed(_) => 4,
        SetBlockState::Synced(_) => 3,
        SetBlockState::Saved => 2,
        SetBlockState::Announced => 1,
        SetBlockState::Refreshed => 0,
    }
}

/// A request to block or unblock a GPU comes to its end: each step leaves fewer to do.
pub proof fn law_request_ends(
    gpu: GpuInterface,
    mode: Modes,
    block: bool,
    state: SetBlockState,
    step: SetBlockStep,
    next: SetBlockState,
)
    requires
        answers_request(gpu.hardware(), gpu.number(), mode, block, state, step),
        answers_step(step, next),
    ensures
        request_measure(next) < request_measure(state),
{
}

/// A request that is served goes through every stage: once the entries were written, what was
/// asked for is saved, for a block and for an unblock alike; the display server is only told once
/// it was saved, the list of GPUs is only sent out after that, and the request only ends last.
pub proof fn law_request_goes_through_every_stage(
    gpu: GpuInterface,
    mode: Modes,
    block: bool,
    state: SetBlockState,
    step: SetBlockStep,
)
    requires
        call_ensures(GpuInterface::set_block, (&gpu, mode, block, state), step),
    ensures
        state matches SetBlockState::Synced(Ok(_)) ==> (step matches SetBlockStep::SaveState {
            blocked,
        } && blocked == block),
        step matches SetBlockStep::SaveState { blocked } ==> blocked == block && state
            matches SetBlockState::Synced(Ok(_)),
        step is SendUevent <==> state is Saved,
        step is RefreshSwitcheroo <==> state is Announced,
        step is Done <==> state is Refreshed,
        step is Sync ==> state is Asked || state is Probed,
        step is Refuse ==> state is Asked || state is Probed || state is Synced,
{
}

/// Between the write of a GPU's entries and the word to the display server lies exactly one step:
/// what was asked for is saved.
pub proof fn law_nothing_is_announced_unsaved(
    gpu: GpuInterface,
    mode: Modes,
    block: bool,
    written: SetBlockState,
    first: SetBlockStep,
    between: SetBlockState,
    second: SetBlockStep,
)
    requires
        written matches SetBlockState::Synced(Ok(_)),
        call_ensures(GpuInterface::set_block, (&gpu, mode, block, written), first),
        answers_step(first, between),
        call_ensures(GpuInterface::set_block, (&gpu, mode, block, between), second),
    ensures
        first == (SetBlockStep::SaveState { blocked: block }),
        second is SendUevent,
{
}

/// A request that nothing speaks against is not refused when it is made: in manual mode, for a GPU
/// that can be used, an unblock goes straight to the write, and so does a block once its displays
/// were found idle, unless the GPU drives the default display. What is written, probed and
/// announced is the GPU itself.
pub proof fn law_request_is_granted(
    gpu: GpuInterface,
    mode: Modes,
    block: bool,
    state: SetBlockState,
    step: SetBlockStep,
)
    requires
        call_ensures(GpuInterface::set_block, (&gpu, mode, block, state), step),
    ensures
        state is Asked && mode == Modes::Manual && gpu.hardware().available && !block ==> step == (
        SetBlockStep::Sync { gpu_id: gpu.number(), blocked: false }),
        state is Asked && mode == Modes::Manual && gpu.hardware().available && block
            && !gpu.hardware().default ==> step == (SetBlockStep::ProbeDisplay {
            card: gpu.hardware().card,
        }),
        state == SetBlockState::Probed(Some(false)) ==> step == (SetBlockStep::Sync {
            gpu_id: gpu.number(),
            blocked: true,
        }),
        step matches SetBlockStep::SendUevent { card } ==> card == gpu.hardware().card,
        step matches SetBlockStep::ProbeDisplay { card } ==> card == gpu.hardware().card,
        step matches SetBlockStep::Sync { gpu_id, .. } ==> gpu_id == gpu.number(),
{
}

/// A request is refused exactly where one of these speaks against it: another mode, a GPU that
/// cannot be used, a block of the GPU that drives the default display, a display that is in use
/// or cannot be probed, and a write that failed. A failed write is told with its own error, and
/// what could not be found out is told as a failure, not as a denial.
pub proof fn law_request_is_refused_for_a_reason(
    gpu: GpuInterface,
    mode: Modes,
    block: bool,
    state: SetBlockState,
    step: SetBlockStep,
)
    requires
        call_ensures(GpuInterface::set_block, (&gpu, mode, block, state), step),
    ensures
        step is Refuse <==> {
            ||| state is Asked && (mode != Modes::Manual || !gpu.hardware().available || (block
                && gpu.hardware().default))
            ||| state == SetBlockState::Probed(Some(true))
            ||| state == SetBlockState::Probed(None)
            ||| state matches SetBlockState::Synced(Err(_))
        },
        state matches SetBlockState::Synced(Err(err)) ==> step == SetBlockStep::Refuse(err),
        step matches SetBlockStep::Refuse(err) ==> (state is Asked ==> err is AccessDenied) && (
        state == SetBlockState::Probed(Some(true)) ==> err is AccessDenied) && (state
            == SetBlockState::Probed(None) ==> err is Failed),
{
}

/// A GPU is told to be blocked only if each of its nodes is tracked for this very GPU and marked
/// as blocked: its card, render and PCI nodes, and its NVIDIA node if it has one.
pub proof fn law_gpu_is_blocked_only_if_every_node_is(
    gpu: GpuInterface,
    probes: BlockedProbes,
    answer: Result<bool, FdoError>,
)
    requires
        call_ensures(GpuInterface::block, (&gpu, probes), answer),
    ensures
        answer == Ok::<bool, FdoError>(true) <==> {
            &&& marked_for(probes.card, gpu.number())
            &&& marked_for(probes.render, gpu.number())
            &&& marked_for(probes.pci, gpu.number())
            &&& gpu.hardware().nvidia_minor is Some ==> marked_for(probes.nvidia, gpu.number())
        },
{
}

/// A node is tracked for a GPU, and marked as blocked.
pub open spec fn marked_for(check: NodeCheck, gpu_id: u32) -> bool {
    check matches Ok(LookupReply::Found(state)) && state.gpu_id == gpu_id && state.blocked == 1
}

/// The map could be asked about a node, whatever it answered.
pub open spec fn was_looked_up(check: NodeCheck) -> bool {
    check matches Ok(reply) && (reply is Found || reply is KeyNotFound)
}

/// Whether a GPU is blocked is answered exactly if the map could be asked about its card, render
/// and PCI nodes and, where it has one that can be read, about its NVIDIA node. The error is that
/// of the first node, in this order, that could not be asked about.
pub proof fn law_block_state_is_known_if_every_node_is(
    gpu: GpuInterface,
    probes: BlockedProbes,
    answer: Result<bool, FdoError>,
)
    requires
        call_ensures(GpuInterface::block, (&gpu, probes), answer),
    ensures
        answer is Ok <==> {
            &&& was_looked_up(probes.card)
            &&& was_looked_up(probes.render)
            &&& was_looked_up(probes.pci)
            &&& gpu.hardware().nvidia_minor is None || probes.nvidia is Err || was_looked_up(
                probes.nvidia,
            )
        },
        answer matches Err(err) ==> {
            &&& err matches FdoError::Failed(text)
            &&& probes.card matches Err(why) ==> text@ == why@
            &&& was_looked_up(probes.card) ==> (probes.render matches Err(why) ==> text@ == why@)
            &&& was_looked_up(probes.card) && was_looked_up(probes.render) ==> (
            probes.pci matches Err(why) ==> text@ == why@)
        },
{
}

/// A program can never be launched on a GPU that cannot be used. On one that can, it always can
/// in smart mode, and in every other mode exactly if the GPU is known not to be blocked.
pub proof fn law_launch_needs_an_open_gpu(
    gpu: GpuInterface,
    blocked: Result<bool, FdoError>,
    mode: Modes,
    launchable: bool,
)
    requires
        call_ensures(GpuInterface::launchable, (&gpu, &blocked, mode), launchable),
    ensures
        !gpu.hardware().available ==> !launchable,
        gpu.hardware().available && mode == Modes::Smart ==> launchable,
        gpu.hardware().available && mode != Modes::Smart ==> (launchable <==> (blocked matches Ok(
            false,
        ))),
{
}

/// A block and an unblock of the same GPU leave the same entries tracked and differ in the mark
/// alone; both take out every entry that the GPU had before and has no longer.
pub proof fn law_block_and_unblock_differ_in_the_mark(
    gpu: GpuInterface,
    inodes: Vec<InodeKey>,
    closing: InodeSync,
    opening: InodeSync,
)
    requires
        call_ensures(GpuInterface::block_gpu, (&gpu, gpu.number(), inodes), closing),
        call_ensures(GpuInterface::unblock_gpu, (&gpu, inodes), opening),
    ensures
        closing.blocked && !opening.blocked,
        closing.gpu_id == gpu.number() && opening.gpu_id == gpu.number(),
        closing.fresh@ == inodes@ && opening.fresh@ == inodes@,
        forall|key: InodeKey|
            closing.stale@.contains(key) <==> gpu.pushed().contains(key) && !inodes@.contains(key),
        forall|key: InodeKey|
            opening.stale@.contains(key) <==> gpu.pushed().contains(key) && !inodes@.contains(key),
{
    assert forall|key: InodeKey|
        stale_keys(gpu.pushed(), inodes@).contains(key) <==> gpu.pushed().contains(key)
            && !inodes@.contains(key) by {
        lemma_filter_member(gpu.pushed(), not_among(inodes@), key);
    }
}

/// Users are listed of the card and render nodes of a GPU and, for a GPU with an NVIDIA node, of
/// that node and of the one that controls all of them; of nothing else.
pub proof fn law_users_are_listed_of_every_node(gpu: GpuInterface, paths: Vec<String>)
    requires
        call_ensures(GpuInterface::lsof, (&gpu,), paths),
    ensures
        paths@.len() == if gpu.hardware().nvidia_minor is Some {
            4nat
        } else {
            2nat
        },
        paths@[0]@ == "/dev/dri/card"@ + decimal(gpu.hardware().card as nat),
        paths@[1]@ == "/dev/dri/renderD"@ + decimal(gpu.hardware().render as nat),
        gpu.hardware().nvidia_minor matches Some(minor) ==> paths@[2]@ == "/dev/nvidia"@ + decimal(
            minor as nat,
        ) && paths@[3]@ == "/dev/nvidiactl"@,
{
    assert(texts(paths@).len() == paths@.len());
    assert(texts(paths@).len() >= 2);
    assert(texts(paths@)[0] == paths@[0]@);
    assert(texts(paths@)[1] == paths@[1]@);
    if gpu.hardware().nvidia_minor is Some {
        assert(texts(paths@)[2] == paths@[2]@);
        assert(texts(paths@)[3] == paths@[3]@);
    }
}

/// The writes of a sync come in one order: what is no longer there is taken out first, then what is
/// there is written for the GPU and with the mark that were asked for. What is about to be written
/// is on record before the first of it is written, and a write that fails changes no record.
pub proof fn law_sync_records_before_it_writes(
    before: GpuInterface,
    after: GpuInterface,
    sync: InodeSync,
    done: usize,
    last: Result<(), CardwireEbpfError>,
    step: SyncStep,
)
    requires
        exists|gpu: &mut GpuInterface|
            *gpu == before && *final(gpu) == after && #[trigger] call_ensures(
                GpuInterface::sync_inodes,
                (gpu, &sync, done, last),
                step,
            ),
    ensures
        last is Err ==> after == before && step is Failed,
        last is Ok && done < sync.stale@.len() ==> after.pushed() == before.pushed() && step
            == SyncStep::Write(MapUpdate::RemoveInode { key: sync.stale@[done as int] }),
        last is Ok && sync.stale@.len() <= done < sync.stale@.len() + sync.fresh@.len() ==> {
            &&& after.pushed() == sync.fresh@
            &&& step matches SyncStep::Write(MapUpdate::InsertInode { key, state })
            &&& key == sync.fresh@[done - sync.stale@.len()]
            &&& state.gpu_id == sync.gpu_id
            &&& state.blocked == if sync.blocked {
                1u8
            } else {
                0u8
            }
        },
        step is Done <==> last is Ok && done >= sync.stale@.len() + sync.fresh@.len(),
        step is Done ==> after.pushed() == sync.fresh@,
        after.number() == before.number() && after.hardware() == before.hardware()
            && after.environment() == before.environment(),
{
}

/// What a GPU had written is handed over whole, and forgotten; nothing else of the GPU changes.
pub proof fn law_taken_entries_are_forgotten(
    before: GpuInterface,
    after: GpuInterface,
    keys: Vec<InodeKey>,
    told: Vec<InodeKey>,
)
    requires
        exists|gpu: &mut GpuInterface|
            *gpu == before && *final(gpu) == after && #[trigger] call_ensures(
                GpuInterface::take_pushed_inodes,
                (gpu,),
                keys,
            ),
        call_ensures(GpuInterface::pushed_inodes, (&before,), told),
    ensures
        keys@ == told@,
        keys@ == before.pushed(),
        after.pushed().len() == 0,
        after.number() == before.number() && after.hardware() == before.hardware(),
{
}

/// What is recorded by hand is what is read back, and the records of all other GPUs stay. A GPU
/// that is not recorded is not blocked.
pub proof fn law_record_reads_back(
    before: CardwireGpuState,
    after: CardwireGpuState,
    address: &str,
    blocked: bool,
    other: &str,
    was: bool,
    now: bool,
)
    requires
        before.wf(),
        exists|state: &mut CardwireGpuState|
            *state == before && *final(state) == after && #[trigger] call_ensures(
                CardwireGpuState::save_state,
                (state, address, blocked),
                (),
            ),
        call_ensures(CardwireGpuState::gpu_block_state, (&before, other), was),
        call_ensures(CardwireGpuState::gpu_block_state, (&after, other), now),
    ensures
        after.wf(),
        other@ == address@ ==> now == blocked,
        other@ != address@ ==> now == was,
        !before@.contains_key(other@) ==> !was,
{
}

/// The power state of a GPU is told as it was read, at a path that names the GPU's address. What
/// keeps it from being read is an input error that tells the GPU and the reason.
pub proof fn law_power_state_is_told_as_read(
    gpu: GpuInterface,
    path: String,
    read: Result<String, String>,
    state: Result<String, FdoError>,
)
    requires
        call_ensures(GpuInterface::power_state_path, (&gpu,), path),
        call_ensures(GpuInterface::power_state, (&gpu, read), state),
    ensures
        path@ == "/sys/bus/pci/devices/"@ + gpu.hardware().pci.pci_address@ + "/power_state"@,
        read matches Ok(text) ==> state == Ok::<String, FdoError>(text),
        read is Err ==> (state matches Err(err) && err is IoError),
{
}

/// What is told of a GPU is what it was built from, and nothing was written for it yet.
pub proof fn law_gpu_is_what_it_was_built_from(
    id: u32,
    device: GpuDevice,
    env: Vec<String>,
    gpu: GpuInterface,
    number: u32,
    hardware: &GpuDevice,
    environment: Vec<String>,
    written: Vec<InodeKey>,
)
    requires
        call_ensures(GpuInterface::build, (id, device, env), gpu),
        call_ensures(GpuInterface::get_id, (&gpu,), number),
        call_ensures(GpuInterface::get_device, (&gpu,), hardware),
        call_ensures(GpuInterface::env, (&gpu,), environment),
        call_ensures(GpuInterface::pushed_inodes, (&gpu,), written),
    ensures
        number == id,
        *hardware == device,
        environment@ == env@,
        written@.len() == 0,
{
}

/// Both questions whether a GPU is blocked get the same answer.
pub proof fn law_block_state_is_told_alike(
    gpu: GpuInterface,
    probes: BlockedProbes,
    answer: Result<bool, FdoError>,
    other: Result<bool, FdoError>,
)
    requires
        call_ensures(GpuInterface::block, (&gpu, probes), answer),
        call_ensures(GpuInterface::gpu_blocked, (&gpu, probes), other),
    ensures
        answer is Ok <==> other is Ok,
        answer is Ok ==> answer == other,
        answer is Err ==> answer->Err_0.text() == other->Err_0.text(),
{
}

/// The kernel side tells a state by the number and the mark that the daemon gave it.
pub proof fn law_state_carries_number_and_mark(gpu_id: u32, blocked: bool, state: InodeState)
    requires
        call_ensures(InodeState::new, (gpu_id, blocked), state),
    ensures
        state.gpu_id == gpu_id,
        blocked <==> state.blocked == 1,
        !blocked <==> state.blocked == 0,
{
}

/// Nothing is recorded at first, and a record is no longer that of a first start once something is.
pub proof fn law_record_is_empty_only_at_first(
    state: CardwireGpuState,
    first: bool,
    address: Seq<char>,
)
    requires
        state.wf(),
        call_ensures(CardwireGpuState::is_default_state, (&state,), first),
    ensures
        first ==> !state@.contains_key(address),
        state@.contains_key(address) ==> !first,
        !first ==> state@ != Map::<Seq<char>, bool>::empty(),
{
}

/// In manual mode, whatever speaks against a request speaks against one GPU, and is told in words
/// that hold its name.
pub proof fn law_refusal_names_the_gpu(
    gpu: GpuInterface,
    block: bool,
    state: SetBlockState,
    err: FdoError,
)
    requires
        call_ensures(
            GpuInterface::set_block,
            (&gpu, Modes::Manual, block, state),
            SetBlockStep::Refuse(err),
        ),
        state is Asked || state is Probed,
    ensures
        has_text(err.text(), gpu.hardware().name@),
{
    let name = gpu.hardware().name@;
    let head = if state == SetBlockState::Probed(None) {
        "could not probe display state of GPU "@
    } else {
        "GPU "@
    };
    let i = head.len() as int;
    assert(err.text().subrange(i, i + name.len()) =~= name);
    assert(occurs_at(err.text(), name, i));
}

} // verus!
