//! What holds of the GPUs that are served, and of keeping up with the bus.
use crate::blocker::{
    lemma_filter_member, lemma_filter_no_duplicates, not_among, stale_keys, EbpfBlocker,
};
use crate::debug::{
    claimed, is_offload_nvidia, unclaimed, DebugInterface, NvidiaPlan, NvidiaRun, NvidiaStep,
    PciRecord, RefreshState, RefreshStep,
};
use crate::errors::{CardwireEbpfError, FdoError};
use crate::gpu::GpuInterface;
use crate::inode::texts;
use crate::keys::InodeKey;
use crate::maps::MapUpdate;
use crate::order::{in_order, increasing, lemma_in_order};
use crate::pci::{address_of, PciList};
use crate::refresh_laws::lemma_all_pushed;
use crate::roster::{
    all_pushed, count_available, env_requests, retire_all, serve_all, served_at, EnvRequest,
    RetiredGpus, ServedGpu,
};
use crate::text::decimal;
use crate::types::{available_ids, is_available, GpuDevice, GpuVendor, Modes};
use std::collections::BTreeMap;
use vstd::prelude::*;

verus! {

/// What is kept of a list in order is in order.
proof fn lemma_filter_increasing(ids: Seq<usize>, keep: spec_fn(usize) -> bool)
    requires
        increasing(ids),
    ensures
        increasing(ids.filter(keep)),
    decreases ids.len(),
{
    reveal(Seq::filter);
    if ids.len() > 0 {
        let rest = ids.drop_last();
        let kept = rest.filter(keep);
        lemma_filter_increasing(rest, keep);
        assert forall|i: int| 0 <= i < kept.len() implies kept[i] < ids.last() by {
            assert(kept.contains(kept[i]));
            lemma_filter_member(rest, keep, kept[i]);
            let j = choose|j: int| 0 <= j < rest.len() && rest[j] == kept[i];
            assert(ids[j] == kept[i]);
        }
    }
}

/// A GPU of the list that the NVIDIA driver runs and that does not drive the default display.
pub open spec fn is_candidate(list: Map<usize, GpuInterface>, id: usize) -> bool {
    list.contains_key(id) && list[id].hardware().vendor == GpuVendor::Nvidia
        && !list[id].hardware().default
}

/// The files that NVIDIA devices share are blocked exactly where there is an NVIDIA GPU that does
/// not drive the default display, and on behalf of the one with the lowest number. Without one the
/// block is lifted whatever is known of the files; with one they are read first, and nothing
/// changes where they cannot be.
pub proof fn law_shared_files_are_blocked_for_the_first_offload_gpu(
    list: BTreeMap<usize, GpuInterface>,
    inodes: Option<Result<Vec<InodeKey>, String>>,
    plan: NvidiaPlan,
)
    requires
        call_ensures(DebugInterface::sync_nvidia_inodes, (&list, inodes), plan),
    ensures
        plan is Clear <==> forall|id: usize| !is_candidate(list@, id),
        plan is ReadInodes ==> inodes is None,
        plan is LeaveAsIs <==> !(plan is Clear) && (inodes matches Some(Err(_))),
        plan is Sync <==> !(plan is Clear) && (inodes matches Some(Ok(_))),
        plan matches NvidiaPlan::Sync { keys, gpu_id } ==> {
            &&& inodes == Some(Ok::<Vec<InodeKey>, String>(keys))
            &&& exists|id: usize| #[trigger]
                is_candidate(list@, id) && gpu_id == id as u32 && forall|other: usize| #[trigger]
                    is_candidate(list@, other) ==> id <= other
        },
{
    let map = list@;
    let ids = in_order(map.dom());
    let keep = is_offload_nvidia(map);
    let found = ids.filter(keep);
    lemma_in_order(map.dom());
    lemma_filter_increasing(ids, keep);
    assert forall|id: usize| is_candidate(map, id) <==> found.contains(id) by {
        lemma_filter_member(ids, keep, id);
        assert(ids.contains(id) <==> map.contains_key(id));
    }
    if found.len() > 0 {
        let first = found[0];
        assert(found.contains(first));
        assert(is_candidate(map, first));
        assert forall|other: usize| #[trigger] is_candidate(map, other) implies first <= other by {
            let k = choose|k: int| 0 <= k < found.len() && found[k] == other;
            assert(found[k] == other);
        }
    } else {
        assert forall|id: usize| !is_candidate(map, id) by {
            assert(!found.contains(id));
        }
    }
}

/// What is dropped is what was written for GPUs that are gone and no GPU of the list had written,
/// all of it and nothing else.
pub proof fn law_dropped_is_what_nobody_claims(
    list: BTreeMap<usize, GpuInterface>,
    previous: Vec<InodeKey>,
    updates: Vec<MapUpdate>,
)
    requires
        call_ensures(DebugInterface::drop_unclaimed_inodes, (&list, &previous), updates),
    ensures
        forall|i: int|
            0 <= i < updates@.len() ==> ((#[trigger] updates@[i]) matches MapUpdate::RemoveInode {
                key,
            } && previous@.contains(key) && !claimed(list@, key)),
        forall|key: InodeKey|
            previous@.contains(key) && !claimed(list@, key) ==> #[trigger] updates@.contains(
                MapUpdate::RemoveInode { key },
            ),
{
    let kept = previous@.filter(unclaimed(list@));
    assert forall|i: int| 0 <= i < updates@.len() implies ((#[trigger] updates@[i])
        matches MapUpdate::RemoveInode { key } && previous@.contains(key) && !claimed(
        list@,
        key,
    )) by {
        assert(kept.contains(kept[i]));
        lemma_filter_member(previous@, unclaimed(list@), kept[i]);
    }
    assert forall|key: InodeKey|
        previous@.contains(key) && !claimed(list@, key) implies #[trigger] updates@.contains(
        MapUpdate::RemoveInode { key },
    ) by {
        lemma_filter_member(previous@, unclaimed(list@), key);
        let i = choose|i: int| 0 <= i < kept.len() && kept[i] == key;
        assert(updates@[i] == (MapUpdate::RemoveInode { key }));
    }
}

/// A drop that fails is passed over: how the last one went makes no difference to what comes next.
pub proof fn law_failed_drop_is_passed_over(
    updates: Vec<MapUpdate>,
    done: usize,
    last: Result<(), CardwireEbpfError>,
    other: Result<(), CardwireEbpfError>,
    update: Option<MapUpdate>,
    again: Option<MapUpdate>,
)
    requires
        call_ensures(DebugInterface::next_drop, (&updates, done, &last), update),
        call_ensures(DebugInterface::next_drop, (&updates, done, &other), again),
    ensures
        update == again,
        done < updates@.len() ==> update == Some(updates@[done as int]),
        done >= updates@.len() ==> update is None,
{
}

/// The GPUs have to be built anew exactly if something was read of the bus, there is a bus to serve
/// GPUs on, and a device came, went, or is described otherwise than before. The list of devices
/// then becomes the one that was read; otherwise it stays.
pub proof fn law_change_of_devices_is_noticed(
    before: DebugInterface,
    after: DebugInterface,
    list: PciList,
    changed: Result<bool, FdoError>,
)
    requires
        before.wf(),
        list.wf(),
        exists|debug: &mut DebugInterface|
            *debug == before && *final(debug) == after && #[trigger] call_ensures(
                DebugInterface::note_devices,
                (debug, Ok::<PciList, String>(list)),
                changed,
            ),
    ensures
        changed is Ok,
        changed->Ok_0 ==> before.served && after.pci_list == list,
        !changed->Ok_0 ==> after == before,
        before.served && !changed->Ok_0 ==> forall|id: Seq<char>|
            #![trigger list@.contains_key(id)]
            #![trigger before.pci_list@.contains_key(id)]
            (list@.contains_key(id) <==> before.pci_list@.contains_key(id)) && (list@.contains_key(
                id,
            ) ==> list@[id].pci_address@ == before.pci_list@[id].pci_address@ && list@[id].details@
                == before.pci_list@[id].details@ && address_of(list@[id].parent_pci) == address_of(
                before.pci_list@[id].parent_pci,
            )),
        changed->Ok_0 ==> exists|id: Seq<char>| #[trigger]
            list@.contains_key(id) != before.pci_list@.contains_key(id) || (list@.contains_key(id)
                && !(list@[id].pci_address@ == before.pci_list@[id].pci_address@
                && list@[id].details@ == before.pci_list@[id].details@ && address_of(
                list@[id].parent_pci,
            ) == address_of(before.pci_list@[id].parent_pci))),
{
}

/// A bus that cannot be read changes nothing, and is told as a failure with its reason.
pub proof fn law_unreadable_bus_changes_nothing(
    before: DebugInterface,
    after: DebugInterface,
    why: String,
    changed: Result<bool, FdoError>,
)
    requires
        before.wf(),
        exists|debug: &mut DebugInterface|
            *debug == before && *final(debug) == after && #[trigger] call_ensures(
                DebugInterface::note_devices,
                (debug, Err::<PciList, String>(why)),
                changed,
            ),
    ensures
        after == before,
        changed == Err::<bool, FdoError>(FdoError::Failed(why)),
{
}

/// Keeping up with the bus goes through every stage: a change is answered by retiring the old GPUs,
/// then the list is built anew, then served, then the mode is read and set, then entries of GPUs
/// that are gone are dropped, then the NVIDIA files are seen to, then the list is sent out.
pub proof fn law_refresh_skips_nothing(state: RefreshState, step: RefreshStep)
    requires
        call_ensures(DebugInterface::refresh_gpu, (state,), step),
    ensures
        step is Retire <==> (state matches RefreshState::Read(Ok(true))),
        step is Rebuild <==> state is Retired,
        step is Serve <==> state is Rebuilt,
        step is ReadMode <==> (state matches RefreshState::Served(Ok(_))),
        step is SetMode <==> state is ModeRead,
        step is FallBack <==> (state matches RefreshState::ModeSet(Err(_))),
        step is DropUnclaimed <==> (state matches RefreshState::ModeSet(Ok(_)))
            || state is FellBack,
        step is SyncNvidia <==> state is Dropped,
        step is EmitGpuList <==> state is NvidiaSynced,
        step is Done <==> (state matches RefreshState::Read(Ok(false))) || state is Emitted,
        step matches RefreshStep::Fail(err) ==> state == RefreshState::Read(Err(err)) || state
            == RefreshState::Served(Err(err)),
        step matches RefreshStep::SetMode { mode, save } ==> !save && (state
            == RefreshState::ModeRead(Ok(mode)) || (mode == Modes::Hybrid && (state
            matches RefreshState::ModeRead(Err(_))))),
        step matches RefreshStep::FallBack { mode, save } ==> !save && mode == Modes::Hybrid,
{
}

/// The devices that are told of are those of the list: each once, in the order of their
/// identifiers, with what was read of it.
pub proof fn law_devices_are_told_as_they_were_read(
    debug: DebugInterface,
    records: Vec<PciRecord>,
    id: Seq<char>,
)
    requires
        debug.wf(),
        call_ensures(DebugInterface::get_pci_devices, (&debug,), records),
    ensures
        debug.pci_list@.contains_key(id) <==> exists|i: int|
            0 <= i < records@.len() && (#[trigger] records@[i]).id@ == id,
        forall|i: int|
            0 <= i < records@.len() ==> {
                let device = (#[trigger] records@[i]).device;
                let listed = debug.pci_list@[records@[i].id@];
                &&& device.pci_address@ == listed.pci_address@
                &&& device.details@ == listed.details@
                &&& address_of(device.parent_pci) == address_of(listed.parent_pci)
            },
{
}

/// A plan for the NVIDIA files goes on as long as its writes take place: the next write is asked
/// for, and the plan is carried out only once nothing is left to take out and nothing to write.
pub proof fn law_run_ends_only_when_its_plan_is_carried_out(
    before: NvidiaRun,
    after: NvidiaRun,
    listed: EbpfBlocker,
    remembered: EbpfBlocker,
    step: NvidiaStep,
)
    requires
        before.wf(),
        exists|run: &mut NvidiaRun, blocker: &mut EbpfBlocker|
            *run == before && *final(run) == after && *blocker == listed && *final(blocker)
                == remembered && #[trigger] call_ensures(
                NvidiaRun::next_step,
                (run, blocker, Ok::<(), CardwireEbpfError>(())),
                step,
            ),
    ensures
        after.plan == before.plan,
        !(step is Failed),
        step matches NvidiaStep::Write(update) ==> after.pending == Some(update),
        step is Done <==> after.pending is None,
        after.inserted == before.inserted + if before.pending matches Some(
            MapUpdate::InsertExpInode { .. },
        ) {
            1int
        } else {
            0int
        },
        before.pending is None ==> remembered.pushed() == listed.pushed(),
        step is Done && before.plan is Clear ==> remembered.pushed().len() == 0,
        step is Done ==> (before.plan matches NvidiaPlan::Sync { keys, .. } ==> after.inserted
            >= keys@.len() && forall|key: InodeKey|
            remembered.pushed().contains(key) ==> keys@.contains(key)),
        before.plan is Clear ==> (step matches NvidiaStep::Write(update)
            ==> update is RemoveExpInode),
{
    if let NvidiaPlan::Sync { keys, .. } = before.plan {
        let stale = stale_keys(remembered.pushed(), keys@);
        if step is Done {
            assert forall|key: InodeKey| remembered.pushed().contains(key) implies keys@.contains(
                key,
            ) by {
                lemma_filter_member(remembered.pushed(), not_among(keys@), key);
                assert(!stale.contains(key));
            }
        }
    }
}

/// A write that fails ends a plan for the NVIDIA files, and changes neither the plan nor the list.
pub proof fn law_failed_write_ends_the_run(
    before: NvidiaRun,
    after: NvidiaRun,
    listed: EbpfBlocker,
    remembered: EbpfBlocker,
    err: CardwireEbpfError,
    step: NvidiaStep,
)
    requires
        before.wf(),
        exists|run: &mut NvidiaRun, blocker: &mut EbpfBlocker|
            *run == before && *final(run) == after && *blocker == listed && *final(blocker)
                == remembered && #[trigger] call_ensures(
                NvidiaRun::next_step,
                (run, blocker, Err::<(), CardwireEbpfError>(err)),
                step,
            ),
    ensures
        step is Failed,
        after == before,
        remembered == listed,
{
}

/// The GPUs that can be used are counted, each once.
pub proof fn law_available_gpus_are_counted(devices: BTreeMap<usize, GpuDevice>, count: usize)
    requires
        call_ensures(count_available, (&devices,), count),
    ensures
        count == devices@.dom().filter(|id: usize| devices@[id].available).len(),
{
    let map = devices@;
    let ids = in_order(map.dom());
    let found = available_ids(map);
    let set = map.dom().filter(|id: usize| map[id].available);
    lemma_in_order(map.dom());
    assert(ids.no_duplicates());
    lemma_filter_no_duplicates(ids, is_available(map));
    found.unique_seq_to_set();
    assert(found.to_set() =~= set) by {
        assert forall|id: usize| found.to_set().contains(id) <==> set.contains(id) by {
            lemma_filter_member(ids, is_available(map), id);
            assert(ids.contains(id) <==> map.contains_key(id));
        }
    }
}

/// For each GPU of the list its launch environment is asked for once, in the order of the numbers,
/// with what is known of that GPU and with how many can be used.
pub proof fn law_environment_is_asked_for_each_gpu(
    devices: BTreeMap<usize, GpuDevice>,
    requests: Vec<EnvRequest>,
    count: usize,
    id: usize,
)
    requires
        call_ensures(env_requests, (&devices,), requests),
        call_ensures(count_available, (&devices,), count),
        devices@.contains_key(id),
    ensures
        exists|i: int|
            0 <= i < requests@.len() && asks_for((#[trigger] requests@[i]), id, devices@[id], count),
        requests@.len() == in_order(devices@.dom()).len(),
{
    let ids = in_order(devices@.dom());
    lemma_in_order(devices@.dom());
    assert(ids.contains(id));
    let i = choose|i: int| 0 <= i < ids.len() && ids[i] == id;
    assert(asks_for(requests@[i], id, devices@[id], count));
}

/// The request is about this GPU, as one of `count` that can be used.
pub open spec fn asks_for(request: EnvRequest, id: usize, device: GpuDevice, count: usize) -> bool {
    &&& request.id == id as u32
    &&& request.default == device.default
    &&& request.discrete == device.discrete
    &&& request.vendor == device.vendor
    &&& request.pci_address@ == device.pci.pci_address@
    &&& request.gpu_count == count
}

proof fn lemma_pushed_by_one(list: Map<usize, GpuInterface>, ids: Seq<usize>, key: InodeKey)
    requires
        all_pushed(list, ids).contains(key),
    ensures
        exists|i: int| 0 <= i < ids.len() && list[#[trigger] ids[i]].pushed().contains(key),
    decreases ids.len(),
{
    if ids.len() > 0 {
        let rest = ids.drop_last();
        let before = all_pushed(list, rest);
        let last = list[ids.last()].pushed();
        let j = choose|j: int| 0 <= j < (before + last).len() && (before + last)[j] == key;
        if j < before.len() {
            assert(before[j] == key);
            lemma_pushed_by_one(list, rest, key);
            let i = choose|i: int|
                0 <= i < rest.len() && list[#[trigger] rest[i]].pushed().contains(key);
            assert(list[ids[i]].pushed().contains(key));
        } else {
            assert(last[j - before.len()] == key);
            assert(list[ids[ids.len() - 1]].pushed().contains(key));
        }
    }
}

/// When GPUs are retired, none is left on the list; every one that was is named, and so is every
/// entry that one of them had written, and nothing else.
pub proof fn law_retired_gpus_are_all_named(
    before: BTreeMap<usize, GpuInterface>,
    after: BTreeMap<usize, GpuInterface>,
    retired: RetiredGpus,
    id: usize,
    key: InodeKey,
)
    requires
        exists|list: &mut BTreeMap<usize, GpuInterface>|
            *list == before && *final(list) == after && #[trigger] call_ensures(
                retire_all,
                (list,),
                retired,
            ),
    ensures
        !after@.contains_key(id),
        retired.ids@.contains(id) <==> before@.contains_key(id),
        retired.inodes@.contains(key) <==> claimed(before@, key),
        retired.paths@.len() == retired.ids@.len(),
        forall|i: int|
            0 <= i < retired.paths@.len() ==> (#[trigger] retired.paths@[i])@
                == "/org/opengamingcollective/cardwire/Gpu/"@ + decimal(retired.ids@[i] as nat),
{
    let list = before@;
    let ids = in_order(list.dom());
    lemma_in_order(list.dom());
    assert(ids.contains(id) <==> list.contains_key(id));
    if claimed(list, key) {
        let owner = choose|owner: usize| #[trigger]
            list.contains_key(owner) && list[owner].pushed().contains(key);
        assert(ids.contains(owner));
        lemma_all_pushed(list, ids, owner, key);
    }
    if retired.inodes@.contains(key) {
        lemma_pushed_by_one(list, ids, key);
        let i = choose|i: int|
            0 <= i < ids.len() && list[#[trigger] ids[i]].pushed().contains(key);
        assert(ids.contains(ids[i]));
        assert(list.contains_key(ids[i]));
    }
    assert(texts(retired.paths@).len() == retired.paths@.len());
    assert forall|i: int| 0 <= i < retired.paths@.len() implies (#[trigger] retired.paths@[i])@
        == "/org/opengamingcollective/cardwire/Gpu/"@ + decimal(retired.ids@[i] as nat) by {
        assert(texts(retired.paths@)[i] == retired.paths@[i]@);
        assert(texts(retired.paths@)[i] == served_at(retired.ids@[i]));
    }
}

/// A GPU of the list is served once, watched exactly if it can be used, and at the path that it
/// will be retired from.
pub proof fn law_gpu_is_retired_from_where_it_is_served(
    before: BTreeMap<usize, GpuInterface>,
    after: BTreeMap<usize, GpuInterface>,
    served: Vec<ServedGpu>,
    retired: RetiredGpus,
)
    requires
        call_ensures(serve_all, (&before,), served),
        exists|list: &mut BTreeMap<usize, GpuInterface>|
            *list == before && *final(list) == after && #[trigger] call_ensures(
                retire_all,
                (list,),
                retired,
            ),
    ensures
        served@.len() == retired.ids@.len(),
        served@.len() == retired.paths@.len(),
        forall|i: int|
            0 <= i < served@.len() ==> {
                &&& (#[trigger] served@[i]).id == retired.ids@[i]
                &&& served@[i].path@ == retired.paths@[i]@
                &&& before@.contains_key(served@[i].id)
                &&& served@[i].watch == before@[served@[i].id].hardware().available
            },
        forall|i: int, j: int|
            0 <= i < j < served@.len() ==> (#[trigger] served@[i]).id < (#[trigger] served@[j]).id,
{
    let ids = in_order(before@.dom());
    lemma_in_order(before@.dom());
    assert(texts(retired.paths@).len() == retired.paths@.len());
    assert forall|i: int| 0 <= i < served@.len() implies (#[trigger] served@[i]).id
        == retired.ids@[i] && served@[i].path@ == retired.paths@[i]@ && before@.contains_key(
        served@[i].id,
    ) && served@[i].watch == before@[served@[i].id].hardware().available by {
        assert(ids.contains(ids[i]));
        assert(texts(retired.paths@)[i] == retired.paths@[i]@);
        assert(texts(retired.paths@)[i] == served_at(retired.ids@[i]));
    }
    assert forall|i: int, j: int| 0 <= i < j < served@.len() implies (#[trigger] served@[i]).id < (
    #[trigger] served@[j]).id by {
        assert(ids[i] < ids[j]);
    }
}

} // verus!
