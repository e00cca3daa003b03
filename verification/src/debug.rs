//! Keeping up with GPUs that come and go.
use crate::blocker::{clear_step, confirmed, sync_step, EbpfBlocker};
use crate::errors::{CardwireEbpfError, FdoError};
use crate::gpu::{removals, GpuInterface};
use crate::keys::InodeKey;
use crate::maps::MapUpdate;
use crate::order::{ids_of, in_order, lemma_in_order, member};
use crate::pci::{lists_agree, same_device, same_devices, PciList};
use crate::text::{join, text_before};
use crate::types::{lemma_filter_step, GpuVendor, Modes, PciDevice};
use std::collections::BTreeMap;
use vstd::prelude::*;

verus! {

/// What the list of GPUs was made from, and whether there is a bus to serve them on.
#[derive(Debug)]
pub struct DebugInterface {
    pub pci_list: PciList,
    /// There is an object server.
    pub served: bool,
}

/// A device on the PCI bus and its identifier.
#[derive(Clone, Debug)]
pub struct PciRecord {
    pub id: String,
    pub device: PciDevice,
}

/// `records` holds every device of the list once, in the order of the identifiers, and nothing
/// else.
pub open spec fn lists_devices(
    records: Seq<PciRecord>,
    list: Map<Seq<char>, PciDevice>,
) -> bool {
    &&& forall|i: int|
        0 <= i < records.len() ==> list.contains_key((#[trigger] records[i]).id@) && same_device(
            records[i].device,
            list[records[i].id@],
        )
    &&& forall|i: int, j: int|
        0 <= i < j < records.len() ==> text_before(
            (#[trigger] records[i]).id@,
            (#[trigger] records[j]).id@,
        )
    &&& forall|id: Seq<char>| #[trigger]
        list.contains_key(id) ==> exists|i: int|
            0 <= i < records.len() && (#[trigger] records[i]).id@ == id
}

/// The number of a GPU that the NVIDIA driver runs and that does not drive the default display.
pub open spec fn is_offload_nvidia(list: Map<usize, GpuInterface>) -> spec_fn(usize) -> bool {
    |id: usize| list[id].hardware().vendor == GpuVendor::Nvidia && !list[id].hardware().default
}

/// The GPU that the files of the NVIDIA driver are blocked for: the first such GPU.
pub open spec fn nvidia_target(list: Map<usize, GpuInterface>) -> Option<u32> {
    let found = in_order(list.dom()).filter(is_offload_nvidia(list));
    if found.len() > 0 {
        Some(found[0] as u32)
    } else {
        None
    }
}

/// What to do about the files of the NVIDIA driver.
#[derive(Debug)]
pub enum NvidiaPlan {
    /// Read which files there are.
    ReadInodes,
    /// They could not be read: the map keeps what it holds.
    LeaveAsIs,
    /// There is nothing to block them for.
    Clear,
    /// Block exactly these, on behalf of this GPU.
    Sync { keys: Vec<InodeKey>, gpu_id: u32 },
}

/// The next write of a plan, the first `inserted` entries of which have been written.
pub open spec fn plan_step(plan: NvidiaPlan, pushed: Seq<InodeKey>, inserted: nat) -> Option<
    MapUpdate,
> {
    match plan {
        NvidiaPlan::Clear => clear_step(pushed),
        NvidiaPlan::Sync { keys, .. } => sync_step(pushed, keys@, inserted),
        _ => None,
    }
}

impl NvidiaPlan {
    fn next_update(&self, blocker: &EbpfBlocker, inserted: usize) -> (update: Option<MapUpdate>)
        ensures
            update == plan_step(*self, blocker.pushed(), inserted as nat),
    {
        match self {
            NvidiaPlan::Clear => blocker.clear_exp_inodes(),
            NvidiaPlan::Sync { keys, gpu_id } => blocker.sync_exp_inodes(keys, *gpu_id, inserted),
            _ => None,
        }
    }
}

/// A plan that is being carried out.
#[derive(Debug)]
pub struct NvidiaRun {
    pub plan: NvidiaPlan,
    /// How many entries have been written.
    pub inserted: usize,
    /// The write that was asked for last, as long as it is not known how it went.
    pub pending: Option<MapUpdate>,
}

/// What comes next in carrying out a plan.
#[derive(Debug)]
pub enum NvidiaStep {
    /// Perform this write.
    Write(MapUpdate),
    /// The plan is carried out.
    Done,
    /// A write failed, and with it the plan: the block would be advertised but not enforced.
    Failed(String),
}

/// How many entries have been written once the pending write has taken place.
pub open spec fn written(run: NvidiaRun) -> nat {
    match run.pending {
        Some(MapUpdate::InsertExpInode { .. }) => run.inserted as nat + 1,
        _ => run.inserted as nat,
    }
}

/// What is on the list once the pending write has taken place.
pub open spec fn listed(run: NvidiaRun, pushed: Seq<InodeKey>) -> Seq<InodeKey> {
    match run.pending {
        Some(update) => confirmed(pushed, update),
        None => pushed,
    }
}

/// What follows where the pending write has taken place: the list takes note of it, and the next
/// write is asked for.
pub open spec fn goes_on(
    before: NvidiaRun,
    pushed: Seq<InodeKey>,
    after: NvidiaRun,
    pushed_after: Seq<InodeKey>,
    step: NvidiaStep,
) -> bool {
    &&& pushed_after == listed(before, pushed)
    &&& after.plan == before.plan
    &&& after.inserted == written(before)
    &&& after.pending == plan_step(before.plan, pushed_after, written(before))
    &&& step == match after.pending {
        Some(update) => NvidiaStep::Write(update),
        None => NvidiaStep::Done,
    }
}

impl NvidiaRun {
    /// An entry is only asked for as long as there is one left to write.
    pub open spec fn wf(&self) -> bool {
        self.pending matches Some(MapUpdate::InsertExpInode { .. }) ==> (
        self.plan matches NvidiaPlan::Sync { keys, .. } && self.inserted < keys@.len())
    }

    /// A plan that nothing was done for yet.
    pub fn new(plan: NvidiaPlan) -> (run: NvidiaRun)
        ensures
            run.wf(),
            run == (NvidiaRun { plan, inserted: 0, pending: None }),
    {
        NvidiaRun { plan, inserted: 0, pending: None }
    }

    /// What comes next. `last` is how the pending write went, and is `Ok` where there is none.
    ///
    /// A write that fails ends the plan with its error. The list of entries only changes once the
    /// kernel has agreed.
    pub fn next_step(
        &mut self,
        blocker: &mut EbpfBlocker,
        last: Result<(), CardwireEbpfError>,
    ) -> (step: NvidiaStep)
        requires
            old(self).wf(),
        ensures
            final(self).wf(),
            old(blocker).wf() ==> final(blocker).wf(),
            match last {
                Err(err) => {
                    &&& step matches NvidiaStep::Failed(text)
                    &&& text@ == "failed to write the CW_EXP_BLK_INO map: "@ + err.text()
                    &&& *final(self) == *old(self)
                    &&& *final(blocker) == *old(blocker)
                },
                Ok(()) => goes_on(
                    *old(self),
                    old(blocker).pushed(),
                    *final(self),
                    final(blocker).pushed(),
                    step,
                ),
            },
    {
        if let Err(err) = last {
            return NvidiaStep::Failed(
                join("failed to write the CW_EXP_BLK_INO map: ", err.message().as_str()),
            );
        }
        if let Some(update) = self.pending {
            blocker.confirm(&update);
            if let MapUpdate::InsertExpInode { .. } = update {
                assert(self.plan matches NvidiaPlan::Sync { keys, .. } && self.inserted < keys.len());
                self.inserted = self.inserted + 1;
            }
        }
        self.pending = self.plan.next_update(blocker, self.inserted);
        match self.pending {
            Some(update) => NvidiaStep::Write(update),
            None => NvidiaStep::Done,
        }
    }
}

/// A GPU of the list had `key` written.
pub open spec fn claimed(list: Map<usize, GpuInterface>, key: InodeKey) -> bool {
    exists|id: usize| #[trigger] list.contains_key(id) && list[id].pushed().contains(key)
}

/// No GPU of the list had it written.
pub open spec fn unclaimed(list: Map<usize, GpuInterface>) -> spec_fn(InodeKey) -> bool {
    |key: InodeKey| !claimed(list, key)
}

fn is_claimed(gpu_list: &BTreeMap<usize, GpuInterface>, key: &InodeKey) -> (found: bool)
    ensures
        found == claimed(gpu_list@, *key),
{
    let ids = ids_of(gpu_list);
    let mut i: usize = 0;
    while i < ids.len()
        invariant
            i <= ids@.len(),
            forall|j: int| 0 <= j < ids@.len() ==> gpu_list@.contains_key(#[trigger] ids@[j]),
            forall|j: int| 0 <= j < i ==> !gpu_list@[#[trigger] ids@[j]].pushed().contains(*key),
        decreases ids.len() - i,
    {
        if member(gpu_list, ids[i]).has_pushed(key) {
            return true;
        }
        i = i + 1;
    }
    proof {
        lemma_in_order(gpu_list@.dom());
        assert forall|id: usize| #[trigger] gpu_list@.contains_key(id) implies !gpu_list@[id].pushed().contains(
            *key,
        ) by {
            assert(ids@.contains(id));
            let j = choose|j: int| 0 <= j < ids@.len() && ids@[j] == id;
            assert(!gpu_list@[ids@[j]].pushed().contains(*key));
        }
    }
    false
}

/// How far keeping up with the PCI bus has come.
#[derive(Debug)]
pub enum RefreshState {
    /// The bus was read: whether there is something to do.
    Read(Result<bool, FdoError>),
    /// The old GPUs are no longer served.
    Retired,
    /// The list of GPUs was built anew.
    Rebuilt,
    /// The new GPUs are served.
    Served(Result<(), FdoError>),
    /// The mode was read from its file.
    ModeRead(Result<Modes, String>),
    /// That mode was set.
    ModeSet(Result<(), FdoError>),
    /// Hybrid mode was set instead.
    FellBack(Result<(), FdoError>),
    /// Entries of GPUs that are gone were dropped.
    Dropped,
    /// The files of the NVIDIA driver were seen to.
    NvidiaSynced(Result<(), String>),
    /// The list of GPUs was sent out.
    Emitted,
}

/// What keeping up with the PCI bus asks for next.
#[derive(Debug)]
pub enum RefreshStep {
    /// Give up.
    Fail(FdoError),
    /// Stop serving the old GPUs.
    Retire,
    /// Build the list of GPUs anew.
    Rebuild,
    /// Serve the new GPUs.
    Serve,
    /// Read the mode from its file.
    ReadMode,
    /// Set a mode.
    SetMode { mode: Modes, save: bool },
    /// Set this mode instead of the one that could not be set.
    FallBack { mode: Modes, save: bool },
    /// Drop entries of GPUs that are gone.
    DropUnclaimed,
    /// See to the files of the NVIDIA driver.
    SyncNvidia,
    /// Send out the list of GPUs.
    EmitGpuList,
    /// Everything is done.
    Done,
}

/// What comes next. Only a bus that cannot be read, and GPUs that cannot be served, end it early.
pub open spec fn refresh_step(state: RefreshState) -> RefreshStep {
    match state {
        RefreshState::Read(Err(err)) => RefreshStep::Fail(err),
        RefreshState::Read(Ok(true)) => RefreshStep::Retire,
        RefreshState::Read(Ok(false)) => RefreshStep::Done,
        RefreshState::Retired => RefreshStep::Rebuild,
        RefreshState::Rebuilt => RefreshStep::Serve,
        RefreshState::Served(Err(err)) => RefreshStep::Fail(err),
        RefreshState::Served(Ok(())) => RefreshStep::ReadMode,
        RefreshState::ModeRead(Ok(mode)) => RefreshStep::SetMode { mode, save: false },
        RefreshState::ModeRead(Err(_)) => RefreshStep::SetMode { mode: Modes::Hybrid, save: false },
        RefreshState::ModeSet(Ok(())) => RefreshStep::DropUnclaimed,
        RefreshState::ModeSet(Err(_)) => RefreshStep::FallBack { mode: Modes::Hybrid, save: false },
        RefreshState::FellBack(_) => RefreshStep::DropUnclaimed,
        RefreshState::Dropped => RefreshStep::SyncNvidia,
        RefreshState::NvidiaSynced(_) => RefreshStep::EmitGpuList,
        RefreshState::Emitted => RefreshStep::Done,
    }
}

/// `state` tells how what `step` asks for went.
pub open spec fn answers_refresh(step: RefreshStep, state: RefreshState) -> bool {
    match step {
        RefreshStep::Fail(_) => false,
        RefreshStep::Retire => state is Retired,
        RefreshStep::Rebuild => state is Rebuilt,
        RefreshStep::Serve => state is Served,
        RefreshStep::ReadMode => state is ModeRead,
        RefreshStep::SetMode { .. } => state is ModeSet,
        RefreshStep::FallBack { .. } => state is FellBack,
        RefreshStep::DropUnclaimed => state is Dropped,
        RefreshStep::SyncNvidia => state is NvidiaSynced,
        RefreshStep::EmitGpuList => state is Emitted,
        RefreshStep::Done => false,
    }
}

impl DebugInterface {
    /// The list of devices is well formed.
    pub open spec fn wf(&self) -> bool {
        self.pci_list.wf()
    }

    /// The interface of a daemon that has read this list.
    pub fn build(pci_list: PciList, served: bool) -> (debug: DebugInterface)
        requires
            pci_list.wf(),
        ensures
            debug.wf(),
            debug == (DebugInterface { pci_list, served }),
    {
        DebugInterface { pci_list, served }
    }

    /// The devices on the PCI bus, each with its identifier, in the order of the identifiers.
    pub fn get_pci_devices(&self) -> (list: Vec<PciRecord>)
        requires
            self.wf(),
        ensures
            lists_devices(list@, self.pci_list@),
    {
        let ids = self.pci_list.ids();
        let mut list: Vec<PciRecord> = Vec::new();
        let mut i: usize = 0;
        while i < ids.len()
            invariant
                self.wf(),
                i <= ids@.len(),
                list@.len() == i,
                forall|j: int|
                    0 <= j < ids@.len() ==> self.pci_list@.contains_key((#[trigger] ids@[j])@),
                forall|j: int|
                    0 <= j < i ==> (#[trigger] list@[j]).id@ == ids@[j]@ && same_device(
                        list@[j].device,
                        self.pci_list@[ids@[j]@],
                    ),
            decreases ids.len() - i,
        {
            if let Some(device) = self.pci_list.get(ids[i].as_str()) {
                let pci_address = device.pci_address.clone();
                let parent_pci = match &device.parent_pci {
                    Some(parent) => Some(parent.clone()),
                    None => None,
                };
                let details = device.details.clone();
                let device = PciDevice { pci_address, parent_pci, details };
                list.push(PciRecord { id: ids[i].clone(), device });
            }
            i = i + 1;
        }
        proof {
            assert forall|id: Seq<char>| #[trigger] self.pci_list@.contains_key(id) implies exists|
                j: int,
            |
                0 <= j < list@.len() && (#[trigger] list@[j]).id@ == id by {
                let j = choose|j: int| 0 <= j < ids@.len() && (#[trigger] ids@[j])@ == id;
                assert(list@[j].id@ == id);
            }
            assert forall|j: int, k: int| 0 <= j < k < list@.len() implies text_before(
                (#[trigger] list@[j]).id@,
                (#[trigger] list@[k]).id@,
            ) by {
                assert(text_before(ids@[j]@, ids@[k]@));
            }
        }
        list
    }

    fn find_target(gpu_list: &BTreeMap<usize, GpuInterface>) -> (target: Option<u32>)
        ensures
            target == nvidia_target(gpu_list@),
    {
        let ghost keep = is_offload_nvidia(gpu_list@);
        let ids = ids_of(gpu_list);
        let mut i: usize = 0;
        assert(ids@.take(0).filter(keep).len() == 0) by {
            reveal(Seq::filter);
        }
        while i < ids.len()
            invariant
                i <= ids@.len(),
                ids@ == in_order(gpu_list@.dom()),
                keep == is_offload_nvidia(gpu_list@),
                forall|j: int| 0 <= j < ids@.len() ==> gpu_list@.contains_key(#[trigger] ids@[j]),
                ids@.take(i as int).filter(keep).len() == 0,
            decreases ids.len() - i,
        {
            proof {
                lemma_filter_step(ids@, i as int, keep);
            }
            let gpu = member(gpu_list, ids[i]);
            let device = gpu.get_device();
            if device.vendor == GpuVendor::Nvidia && !device.default {
                proof {
                    let now = ids@.take(i + 1);
                    let rest = ids@.skip(i + 1);
                    assert(ids@ =~= now + rest);
                    Seq::filter_distributes_over_add(now, rest, keep);
                    assert(ids@.filter(keep)[0] == now.filter(keep)[0]);
                }
                return Some(ids[i] as u32);
            }
            i = i + 1;
        }
        assert(ids@.take(i as int) =~= ids@);
        None
    }

    /// What to do about the files of the NVIDIA driver, given what is known of them.
    pub fn sync_nvidia_inodes(
        gpu_list: &BTreeMap<usize, GpuInterface>,
        inodes: Option<Result<Vec<InodeKey>, String>>,
    ) -> (plan: NvidiaPlan)
        ensures
            match nvidia_target(gpu_list@) {
                None => plan is Clear,
                Some(target) => match inodes {
                    None => plan is ReadInodes,
                    Some(Err(_)) => plan is LeaveAsIs,
                    Some(Ok(keys)) => plan == (NvidiaPlan::Sync { keys, gpu_id: target }),
                },
            },
    {
        match Self::find_target(gpu_list) {
            None => NvidiaPlan::Clear,
            Some(gpu_id) => match inodes {
                None => NvidiaPlan::ReadInodes,
                Some(Err(_)) => NvidiaPlan::LeaveAsIs,
                Some(Ok(keys)) => NvidiaPlan::Sync { keys, gpu_id },
            },
        }
    }

    /// The writes that drop what no GPU stands for any more.
    pub fn drop_unclaimed_inodes(
        gpu_list: &BTreeMap<usize, GpuInterface>,
        previous: &Vec<InodeKey>,
    ) -> (updates: Vec<MapUpdate>)
        ensures
            updates@ == removals(previous@.filter(unclaimed(gpu_list@))),
    {
        let ghost keep = unclaimed(gpu_list@);
        let mut updates: Vec<MapUpdate> = Vec::new();
        let mut i: usize = 0;
        proof {
            reveal(Seq::filter);
            assert(updates@ =~= removals(previous@.take(0).filter(keep)));
        }
        while i < previous.len()
            invariant
                i <= previous@.len(),
                keep == unclaimed(gpu_list@),
                updates@ == removals(previous@.take(i as int).filter(keep)),
            decreases previous.len() - i,
        {
            proof {
                lemma_filter_step(previous@, i as int, keep);
            }
            let ghost before = previous@.take(i as int).filter(keep);
            if !is_claimed(gpu_list, &previous[i]) {
                updates.push(MapUpdate::RemoveInode { key: previous[i] });
                assert(updates@ =~= removals(before.push(previous@[i as int])));
            }
            i = i + 1;
        }
        assert(previous@.take(i as int) =~= previous@);
        updates
    }

    /// The next of the writes that drop entries, the first `done` of which were asked for. How the
    /// last of them went does not matter: one that fails is passed over.
    pub fn next_drop(
        updates: &Vec<MapUpdate>,
        done: usize,
        _last: &Result<(), CardwireEbpfError>,
    ) -> (update: Option<MapUpdate>)
        ensures
            update == if done < updates@.len() {
                Some(updates@[done as int])
            } else {
                None
            },
    {
        if done < updates.len() {
            Some(updates[done])
        } else {
            None
        }
    }

    /// Takes note of the devices that were read from the bus. Tells whether the GPUs have to be
    /// built anew: the devices changed, and there is a bus to serve GPUs on.
    pub fn note_devices(&mut self, read: Result<PciList, String>) -> (changed: Result<
        bool,
        FdoError,
    >)
        requires
            old(self).wf(),
            read matches Ok(list) ==> list.wf(),
        ensures
            final(self).wf(),
            final(self).served == old(self).served,
            match read {
                Err(err) => changed == Err::<bool, FdoError>(FdoError::Failed(err))
                    && *final(self) == *old(self),
                Ok(list) => if old(self).served && !same_devices(list@, old(self).pci_list@) {
                    changed == Ok::<bool, FdoError>(true) && final(self).pci_list == list
                } else {
                    changed == Ok::<bool, FdoError>(false) && *final(self) == *old(self)
                },
            },
    {
        match read {
            Err(err) => Err(FdoError::Failed(err)),
            Ok(list) => {
                if self.served && !lists_agree(&list, &self.pci_list) {
                    self.pci_list = list;
                    Ok(true)
                } else {
                    Ok(false)
                }
            },
        }
    }

    /// Keeps up with the PCI bus, one step after the other.
    pub fn refresh_gpu(state: RefreshState) -> (step: RefreshStep)
        ensures
            step == refresh_step(state),
    {
        match state {
            RefreshState::Read(Err(err)) => RefreshStep::Fail(err),
            RefreshState::Read(Ok(changed)) => {
                if changed {
                    RefreshStep::Retire
                } else {
                    RefreshStep::Done
                }
            },
            RefreshState::Retired => RefreshStep::Rebuild,
            RefreshState::Rebuilt => RefreshStep::Serve,
            RefreshState::Served(Err(err)) => RefreshStep::Fail(err),
            RefreshState::Served(Ok(())) => RefreshStep::ReadMode,
            RefreshState::ModeRead(read) => {
                let mode = match read {
                    Ok(mode) => mode,
                    Err(_) => Modes::Hybrid,
                };
                RefreshStep::SetMode { mode, save: false }
            },
            RefreshState::ModeSet(Ok(())) => RefreshStep::DropUnclaimed,
            RefreshState::ModeSet(Err(_)) => RefreshStep::FallBack {
                mode: Modes::Hybrid,
                save: false,
            },
            RefreshState::FellBack(_) => RefreshStep::DropUnclaimed,
            RefreshState::Dropped => RefreshStep::SyncNvidia,
            RefreshState::NvidiaSynced(_) => RefreshStep::EmitGpuList,
            RefreshState::Emitted => RefreshStep::Done,
        }
    }
}

} // verus!
