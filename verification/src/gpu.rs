//! A single GPU: blocking it, and what is told of it on the bus.
use crate::blocker::{find_stale, holds, stale_keys, EbpfBlocker};
use crate::errors::{CardwireEbpfError, FdoError, FdoResultExt};
use crate::inode::{
    card_path, get_inodes, gpu_keys, inodes_error, nvidia_path, pci_path, render_path, texts,
    InodeProbes,
};
use crate::keys::{state_of, InodeKey, InodeState};
use crate::maps::{LookupReply, MapUpdate};
use crate::pci::{address_of, gpu_addresses, walk_is_finite, PciList};
use crate::text::{decimal, join};
use crate::types::{GpuDevice, Modes};
use vstd::prelude::*;
use vstd::string::StringExecFns;

verus! {

/// A GPU, and what it last had written to the kernel side.
#[derive(Debug)]
pub struct GpuInterface {
    pub id: u32,
    pub device: GpuDevice,
    /// The environment that makes a program use this GPU.
    pub env: Vec<String>,
    /// What was last written to the kernel side for it.
    pushed_inodes: Vec<InodeKey>,
}

/// The writes that bring a GPU's entries in line with what they are now.
#[derive(Debug)]
pub struct InodeSync {
    /// Entries that were renumbered or are gone.
    pub stale: Vec<InodeKey>,
    /// The entries as they are now.
    pub fresh: Vec<InodeKey>,
    pub gpu_id: u32,
    pub blocked: bool,
}

/// What comes next in a sync.
#[derive(Debug)]
pub enum SyncStep {
    /// Perform this write.
    Write(MapUpdate),
    /// Everything is written.
    Done,
    /// A write failed, and with it the sync.
    Failed(FdoError),
}

/// Removals of entries, in order.
pub open spec fn removals(keys: Seq<InodeKey>) -> Seq<MapUpdate> {
    Seq::new(keys.len(), |i: int| MapUpdate::RemoveInode { key: keys[i] })
}

/// Insertions of entries of a GPU, in order.
pub open spec fn insertions(keys: Seq<InodeKey>, gpu_id: u32, blocked: bool) -> Seq<MapUpdate> {
    Seq::new(
        keys.len(),
        |i: int| MapUpdate::InsertInode { key: keys[i], state: state_of(gpu_id, blocked) },
    )
}

/// The writes that take a GPU's entries from `pushed` to `fresh`: what is no longer there goes,
/// then everything that is there is written.
pub open spec fn sync_updates(
    pushed: Seq<InodeKey>,
    fresh: Seq<InodeKey>,
    gpu_id: u32,
    blocked: bool,
) -> Seq<MapUpdate> {
    removals(stale_keys(pushed, fresh)) + insertions(fresh, gpu_id, blocked)
}

impl InodeSync {
    /// The writes, in order.
    pub open spec fn updates(self) -> Seq<MapUpdate> {
        removals(self.stale@) + insertions(self.fresh@, self.gpu_id, self.blocked)
    }
}

/// The sync of entries that were `pushed` with entries that now are `fresh`.
pub open spec fn is_sync(
    sync: InodeSync,
    pushed: Seq<InodeKey>,
    fresh: Seq<InodeKey>,
    gpu_id: u32,
    blocked: bool,
) -> bool {
    &&& sync.stale@ == stale_keys(pushed, fresh)
    &&& sync.fresh@ == fresh
    &&& sync.gpu_id == gpu_id
    &&& sync.blocked == blocked
}

/// What was found on one of a GPU's nodes: what the map of tracked entries holds of it, or why it
/// could not be read.
pub type NodeCheck = Result<LookupReply, String>;

/// Whether a node is blocked for a GPU, or why that is not known.
pub open spec fn node_blocked(check: NodeCheck, gpu_id: u32) -> Result<bool, Seq<char>> {
    match check {
        Err(err) => Err(err@),
        Ok(LookupReply::Found(state)) => Ok(state.gpu_id == gpu_id && state.blocked == 1),
        Ok(LookupReply::KeyNotFound) => Ok(false),
        Ok(LookupReply::MissingMap) => Err("missing eBPF map: "@ + "CW_BLOCKED_INO"@),
        Ok(LookupReply::Failed(reason)) => Err(reason@),
    }
}

/// What was found on a GPU's nodes.
#[derive(Debug)]
pub struct BlockedProbes {
    pub card: NodeCheck,
    pub render: NodeCheck,
    pub pci: NodeCheck,
    pub nvidia: NodeCheck,
}

/// Whether the NVIDIA node does not speak against the GPU being blocked: a GPU without one has
/// nothing to say, and a node that cannot be read is not blocked.
pub open spec fn nvidia_blocked(
    nvidia_minor: Option<u32>,
    check: NodeCheck,
    gpu_id: u32,
) -> Result<bool, Seq<char>> {
    match nvidia_minor {
        None => Ok(true),
        Some(_) => if check is Err {
            Ok(false)
        } else {
            node_blocked(check, gpu_id)
        },
    }
}

/// Whether all nodes of a GPU are blocked. The first node whose state is not known decides
/// otherwise.
pub open spec fn all_blocked(
    device: GpuDevice,
    gpu_id: u32,
    probes: BlockedProbes,
) -> Result<bool, Seq<char>> {
    let card = node_blocked(probes.card, gpu_id);
    let render = node_blocked(probes.render, gpu_id);
    let pci = node_blocked(probes.pci, gpu_id);
    let nvidia = nvidia_blocked(device.nvidia_minor, probes.nvidia, gpu_id);
    if card is Err {
        card
    } else if render is Err {
        render
    } else if pci is Err {
        pci
    } else if nvidia is Err {
        nvidia
    } else {
        Ok(card->Ok_0 && render->Ok_0 && pci->Ok_0 && nvidia->Ok_0)
    }
}

/// `result` is `expected`, its error reported as a failure.
pub open spec fn reports(result: Result<bool, FdoError>, expected: Result<bool, Seq<char>>) -> bool {
    match expected {
        Ok(value) => result == Ok::<bool, FdoError>(value),
        Err(text) => result matches Err(FdoError::Failed(s)) && s@ == text,
    }
}

fn check_node(check: NodeCheck, gpu_id: u32) -> (blocked: Result<bool, FdoError>)
    ensures
        reports(blocked, node_blocked(check, gpu_id)),
{
    match check {
        Err(err) => Err(FdoError::Failed(err)),
        Ok(reply) => EbpfBlocker::is_inode_blocked(reply, gpu_id).into_fdo(),
    }
}

/// How far a request to block or unblock a GPU has come.
#[derive(Debug)]
pub enum SetBlockState {
    /// It was made.
    Asked,
    /// The GPU's displays were probed: whether one is in use, if that is known.
    Probed(Option<bool>),
    /// The GPU's entries were written.
    Synced(Result<(), FdoError>),
    /// The new state was saved.
    Saved,
    /// The display server was told.
    Announced,
    /// The list of GPUs was sent out.
    Refreshed,
}

/// What a request to block or unblock a GPU asks for next.
#[derive(Debug)]
pub enum SetBlockStep {
    /// Refuse the request.
    Refuse(FdoError),
    /// Find out whether a display is in use on this card.
    ProbeDisplay { card: u32 },
    /// Write the GPU's entries.
    Sync { gpu_id: u32, blocked: bool },
    /// Save the new state.
    SaveState { blocked: bool },
    /// Tell the display server about this card.
    SendUevent { card: u32 },
    /// Send out the list of GPUs.
    RefreshSwitcheroo,
    /// The request is served.
    Done,
}

/// Why a request is refused before anything is probed or written.
pub open spec fn refusal(device: GpuDevice, mode: Modes, block: bool) -> Option<Seq<char>> {
    if mode != Modes::Manual {
        Some("Per GPU block is only available on manual mode"@)
    } else if !device.available {
        Some("GPU "@ + device.name@ + " is not available and cannot be blocked"@)
    } else if block && device.default {
        Some("GPU "@ + device.name@ + " is the default device and cannot be blocked"@)
    } else {
        None
    }
}

/// How a request to block or unblock a GPU is answered.
pub open spec fn answers_request(
    device: GpuDevice,
    id: u32,
    mode: Modes,
    block: bool,
    state: SetBlockState,
    step: SetBlockStep,
) -> bool {
    match state {
        SetBlockState::Asked => match refusal(device, mode, block) {
            Some(text) => step matches SetBlockStep::Refuse(FdoError::AccessDenied(s)) && s@
                == text,
            None => if block {
                step == (SetBlockStep::ProbeDisplay { card: device.card })
            } else {
                step == (SetBlockStep::Sync { gpu_id: id, blocked: false })
            },
        },
        SetBlockState::Probed(Some(false)) => step == (SetBlockStep::Sync {
            gpu_id: id,
            blocked: true,
        }),
        SetBlockState::Probed(Some(true)) => step matches SetBlockStep::Refuse(
            FdoError::AccessDenied(s),
        ) && s@ == "GPU "@ + device.name@
            + " is active (monitor IN) and cannot be blocked"@,
        SetBlockState::Probed(None) => step matches SetBlockStep::Refuse(
            FdoError::Failed(s),
        ) && s@ == "could not probe display state of GPU "@ + device.name@
            + "; refusing to block"@,
        SetBlockState::Synced(Err(err)) => step == SetBlockStep::Refuse(err),
        SetBlockState::Synced(Ok(())) => step == (SetBlockStep::SaveState {
            blocked: block,
        }),
        SetBlockState::Saved => step == (SetBlockStep::SendUevent {
            card: device.card,
        }),
        SetBlockState::Announced => step == SetBlockStep::RefreshSwitcheroo,
        SetBlockState::Refreshed => step == SetBlockStep::Done,
    }
}

/// `state` tells how what `step` asks for went.
pub open spec fn answers_step(step: SetBlockStep, state: SetBlockState) -> bool {
    match step {
        SetBlockStep::Refuse(_) => false,
        SetBlockStep::ProbeDisplay { .. } => state is Probed,
        SetBlockStep::Sync { .. } => state is Synced,
        SetBlockStep::SaveState { .. } => state is Saved,
        SetBlockStep::SendUevent { .. } => state is Announced,
        SetBlockStep::RefreshSwitcheroo => state is Refreshed,
        SetBlockStep::Done => false,
    }
}

fn about_gpu(name: &str, rest: &str) -> (text: String)
    ensures
        text@ == "GPU "@ + name@ + rest@,
{
    let mut text = join("GPU ", name);
    text.append(rest);
    text
}

impl GpuInterface {
    /// What this GPU last had written to the kernel side.
    pub closed spec fn pushed(&self) -> Seq<InodeKey> {
        self.pushed_inodes@
    }

    /// The number of this GPU.
    pub closed spec fn number(&self) -> u32 {
        self.id
    }

    /// The device that this GPU is.
    pub closed spec fn hardware(&self) -> GpuDevice {
        self.device
    }

    /// The environment that makes a program use this GPU.
    pub closed spec fn environment(&self) -> Vec<String> {
        self.env
    }

    /// Only what was written to the kernel side may differ.
    pub open spec fn same_gpu(&self, other: &GpuInterface) -> bool {
        self.number() == other.number() && self.hardware() == other.hardware()
            && self.environment() == other.environment()
    }

    /// A GPU that has had nothing written yet.
    pub fn build(id: u32, device: GpuDevice, env: Vec<String>) -> (gpu: GpuInterface)
        ensures
            gpu.number() == id,
            gpu.hardware() == device,
            gpu.environment() == env,
            gpu.pushed() == Seq::<InodeKey>::empty(),
    {
        GpuInterface { id, device, env, pushed_inodes: Vec::new() }
    }

    /// The entries that belong to this GPU now, from what was read of the file system.
    pub fn current_inodes(&self, pci_list: &PciList, probes: &InodeProbes) -> (keys: Result<
        Vec<InodeKey>,
        FdoError,
    >)
        requires
            pci_list.wf(),
            walk_is_finite(pci_list@, address_of(self.hardware().pci.parent_pci)),
        ensures
            match inodes_error(self.hardware().nvidia_minor, *probes) {
                Some(err) => keys == Err::<Vec<InodeKey>, FdoError>(FdoError::Failed(err)),
                None => keys matches Ok(k) && k@ == gpu_keys(
                    self.hardware().render,
                    self.hardware().card,
                    gpu_addresses(
                        self.hardware().pci.pci_address@,
                        address_of(self.hardware().pci.parent_pci),
                        pci_list@,
                    ),
                    self.hardware().nvidia_minor,
                    *probes,
                ),
            },
    {
        get_inodes(
            self.device.render,
            self.device.card,
            self.device.pci.pci_address.as_str(),
            &self.device.pci.parent_pci,
            pci_list,
            self.device.nvidia_minor,
            probes,
        ).into_fdo()
    }

    fn begin_sync(&self, inodes: Vec<InodeKey>, gpu_id: u32, blocked: bool) -> (sync: InodeSync)
        ensures
            is_sync(sync, self.pushed(), inodes@, gpu_id, blocked),
            sync.updates() == sync_updates(self.pushed(), inodes@, gpu_id, blocked),
    {
        let stale = find_stale(&self.pushed_inodes, &inodes);
        InodeSync { stale, fresh: inodes, gpu_id, blocked }
    }

    /// Blocks the GPU under the number `value`: its entries now are `inodes`.
    pub fn block_gpu(&self, value: u32, inodes: Vec<InodeKey>) -> (sync: InodeSync)
        ensures
            is_sync(sync, self.pushed(), inodes@, value, true),
            sync.updates() == sync_updates(self.pushed(), inodes@, value, true),
    {
        self.begin_sync(inodes, value, true)
    }

    /// Unblocks the GPU: its entries now are `inodes`.
    pub fn unblock_gpu(&self, inodes: Vec<InodeKey>) -> (sync: InodeSync)
        ensures
            is_sync(sync, self.pushed(), inodes@, self.number(), false),
            sync.updates() == sync_updates(self.pushed(), inodes@, self.number(), false),
    {
        self.begin_sync(inodes, self.id, false)
    }

    /// What comes next in a sync, the first `done` writes of which were asked for. `last` is how
    /// the last of them went: one that fails ends the sync with its error.
    ///
    /// What is about to be written is recorded before the first of it is: a failure on the way
    /// still leaves everything that was written removable.
    pub fn sync_inodes(
        &mut self,
        sync: &InodeSync,
        done: usize,
        last: Result<(), CardwireEbpfError>,
    ) -> (step: SyncStep)
        ensures
            match last {
                Err(err) => {
                    &&& step matches SyncStep::Failed(FdoError::Failed(text))
                    &&& text@ == err.text()
                    &&& *final(self) == *old(self)
                },
                Ok(()) => {
                    &&& step == if done < sync.updates().len() {
                        SyncStep::Write(sync.updates()[done as int])
                    } else {
                        SyncStep::Done
                    }
                    &&& final(self).pushed() == if done < sync.stale@.len() {
                        old(self).pushed()
                    } else {
                        sync.fresh@
                    }
                    &&& final(self).same_gpu(old(self))
                },
            },
    {
        if let Err(err) = last {
            return SyncStep::Failed(FdoError::Failed(err.message()));
        }
        let removed: usize = sync.stale.len();
        if done < removed {
            return SyncStep::Write(MapUpdate::RemoveInode { key: sync.stale[done] });
        }
        self.pushed_inodes = copy_keys(&sync.fresh);
        let i: usize = done - removed;
        if i < sync.fresh.len() {
            let key = sync.fresh[i];
            SyncStep::Write(
                MapUpdate::InsertInode { key, state: InodeState::new(sync.gpu_id, sync.blocked) },
            )
        } else {
            SyncStep::Done
        }
    }

    /// Forgets what was written, and gives it to the caller.
    pub fn take_pushed_inodes(&mut self) -> (keys: Vec<InodeKey>)
        ensures
            keys@ == old(self).pushed(),
            final(self).pushed() == Seq::<InodeKey>::empty(),
            final(self).same_gpu(old(self)),
    {
        let keys = copy_keys(&self.pushed_inodes);
        self.pushed_inodes = Vec::new();
        keys
    }

    /// What this GPU last had written to the kernel side.
    pub fn pushed_inodes(&self) -> (keys: Vec<InodeKey>)
        ensures
            keys@ == self.pushed(),
    {
        copy_keys(&self.pushed_inodes)
    }

    /// Whether this GPU had an entry written.
    pub fn has_pushed(&self, key: &InodeKey) -> (found: bool)
        ensures
            found == self.pushed().contains(*key),
    {
        holds(&self.pushed_inodes, key)
    }

    /// Whether the GPU is blocked: its card, render and PCI nodes, and its NVIDIA node if it has
    /// one.
    pub fn gpu_blocked(&self, probes: BlockedProbes) -> (blocked: Result<bool, FdoError>)
        ensures
            reports(blocked, all_blocked(self.hardware(), self.number(), probes)),
    {
        let card = match check_node(probes.card, self.id) {
            Ok(blocked) => blocked,
            Err(err) => {
                return Err(err);
            },
        };
        let render = match check_node(probes.render, self.id) {
            Ok(blocked) => blocked,
            Err(err) => {
                return Err(err);
            },
        };
        let pci = match check_node(probes.pci, self.id) {
            Ok(blocked) => blocked,
            Err(err) => {
                return Err(err);
            },
        };
        let nvidia = match self.device.nvidia_minor {
            None => true,
            Some(_) => match probes.nvidia {
                Err(_) => false,
                Ok(reply) => match check_node(Ok(reply), self.id) {
                    Ok(blocked) => blocked,
                    Err(err) => {
                        return Err(err);
                    },
                },
            },
        };
        Ok(card && render && pci && nvidia)
    }

    /// Whether the GPU is blocked.
    pub fn block(&self, probes: BlockedProbes) -> (blocked: Result<bool, FdoError>)
        ensures
            reports(blocked, all_blocked(self.hardware(), self.number(), probes)),
    {
        self.gpu_blocked(probes)
    }

    /// Serves a request to block or unblock the GPU, one step after the other.
    ///
    /// A GPU is only blocked by hand in manual mode, and never while it drives the default
    /// display or any display at all.
    pub fn set_block(&self, mode: Modes, block: bool, state: SetBlockState) -> (step: SetBlockStep)
        ensures
            answers_request(self.hardware(), self.number(), mode, block, state, step),
    {
        match state {
            SetBlockState::Asked => {
                if mode != Modes::Manual {
                    return SetBlockStep::Refuse(
                        FdoError::AccessDenied(
                            String::from_str("Per GPU block is only available on manual mode"),
                        ),
                    );
                }
                if !self.device.available {
                    return SetBlockStep::Refuse(
                        FdoError::AccessDenied(
                            about_gpu(
                                self.device.name.as_str(),
                                " is not available and cannot be blocked",
                            ),
                        ),
                    );
                }
                if !block {
                    return SetBlockStep::Sync { gpu_id: self.id, blocked: false };
                }
                if self.device.default {
                    return SetBlockStep::Refuse(
                        FdoError::AccessDenied(
                            about_gpu(
                                self.device.name.as_str(),
                                " is the default device and cannot be blocked",
                            ),
                        ),
                    );
                }
                SetBlockStep::ProbeDisplay { card: self.device.card }
            },
            SetBlockState::Probed(Some(true)) => SetBlockStep::Refuse(
                FdoError::AccessDenied(
                    about_gpu(
                        self.device.name.as_str(),
                        " is active (monitor IN) and cannot be blocked",
                    ),
                ),
            ),
            SetBlockState::Probed(None) => {
                let mut text = join(
                    "could not probe display state of GPU ",
                    self.device.name.as_str(),
                );
                text.append("; refusing to block");
                SetBlockStep::Refuse(FdoError::Failed(text))
            },
            SetBlockState::Probed(Some(false)) => SetBlockStep::Sync {
                gpu_id: self.id,
                blocked: true,
            },
            SetBlockState::Synced(Err(err)) => SetBlockStep::Refuse(err),
            SetBlockState::Synced(Ok(())) => SetBlockStep::SaveState { blocked: block },
            SetBlockState::Saved => SetBlockStep::SendUevent { card: self.device.card },
            SetBlockState::Announced => SetBlockStep::RefreshSwitcheroo,
            SetBlockState::Refreshed => SetBlockStep::Done,
        }
    }

    /// The nodes of the GPU whose users are listed.
    pub fn lsof(&self) -> (paths: Vec<String>)
        ensures
            texts(paths@) == seq![
                "/dev/dri/card"@ + decimal(self.hardware().card as nat),
                "/dev/dri/renderD"@ + decimal(self.hardware().render as nat),
            ] + match self.hardware().nvidia_minor {
                Some(minor) => seq![
                    "/dev/nvidia"@ + decimal(minor as nat),
                    "/dev/nvidiactl"@,
                ],
                None => Seq::empty(),
            },
    {
        let mut paths: Vec<String> = Vec::new();
        paths.push(card_path(self.device.card));
        paths.push(render_path(self.device.render));
        if let Some(minor) = self.device.nvidia_minor {
            paths.push(nvidia_path(minor));
            paths.push(String::from_str("/dev/nvidiactl"));
        }
        assert(texts(paths@) =~= seq![
            "/dev/dri/card"@ + decimal(self.device.card as nat),
            "/dev/dri/renderD"@ + decimal(self.device.render as nat),
        ] + match self.device.nvidia_minor {
            Some(minor) => seq!["/dev/nvidia"@ + decimal(minor as nat), "/dev/nvidiactl"@],
            None => Seq::empty(),
        });
        paths
    }

    /// The number of the GPU.
    pub fn get_id(&self) -> (id: u32)
        ensures
            id == self.number(),
    {
        self.id
    }

    /// The device that is told of on the bus.
    pub fn get_device(&self) -> (device: &GpuDevice)
        ensures
            *device == self.hardware(),
    {
        &self.device
    }

    /// Where the power state of the GPU can be read.
    pub fn power_state_path(&self) -> (path: String)
        ensures
            path@ == "/sys/bus/pci/devices/"@ + self.hardware().pci.pci_address@ + "/power_state"@,
    {
        join(pci_path(self.device.pci.pci_address.as_str()).as_str(), "/power_state")
    }

    /// The power state of the GPU, from what was read at [`GpuInterface::power_state_path`].
    pub fn power_state(&self, read: Result<String, String>) -> (state: Result<String, FdoError>)
        ensures
            match read {
                Ok(text) => state == Ok::<String, FdoError>(text),
                Err(err) => state matches Err(FdoError::IoError(s)) && s@
                    == "error while trying to read "@ + self.hardware().name@ + " power_state: "@ + err@,
            },
    {
        match read {
            Ok(text) => Ok(text),
            Err(err) => {
                let mut text = join("error while trying to read ", self.device.name.as_str());
                text.append(" power_state: ");
                text.append(err.as_str());
                Err(FdoError::IoError(text))
            },
        }
    }

    /// The environment that makes a program use this GPU.
    pub fn env(&self) -> (env: Vec<String>)
        ensures
            env@ == self.environment()@,
    {
        let mut env: Vec<String> = Vec::new();
        let mut i: usize = 0;
        while i < self.env.len()
            invariant
                i <= self.env@.len(),
                env@ == self.env@.take(i as int),
            decreases self.env.len() - i,
        {
            env.push(self.env[i].clone());
            assert(self.env@.take(i + 1) =~= self.env@.take(i as int).push(self.env@[i as int]));
            i = i + 1;
        }
        assert(self.env@.take(i as int) =~= self.env@);
        env
    }

    /// Whether a program can be launched on this GPU in this mode: it is available, and it is not
    /// blocked, or the mode is smart, where access can be granted to the program. Where it is not
    /// known whether it is blocked, it counts as blocked.
    pub fn launchable(&self, blocked: &Result<bool, FdoError>, mode: Modes) -> (launchable: bool)
        ensures
            launchable == (self.hardware().available && (*blocked == Ok::<bool, FdoError>(false) || mode
                == Modes::Smart)),
    {
        let blocked = match blocked {
            Ok(blocked) => *blocked,
            Err(_) => true,
        };
        self.device.available && (!blocked || mode == Modes::Smart)
    }
}

/// Copies a list of keys.
pub fn copy_keys(keys: &Vec<InodeKey>) -> (copy: Vec<InodeKey>)
    ensures
        copy@ == keys@,
{
    let mut copy: Vec<InodeKey> = Vec::new();
    let mut i: usize = 0;
    while i < keys.len()
        invariant
            i <= keys@.len(),
            copy@ == keys@.take(i as int),
        decreases keys.len() - i,
    {
        copy.push(keys[i]);
        assert(keys@.take(i + 1) =~= keys@.take(i as int).push(keys@[i as int]));
        i = i + 1;
    }
    assert(keys@.take(i as int) =~= keys@);
    copy
}

} // verus!
