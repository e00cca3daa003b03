//! The decisions of the kernel side: how an entry is named, and who is refused it.
//!
//! Reading kernel memory and looking up maps is left to the caller, which hands in what it has
//! read so far and is told what to read next.
use crate::keys::{key_of, lemma_key_unique, padded, InodeKey, InodeState, NAME_LEN};
use crate::maps::{KernelMaps, ReportEvent};
use vstd::prelude::*;
use vstd::utf8::encode_utf8;

verus! {

/// Value of the mode map in integrated mode.
pub const INTEGRATED: u8 = 0;

/// Value of the mode map in hybrid mode.
pub const HYBRID: u8 = 1;

/// Value of the mode map in manual mode.
pub const MANUAL: u8 = 2;

/// Value of the mode map in smart mode.
pub const SMART: u8 = 3;

/// Key of the NVIDIA setting in the settings map.
pub const EXP_NVIDIA: u8 = 0;

/// Outcome of building a block-map key from a dentry or an inode.
#[derive(Copy, Clone, Debug)]
pub enum KeyBuild {
    /// A usable key.
    Key(InodeKey),
    /// No name to key on: a null dentry or inode, or an anonymous inode. Expected while
    /// processes run.
    Unnamed,
    /// Kernel memory could not be read.
    ProbeFailed,
}

/// A read of memory that may not have been made yet.
#[derive(Copy, Clone, Debug)]
pub enum Probe<T> {
    /// Not made yet.
    Pending,
    /// Made, and refused.
    Failed,
    /// Made, with what it gave.
    Read(T),
}

/// What has been read of a dentry so far.
#[derive(Copy, Clone, Debug)]
pub struct DentryProbes {
    /// `d_inode`, an address.
    pub inode: Probe<u64>,
    /// `d_name.name`, an address.
    pub name_ptr: Probe<u64>,
    /// `i_ino` of the inode.
    pub ino: Probe<u64>,
    /// The name itself, cut and zero-filled to 64 bytes.
    pub name: Probe<[u8; 64]>,
}

/// What to do next to build the key of a dentry.
#[derive(Copy, Clone, Debug)]
pub enum DentryStep {
    /// Read `d_inode` of the dentry at this address.
    ReadInode { dentry: u64 },
    /// Read `d_name.name` of the dentry at this address.
    ReadNamePtr { dentry: u64 },
    /// Read `i_ino` of the inode at this address.
    ReadIno { inode: u64 },
    /// Read the text at this address.
    ReadName { name_ptr: u64 },
    /// Nothing: this is the outcome.
    Done(KeyBuild),
}

/// What to do next to build the key of the dentry at address `d`.
pub open spec fn dentry_step(d: u64, probes: DentryProbes) -> DentryStep {
    if d == 0 {
        DentryStep::Done(KeyBuild::Unnamed)
    } else {
        match probes.inode {
            Probe::Pending => DentryStep::ReadInode { dentry: d },
            Probe::Failed => DentryStep::Done(KeyBuild::ProbeFailed),
            Probe::Read(inode) => if inode == 0 {
                DentryStep::Done(KeyBuild::Unnamed)
            } else {
                match probes.name_ptr {
                    Probe::Pending => DentryStep::ReadNamePtr { dentry: d },
                    Probe::Failed => DentryStep::Done(KeyBuild::ProbeFailed),
                    Probe::Read(name_ptr) => if name_ptr == 0 {
                        DentryStep::Done(KeyBuild::Unnamed)
                    } else {
                        match (probes.ino, probes.name) {
                            (Probe::Pending, _) => DentryStep::ReadIno { inode },
                            (Probe::Failed, _) => DentryStep::Done(KeyBuild::ProbeFailed),
                            (Probe::Read(_), Probe::Pending) => DentryStep::ReadName { name_ptr },
                            (Probe::Read(_), Probe::Failed) => DentryStep::Done(
                                KeyBuild::ProbeFailed,
                            ),
                            (Probe::Read(ino), Probe::Read(name)) => DentryStep::Done(
                                KeyBuild::Key(InodeKey { name, ino }),
                            ),
                        }
                    },
                }
            },
        }
    }
}

/// Builds the block-map key of the dentry at address `d`, from its name and its inode number.
///
/// Called again with each value that was read, until it is done.
pub fn dentry_key(d: u64, probes: &DentryProbes) -> (step: DentryStep)
    ensures
        step == dentry_step(d, *probes),
        step matches DentryStep::Done(KeyBuild::Key(key)) ==> d != 0 && probes.ino == Probe::Read(
            key.ino,
        ) && probes.name == Probe::Read(key.name),
{
    if d == 0 {
        return DentryStep::Done(KeyBuild::Unnamed);
    }
    let inode = match probes.inode {
        Probe::Pending => {
            return DentryStep::ReadInode { dentry: d };
        },
        Probe::Failed => {
            return DentryStep::Done(KeyBuild::ProbeFailed);
        },
        Probe::Read(inode) => inode,
    };
    if inode == 0 {
        return DentryStep::Done(KeyBuild::Unnamed);
    }
    let name_ptr = match probes.name_ptr {
        Probe::Pending => {
            return DentryStep::ReadNamePtr { dentry: d };
        },
        Probe::Failed => {
            return DentryStep::Done(KeyBuild::ProbeFailed);
        },
        Probe::Read(name_ptr) => name_ptr,
    };
    if name_ptr == 0 {
        return DentryStep::Done(KeyBuild::Unnamed);
    }
    let ino = match probes.ino {
        Probe::Pending => {
            return DentryStep::ReadIno { inode };
        },
        Probe::Failed => {
            return DentryStep::Done(KeyBuild::ProbeFailed);
        },
        Probe::Read(ino) => ino,
    };
    match probes.name {
        Probe::Pending => DentryStep::ReadName { name_ptr },
        Probe::Failed => DentryStep::Done(KeyBuild::ProbeFailed),
        Probe::Read(name) => DentryStep::Done(KeyBuild::Key(InodeKey { name, ino })),
    }
}

/// What to do next to build the key of an inode.
#[derive(Copy, Clone, Debug)]
pub enum InodeStep {
    /// Read `i_dentry.first` of the inode at this address.
    ReadAlias { inode: u64 },
    /// Build the key of the dentry at this address.
    Dentry { dentry: u64 },
    /// Nothing: this is the outcome.
    Done(KeyBuild),
}

/// The address `offset` bytes before `address`, modulo the size of the address space.
pub open spec fn bytes_before(address: u64, offset: u64) -> int {
    (address - offset) % 0x1_0000_0000_0000_0000
}

/// Builds the block-map key of the inode at address `inode`.
///
/// The name comes from the inode's first dentry: `alias` is the list link inside it, which lies
/// `link_offset` bytes into the dentry. An inode without a dentry has no name.
pub fn inode_key(inode: u64, alias: Option<u64>, link_offset: u64) -> (step: InodeStep)
    ensures
        inode == 0 ==> step == InodeStep::Done(KeyBuild::Unnamed),
        inode != 0 && alias is None ==> step == (InodeStep::ReadAlias { inode }),
        inode != 0 && alias == Some(0u64) ==> step == InodeStep::Done(KeyBuild::Unnamed),
        inode != 0 && alias is Some && alias->0 != 0 ==> (step matches InodeStep::Dentry { dentry }
            && dentry == bytes_before(alias->0, link_offset)),
{
    if inode == 0 {
        return InodeStep::Done(KeyBuild::Unnamed);
    }
    match alias {
        None => InodeStep::ReadAlias { inode },
        Some(link) => {
            if link == 0 {
                InodeStep::Done(KeyBuild::Unnamed)
            } else {
                let dentry: u64 = link.wrapping_sub(link_offset);
                InodeStep::Dentry { dentry }
            }
        },
    }
}

/// What to do next to find the parent of a task.
#[derive(Copy, Clone, Debug)]
pub enum ParentStep {
    /// Read `real_parent` of the task at this address.
    ReadParent { task: u64 },
    /// Read `tgid` of the task at this address.
    ReadTgid { parent: u64 },
    /// Nothing: this is the parent's process id, if it could be found.
    Done(Option<u32>),
}

/// What to do next to find the parent of the task at address `task`.
pub open spec fn parent_step(task: u64, parent: Probe<u64>, tgid: Probe<i32>) -> ParentStep {
    if task == 0 {
        ParentStep::Done(None)
    } else {
        match parent {
            Probe::Pending => ParentStep::ReadParent { task },
            Probe::Failed => ParentStep::Done(None),
            Probe::Read(parent) => if parent == 0 {
                ParentStep::Done(None)
            } else {
                match tgid {
                    Probe::Pending => ParentStep::ReadTgid { parent },
                    Probe::Failed => ParentStep::Done(None),
                    Probe::Read(tgid) => ParentStep::Done(Some(tgid as u32)),
                }
            },
        }
    }
}

/// Finds the process id of the parent of the task at address `task`.
///
/// Called again with each value that was read, until it is done.
pub fn get_task_ppid(task: u64, parent: Probe<u64>, tgid: Probe<i32>) -> (step: ParentStep)
    ensures
        step == parent_step(task, parent, tgid),
{
    if task == 0 {
        return ParentStep::Done(None);
    }
    match parent {
        Probe::Pending => ParentStep::ReadParent { task },
        Probe::Failed => ParentStep::Done(None),
        Probe::Read(parent) => {
            if parent == 0 {
                return ParentStep::Done(None);
            }
            match tgid {
                Probe::Pending => ParentStep::ReadTgid { parent },
                Probe::Failed => ParentStep::Done(None),
                Probe::Read(tgid) => ParentStep::Done(Some(tgid as u32)),
            }
        },
    }
}

/// The process id in what the kernel calls `pid_tgid`: its upper half.
pub fn process_id(pid_tgid: u64) -> (pid: u32)
    ensures
        pid == pid_tgid as int / 0x1_0000_0000,
{
    assert(pid_tgid >> 32 == pid_tgid / 0x1_0000_0000 && pid_tgid >> 32 <= 0xffff_ffff)
        by (bit_vector);
    (pid_tgid >> 32) as u32
}

/// The process that asks for an entry.
#[derive(Copy, Clone, Debug)]
pub struct Caller {
    pub pid: u32,
    /// The parent's process id, if it could be read.
    pub ppid: Option<u32>,
    /// The process name, if it could be read.
    pub comm: Option<[u8; 16]>,
}

impl Caller {
    /// The process id under which the parent is looked up: an unreadable one counts as the
    /// largest process id, which no process has.
    pub open spec fn parent(self) -> u32 {
        match self.ppid {
            Some(ppid) => ppid,
            None => u32::MAX,
        }
    }

    /// The process id under which the parent is looked up.
    pub fn parent_pid(&self) -> (pid: u32)
        ensures
            pid == self.parent(),
    {
        match self.ppid {
            Some(ppid) => ppid,
            None => u32::MAX,
        }
    }
}

/// What the maps hold on an entry.
#[derive(Copy, Clone, Debug)]
pub struct InodeLookup {
    /// The entry's state in the map of tracked entries.
    pub entry: Option<InodeState>,
    /// The NVIDIA setting.
    pub nvidia: Option<bool>,
    /// The entry's value in the map of NVIDIA entries. Only whether there is one counts.
    pub exp: Option<u32>,
}

/// What the maps hold on a process and its parent.
#[derive(Copy, Clone, Debug)]
pub struct PidLookup {
    /// The process is on the list of allowed ones.
    pub allowed: bool,
    /// The parent is on the list of allowed ones.
    pub parent_allowed: bool,
    /// The GPU that the process is held to.
    pub forced: Option<u32>,
    /// The GPU that the parent is held to.
    pub parent_forced: Option<u32>,
}

impl PidLookup {
    /// The GPU that the process is held to, by itself or else through its parent.
    pub open spec fn forced_gpu(self) -> Option<u32> {
        match self.forced {
            Some(gpu_id) => Some(gpu_id),
            None => self.parent_forced,
        }
    }
}

/// The GPU that owns an entry, and whether the entry is blocked. An entry that NVIDIA devices share
/// has no owner.
#[derive(Copy, Clone, Debug)]
pub struct TrackedInode {
    pub owner: Option<u32>,
    pub blocked: bool,
}

impl TrackedInode {
    /// The GPU number under which a refusal is reported: 0 where there is no owner.
    pub open spec fn reported_gpu(self) -> u32 {
        match self.owner {
            Some(gpu_id) => gpu_id,
            None => 0,
        }
    }
}

/// What is known of an entry: the map of tracked entries first, then, where the NVIDIA setting
/// is on, the map of NVIDIA entries, which are always blocked.
pub open spec fn known_entry(lookup: InodeLookup) -> Option<TrackedInode> {
    match lookup.entry {
        Some(state) => Some(
            TrackedInode { owner: Some(state.gpu_id), blocked: state.blocked == 1 },
        ),
        None => match lookup.exp {
            Some(_) => if lookup.nvidia == Some(true) {
                Some(TrackedInode { owner: None, blocked: true })
            } else {
                None
            },
            None => None,
        },
    }
}

/// Whether a process is refused an entry.
///
/// An entry that is not tracked is never refused, nor is any entry while the mode is unknown.
pub open spec fn refused(inode: Option<TrackedInode>, mode: Option<u8>, pids: PidLookup) -> bool {
    match (inode, mode) {
        (Some(inode), Some(mode)) => {
            if mode == INTEGRATED {
                // Blocked entries are closed to everyone.
                inode.blocked
            } else if mode == MANUAL {
                // A process that is held to a GPU sees that GPU and no other.
                match pids.forced_gpu() {
                    Some(gpu_id) => inode.owner != Some(gpu_id),
                    None => inode.blocked,
                }
            } else if mode == SMART {
                // Allowed processes see everything, the others the integrated GPU, number 0.
                !pids.allowed && !pids.parent_allowed && match pids.forced_gpu() {
                    Some(gpu_id) => inode.owner != Some(gpu_id),
                    None => inode.owner != Some(0u32),
                }
            } else {
                false
            }
        },
        _ => false,
    }
}

/// The answer to a process that asks for an entry.
#[derive(Copy, Clone, Debug)]
pub struct Verdict {
    pub blocked: bool,
    /// What to report to the daemon.
    pub report: Option<ReportEvent>,
}

/// The event that reports a refusal.
pub fn report_event(pid: u32, gpu_id: u32, comm: [u8; 16]) -> (event: ReportEvent)
    ensures
        event == (ReportEvent { pid, gpu_id, comm }),
{
    ReportEvent { pid, gpu_id, comm }
}

/// Whether the NVIDIA setting is on. It is off until it is written.
pub fn is_nvidia_setting_enabled(setting: Option<bool>) -> (enabled: bool)
    ensures
        enabled == (setting == Some(true)),
{
    match setting {
        Some(enabled) => enabled,
        None => false,
    }
}

fn owned_by(inode: &TrackedInode, gpu_id: u32) -> (owned: bool)
    ensures
        owned == (inode.owner == Some(gpu_id)),
{
    match inode.owner {
        Some(owner) => owner == gpu_id,
        None => false,
    }
}

fn find_tracked(lookup: &InodeLookup) -> (inode: Option<TrackedInode>)
    ensures
        inode == known_entry(*lookup),
{
    match lookup.entry {
        Some(state) => Some(
            TrackedInode { owner: Some(state.gpu_id), blocked: state.blocked == 1 },
        ),
        None => {
            if !is_nvidia_setting_enabled(lookup.nvidia) {
                return None;
            }
            match lookup.exp {
                Some(_) => Some(TrackedInode { owner: None, blocked: true }),
                None => None,
            }
        },
    }
}

/// Decides whether a process is refused an entry, and what to report of it.
///
/// `pids` holds what is found under [`Caller::pid`] and [`Caller::parent_pid`].
pub fn is_inode_blocked(
    lookup: &InodeLookup,
    mode: Option<u8>,
    caller: &Caller,
    pids: &PidLookup,
) -> (verdict: Verdict)
    ensures
        verdict.blocked == refused(known_entry(*lookup), mode, *pids),
        verdict.blocked <==> verdict.report is Some,
        verdict.report matches Some(event) ==> {
            &&& event.pid == caller.pid
            &&& event.gpu_id == known_entry(*lookup)->0.reported_gpu()
            &&& match caller.comm {
                Some(comm) => event.comm == comm,
                None => event.comm@ == Seq::new(16, |i: int| 0u8),
            }
        },
{
    let allow = Verdict { blocked: false, report: None };
    let inode = match find_tracked(lookup) {
        Some(inode) => inode,
        None => {
            return allow;
        },
    };
    let mode = match mode {
        Some(mode) => mode,
        None => {
            return allow;
        },
    };
    let comm = match caller.comm {
        Some(comm) => comm,
        None => {
            let zeros: [u8; 16] = [0u8; 16];
            assert(zeros@ =~= Seq::new(16, |i: int| 0u8));
            zeros
        },
    };
    let reported: u32 = match inode.owner {
        Some(gpu_id) => gpu_id,
        None => 0,
    };
    let deny = Verdict {
        blocked: true,
        report: Some(report_event(caller.pid, reported, comm)),
    };
    if mode == INTEGRATED && inode.blocked {
        return deny;
    }
    if mode == MANUAL {
        let forced = match pids.forced {
            Some(gpu_id) => Some(gpu_id),
            None => pids.parent_forced,
        };
        if let Some(gpu_id) = forced {
            if owned_by(&inode, gpu_id) {
                return allow;
            }
            return deny;
        }
        if inode.blocked {
            return deny;
        }
        return allow;
    }
    if mode == SMART {
        if pids.allowed || pids.parent_allowed {
            return allow;
        }
        let forced = match pids.forced {
            Some(gpu_id) => Some(gpu_id),
            None => pids.parent_forced,
        };
        if let Some(gpu_id) = forced {
            if owned_by(&inode, gpu_id) {
                return allow;
            }
            return deny;
        }
        if owned_by(&inode, 0) {
            return allow;
        }
        return deny;
    }
    allow
}

/// Whether a process is let through by its name: `listed` says whether the name is on the list
/// of allowed ones, and is missing where the name could not be read.
pub fn is_comm_whitelisted(listed: Option<bool>) -> (whitelisted: bool)
    ensures
        whitelisted == (listed == Some(true)),
{
    match listed {
        Some(listed) => listed,
        None => false,
    }
}

/// Whether the process is the daemon, if the daemon's process id is known.
pub fn is_cardwired(pid: u32, daemon_pid: Option<u32>) -> (daemon: Option<bool>)
    ensures
        daemon == match daemon_pid {
            Some(d) => Some(pid == d),
            None => None,
        },
{
    match daemon_pid {
        Some(d) => Some(pid == d),
        None => None,
    }
}

fn mode_is(mode: Option<u8>, value: u8) -> (is: Option<bool>)
    ensures
        is == match mode {
            Some(m) => Some(m == value),
            None => None,
        },
{
    match mode {
        Some(m) => Some(m == value),
        None => None,
    }
}

/// Whether the mode is hybrid, if it is known.
pub fn is_hybrid(mode: Option<u8>) -> (hybrid: Option<bool>)
    ensures
        hybrid == match mode {
            Some(m) => Some(m == HYBRID),
            None => None,
        },
{
    mode_is(mode, HYBRID)
}

/// Whether the mode is smart, if it is known.
pub fn is_smart(mode: Option<u8>) -> (smart: Option<bool>)
    ensures
        smart == match mode {
            Some(m) => Some(m == SMART),
            None => None,
        },
{
    mode_is(mode, SMART)
}

/// Whether the mode is manual, if it is known.
pub fn is_manual(mode: Option<u8>) -> (manual: Option<bool>)
    ensures
        manual == match mode {
            Some(m) => Some(m == MANUAL),
            None => None,
        },
{
    mode_is(mode, MANUAL)
}

/// What the maps hold on an entry.
pub open spec fn inode_lookup(maps: KernelMaps, key: InodeKey) -> InodeLookup {
    InodeLookup {
        entry: if maps.blocked.contains_key(key) {
            Some(maps.blocked[key])
        } else {
            None
        },
        nvidia: if maps.settings.contains_key(EXP_NVIDIA) {
            Some(maps.settings[EXP_NVIDIA] != 0)
        } else {
            None
        },
        exp: if maps.exp.contains_key(key) {
            Some(maps.exp[key])
        } else {
            None
        },
    }
}

/// What the maps hold on a process and its parent.
pub open spec fn pid_lookup(maps: KernelMaps, caller: Caller) -> PidLookup {
    PidLookup {
        allowed: maps.allowed_pid.contains(caller.pid),
        parent_allowed: maps.allowed_pid.contains(caller.parent()),
        forced: if maps.forced_pid.contains_key(caller.pid) {
            Some(maps.forced_pid[caller.pid])
        } else {
            None
        },
        parent_forced: if maps.forced_pid.contains_key(caller.parent()) {
            Some(maps.forced_pid[caller.parent()])
        } else {
            None
        },
    }
}

/// Whether, with these maps, a process is refused an entry.
pub open spec fn denies(maps: KernelMaps, key: InodeKey, caller: Caller) -> bool {
    refused(known_entry(inode_lookup(maps, key)), Some(maps.mode), pid_lookup(maps, caller))
}

/// The kernel side and the daemon give an entry the same key: the key of a dentry whose name and
/// inode number were read is the one that the daemon builds from that name and number.
pub proof fn law_both_sides_build_the_same_key(
    d: u64,
    probes: DentryProbes,
    key: InodeKey,
    name: Seq<char>,
    ino: u64,
)
    requires
        dentry_step(d, probes) == DentryStep::Done(KeyBuild::Key(key)),
        probes.name matches Probe::Read(bytes) && bytes@ == padded(
            encode_utf8(name),
            NAME_LEN as nat,
        ),
        probes.ino == Probe::Read(ino),
    ensures
        key == key_of(name, ino),
{
    lemma_key_unique(key, name, ino);
}

/// In hybrid mode nobody is refused anything.
pub proof fn law_hybrid_refuses_nothing(maps: KernelMaps, key: InodeKey, caller: Caller)
    requires
        maps.mode == HYBRID,
    ensures
        !denies(maps, key, caller),
{
}

/// An entry that no map names is never refused, whatever the mode.
pub proof fn law_untracked_entries_stay_open(maps: KernelMaps, key: InodeKey, caller: Caller)
    requires
        !maps.blocked.contains_key(key),
        !maps.exp.contains_key(key),
    ensures
        !denies(maps, key, caller),
{
}

/// What value the map of NVIDIA entries holds makes no difference: two lookups that differ in
/// nothing else are answered alike, and reported alike.
pub proof fn law_shared_value_is_not_used(
    lookup: InodeLookup,
    other: InodeLookup,
    mode: Option<u8>,
    pids: PidLookup,
)
    requires
        lookup.exp is Some,
        other == (InodeLookup { exp: other.exp, ..lookup }),
        other.exp is Some,
    ensures
        known_entry(lookup) == known_entry(other),
        refused(known_entry(lookup), mode, pids) == refused(known_entry(other), mode, pids),
{
}

/// While the NVIDIA setting is on, an entry that NVIDIA devices share, and that is not tracked
/// otherwise, is refused to everyone in integrated and in manual mode, and in smart mode to every
/// process that is not allowed and whose parent is not.
pub proof fn law_shared_entries_are_blocked_for_all(
    maps: KernelMaps,
    key: InodeKey,
    caller: Caller,
)
    requires
        maps.exp.contains_key(key),
        !maps.blocked.contains_key(key),
        maps.settings.contains_key(EXP_NVIDIA),
        maps.settings[EXP_NVIDIA] != 0,
    ensures
        denies(maps, key, caller) <==> maps.mode == INTEGRATED || maps.mode == MANUAL || (maps.mode
            == SMART && !maps.allowed_pid.contains(caller.pid) && !maps.allowed_pid.contains(
            caller.parent(),
        )),
{
}

/// In integrated mode all processes get the same answer.
pub proof fn law_integrated_treats_all_alike(
    maps: KernelMaps,
    key: InodeKey,
    caller: Caller,
    other: Caller,
)
    requires
        maps.mode == INTEGRATED,
    ensures
        denies(maps, key, caller) == denies(maps, key, other),
{
}

/// In manual mode, and in smart mode where it is not on the list of allowed processes, a process
/// that is held to a GPU sees the tracked entries of that GPU and of no other, blocked or not.
pub proof fn law_forced_process_sees_only_its_gpu(
    maps: KernelMaps,
    key: InodeKey,
    caller: Caller,
    gpu_id: u32,
)
    requires
        maps.mode == MANUAL || (maps.mode == SMART && !maps.allowed_pid.contains(caller.pid)
            && !maps.allowed_pid.contains(caller.parent())),
        pid_lookup(maps, caller).forced_gpu() == Some(gpu_id),
        maps.blocked.contains_key(key),
    ensures
        denies(maps, key, caller) <==> maps.blocked[key].gpu_id != gpu_id,
{
}

/// In smart mode a process on the list of allowed ones is refused nothing, and neither is a
/// child of one.
pub proof fn law_smart_allowed_process_sees_everything(
    maps: KernelMaps,
    key: InodeKey,
    caller: Caller,
)
    requires
        maps.mode == SMART,
        maps.allowed_pid.contains(caller.pid) || maps.allowed_pid.contains(caller.parent()),
    ensures
        !denies(maps, key, caller),
{
}

/// In smart mode an ordinary process sees, of the tracked entries, those of GPU 0 and no others.
pub proof fn law_smart_ordinary_process_sees_gpu_zero(
    maps: KernelMaps,
    key: InodeKey,
    caller: Caller,
)
    requires
        maps.mode == SMART,
        !maps.allowed_pid.contains(caller.pid),
        !maps.allowed_pid.contains(caller.parent()),
        pid_lookup(maps, caller).forced_gpu() is None,
        maps.blocked.contains_key(key),
    ensures
        denies(maps, key, caller) <==> maps.blocked[key].gpu_id != 0,
{
}

/// While the NVIDIA setting is off or was never written, what NVIDIA devices share is open: an
/// entry that is not tracked is refused to nobody, in no mode, whatever the map of NVIDIA entries
/// holds.
pub proof fn law_setting_off_opens_shared_entries(maps: KernelMaps, key: InodeKey, caller: Caller)
    requires
        !maps.blocked.contains_key(key),
        !maps.settings.contains_key(EXP_NVIDIA) || maps.settings[EXP_NVIDIA] == 0,
    ensures
        !denies(maps, key, caller),
{
}

/// A refusal tells who was refused: it names the process as it was given, with the GPU that the
/// entry is tracked for, or 0 for an entry that NVIDIA devices share. Where nothing is refused,
/// nothing is reported.
pub proof fn law_refusal_names_process_and_gpu(
    lookup: InodeLookup,
    mode: Option<u8>,
    caller: Caller,
    pids: PidLookup,
    verdict: Verdict,
)
    requires
        call_ensures(is_inode_blocked, (&lookup, mode, &caller, &pids), verdict),
    ensures
        verdict.report is Some <==> verdict.blocked,
        verdict.report matches Some(event) ==> {
            &&& event.pid == caller.pid
            &&& lookup.entry matches Some(state) ==> event.gpu_id == state.gpu_id
            &&& lookup.entry is None ==> event.gpu_id == 0
            &&& caller.comm matches Some(comm) ==> event.comm == comm
            &&& caller.comm is None ==> forall|i: int| 0 <= i < 16 ==> event.comm[i] == 0
        },
{
}

/// Nobody is refused anything while the mode cannot be read, nor in a mode that is not one of
/// integrated, manual and smart.
pub proof fn law_other_modes_refuse_nothing(
    lookup: InodeLookup,
    mode: Option<u8>,
    caller: Caller,
    pids: PidLookup,
    verdict: Verdict,
)
    requires
        call_ensures(is_inode_blocked, (&lookup, mode, &caller, &pids), verdict),
        mode != Some(INTEGRATED),
        mode != Some(MANUAL),
        mode != Some(SMART),
    ensures
        !verdict.blocked,
{
}

/// In integrated mode a tracked entry is refused exactly if it is marked as blocked, whatever GPU
/// it belongs to and whoever asks.
pub proof fn law_integrated_goes_by_the_mark(
    lookup: InodeLookup,
    caller: Caller,
    pids: PidLookup,
    verdict: Verdict,
)
    requires
        call_ensures(is_inode_blocked, (&lookup, Some(INTEGRATED), &caller, &pids), verdict),
        lookup.entry is Some,
    ensures
        verdict.blocked <==> lookup.entry->0.blocked == 1,
{
}

/// In manual mode a process that is not held to a GPU, neither itself nor through its parent, is
/// refused a tracked entry exactly if it is marked as blocked. Being on the list of allowed
/// processes makes no difference.
pub proof fn law_manual_goes_by_the_mark(
    lookup: InodeLookup,
    caller: Caller,
    pids: PidLookup,
    verdict: Verdict,
)
    requires
        call_ensures(is_inode_blocked, (&lookup, Some(MANUAL), &caller, &pids), verdict),
        lookup.entry is Some,
        pids.forced is None,
        pids.parent_forced is None,
    ensures
        verdict.blocked <==> lookup.entry->0.blocked == 1,
{
}

/// The GPU that a process is held to itself goes before the one that its parent is held to: what
/// the parent is held to then makes no difference.
pub proof fn law_own_gpu_goes_before_the_parents(
    lookup: InodeLookup,
    mode: Option<u8>,
    caller: Caller,
    pids: PidLookup,
    verdict: Verdict,
    gpu_id: u32,
)
    requires
        call_ensures(is_inode_blocked, (&lookup, mode, &caller, &pids), verdict),
        mode == Some(MANUAL) || (mode == Some(SMART) && !pids.allowed && !pids.parent_allowed),
        lookup.entry is Some,
        pids.forced == Some(gpu_id) || (pids.forced is None && pids.parent_forced == Some(gpu_id)),
    ensures
        verdict.blocked <==> lookup.entry->0.gpu_id != gpu_id,
{
}

/// In smart mode a process that is neither allowed nor held to a GPU, nor the child of one that
/// is, is refused every tracked entry but those of GPU 0, whatever their marks.
pub proof fn law_smart_goes_by_the_owner(
    lookup: InodeLookup,
    caller: Caller,
    pids: PidLookup,
    verdict: Verdict,
)
    requires
        call_ensures(is_inode_blocked, (&lookup, Some(SMART), &caller, &pids), verdict),
        lookup.entry is Some,
    ensures
        pids.allowed || pids.parent_allowed ==> !verdict.blocked,
        !pids.allowed && !pids.parent_allowed && pids.forced is None && pids.parent_forced is None
            ==> (verdict.blocked <==> lookup.entry->0.gpu_id != 0),
{
}

/// An entry that is not tracked is refused only if NVIDIA devices share it and the setting is on,
/// and then in integrated and manual mode to everyone, also to a process that is held to a GPU,
/// and in smart mode to all but allowed processes and their children.
pub proof fn law_untracked_entry_needs_setting_and_share(
    lookup: InodeLookup,
    mode: Option<u8>,
    caller: Caller,
    pids: PidLookup,
    verdict: Verdict,
)
    requires
        call_ensures(is_inode_blocked, (&lookup, mode, &caller, &pids), verdict),
        lookup.entry is None,
    ensures
        verdict.blocked <==> lookup.nvidia == Some(true) && lookup.exp is Some && (mode == Some(
            INTEGRATED,
        ) || mode == Some(MANUAL) || (mode == Some(SMART) && !pids.allowed
            && !pids.parent_allowed)),
{
}

/// A parent whose process id cannot be read is looked up as the largest process id; one that can
/// be read, as itself.
pub proof fn law_parent_is_looked_up_as_itself(caller: Caller, pid: u32)
    requires
        call_ensures(Caller::parent_pid, (&caller,), pid),
    ensures
        caller.ppid is None ==> pid == 0xffff_ffffu32,
        caller.ppid matches Some(ppid) ==> pid == ppid,
{
}

/// The build of a dentry's key ends without a name exactly where an address that was read, or
/// that of the dentry, is null, and as a failure only after a read that failed. A key is only built
/// once all four reads were made.
pub proof fn law_key_build_tells_apart_null_and_failure(
    d: u64,
    probes: DentryProbes,
    step: DentryStep,
)
    requires
        call_ensures(dentry_key, (d, &probes), step),
    ensures
        step == DentryStep::Done(KeyBuild::Unnamed) ==> d == 0 || probes.inode == Probe::Read(0u64)
            || probes.name_ptr == Probe::Read(0u64),
        step == DentryStep::Done(KeyBuild::ProbeFailed) ==> d != 0 && (probes.inode is Failed
            || probes.name_ptr is Failed || probes.ino is Failed || probes.name is Failed),
        step matches DentryStep::Done(KeyBuild::Key(key)) ==> {
            &&& d != 0
            &&& probes.inode is Read && probes.inode != Probe::Read(0u64)
            &&& probes.name_ptr is Read && probes.name_ptr != Probe::Read(0u64)
            &&& probes.ino == Probe::Read(key.ino)
            &&& probes.name == Probe::Read(key.name)
        },
        d == 0 ==> step == DentryStep::Done(KeyBuild::Unnamed),
        d != 0 && probes.inode == Probe::Read(0u64) ==> step == DentryStep::Done(KeyBuild::Unnamed),
        d != 0 && probes.inode is Failed ==> step == DentryStep::Done(KeyBuild::ProbeFailed),
{
}

/// What is read to build a dentry's key is read where it belongs, and only if it was not read
/// before: the inode and the name's address in the dentry, the number in the inode that was read,
/// the name at the address that was read.
pub proof fn law_key_build_reads_each_part_once(d: u64, probes: DentryProbes, step: DentryStep)
    requires
        call_ensures(dentry_key, (d, &probes), step),
    ensures
        step matches DentryStep::ReadInode { dentry } ==> dentry == d && probes.inode is Pending,
        step matches DentryStep::ReadNamePtr { dentry } ==> dentry == d
            && probes.name_ptr is Pending,
        step matches DentryStep::ReadIno { inode } ==> probes.inode == Probe::Read(inode)
            && probes.ino is Pending,
        step matches DentryStep::ReadName { name_ptr } ==> probes.name_ptr == Probe::Read(name_ptr)
            && probes.name is Pending,
        step is ReadInode || step is ReadNamePtr || step is ReadIno || step is ReadName ==> d != 0
            && !(probes.inode is Failed) && !(probes.name_ptr is Failed && probes.inode is Read),
        probes.inode is Read && probes.name_ptr is Read && probes.ino is Read
            && probes.name is Read ==> step is Done,
        d != 0 && probes.inode is Read && probes.inode != Probe::Read(0u64) && probes.name_ptr is Read
            && probes.name_ptr != Probe::Read(0u64) && probes.ino is Read && probes.name is Read
            ==> step == DentryStep::Done(
            KeyBuild::Key(InodeKey { name: probes.name->Read_0, ino: probes.ino->Read_0 }),
        ),
{
}

/// The link that an inode holds to its first dentry lies `link_offset` bytes into the dentry that
/// is named next: adding the offset leads back to the link.
pub proof fn law_link_lies_in_the_dentry(
    inode: u64,
    alias: Option<u64>,
    link_offset: u64,
    step: InodeStep,
)
    requires
        call_ensures(inode_key, (inode, alias, link_offset), step),
    ensures
        step matches InodeStep::Dentry { dentry } ==> inode != 0 && alias is Some && alias->0 != 0
            && (dentry + link_offset == alias->0 || dentry + link_offset == alias->0
            + 0x1_0000_0000_0000_0000),
        step is Done <==> inode == 0 || alias == Some(0u64),
        step matches InodeStep::Done(outcome) ==> outcome is Unnamed,
        step matches InodeStep::ReadAlias { inode: read } ==> read == inode && alias is None,
{
}

/// The parent of a task is the process that its parent task belongs to, and is only named once
/// both were read; a read that failed or a null address leaves it unknown.
pub proof fn law_parent_is_read_from_the_task(
    task: u64,
    parent: Probe<u64>,
    tgid: Probe<i32>,
    step: ParentStep,
)
    requires
        call_ensures(get_task_ppid, (task, parent, tgid), step),
    ensures
        step matches ParentStep::Done(Some(ppid)) ==> task != 0 && parent is Read && parent
            != Probe::Read(0u64) && tgid is Read && ppid == tgid->Read_0 as u32,
        step == ParentStep::Done(None) ==> task == 0 || parent is Failed || parent == Probe::Read(
            0u64,
        ) || tgid is Failed,
        step matches ParentStep::ReadParent { task: read } ==> read == task && task != 0
            && parent is Pending,
        step matches ParentStep::ReadTgid { parent: read } ==> parent == Probe::Read(read)
            && tgid is Pending,
        task != 0 && parent is Read && parent != Probe::Read(0u64) && tgid is Read
            ==> step == ParentStep::Done(Some(tgid->Read_0 as u32)),
        task != 0 && parent is Pending ==> step is ReadParent,
{
}

/// A process id is what is left of `pid_tgid` without its lower half: the thread's number makes no
/// difference.
pub proof fn law_threads_share_the_process_id(pid: u32, thread: u32, pid_tgid: u64, found: u32)
    requires
        pid_tgid == pid * 0x1_0000_0000 + thread,
        call_ensures(process_id, (pid_tgid,), found),
    ensures
        found == pid,
{
}

/// The kernel side tells modes apart by their numbers, and tells nothing while the mode cannot be
/// read.
pub proof fn law_modes_are_told_apart(
    mode: Option<u8>,
    hybrid: Option<bool>,
    smart: Option<bool>,
    manual: Option<bool>,
)
    requires
        call_ensures(is_hybrid, (mode,), hybrid),
        call_ensures(is_smart, (mode,), smart),
        call_ensures(is_manual, (mode,), manual),
    ensures
        mode is None <==> hybrid is None,
        mode is None <==> smart is None,
        mode is None <==> manual is None,
        hybrid == Some(true) <==> mode == Some(HYBRID),
        smart == Some(true) <==> mode == Some(SMART),
        manual == Some(true) <==> mode == Some(MANUAL),
{
}

/// The daemon is known by its process id alone, and nobody is taken for it while that is unknown. A
/// name lets a process through exactly if it could be read and is on the list.
pub proof fn law_daemon_is_known_by_its_pid(
    pid: u32,
    daemon_pid: Option<u32>,
    daemon: Option<bool>,
    listed: Option<bool>,
    through: bool,
)
    requires
        call_ensures(is_cardwired, (pid, daemon_pid), daemon),
        call_ensures(is_comm_whitelisted, (listed,), through),
    ensures
        daemon == Some(true) <==> daemon_pid == Some(pid),
        daemon is None <==> daemon_pid is None,
        through <==> listed == Some(true),
{
}

} // verus!
