//! The maps shared with the kernel: what can be written to them, and a model of what they hold.
use crate::keys::{InodeKey, InodeState};
use vstd::prelude::*;

verus! {

/// Sent by the kernel side when a process starts.
#[derive(Copy, Clone, Debug)]
pub struct ExecEvent {
    pub pid: u32,
    pub mode: u8,
    pub _padding: [u8; 3],
}

/// Sent by the kernel side when a process was refused an entry of a GPU.
#[derive(Copy, Clone, Debug)]
pub struct ReportEvent {
    pub pid: u32,
    pub gpu_id: u32,
    pub comm: [u8; 16],
}

/// One write to one of the shared maps.
#[derive(Copy, Clone, Debug)]
pub enum MapUpdate {
    /// Track an entry, blocked or not.
    InsertInode { key: InodeKey, state: InodeState },
    /// Stop tracking an entry.
    RemoveInode { key: InodeKey },
    /// Block an entry that the NVIDIA driver shares between its devices. The value is not used.
    InsertExpInode { key: InodeKey, value: u32 },
    /// Stop blocking such an entry.
    RemoveExpInode { key: InodeKey },
    /// Write a setting.
    Setting { key: u8, value: u8 },
    /// Let every process of this name through.
    AllowComm { comm: [u8; 16] },
    /// Let the daemon through.
    DaemonPid { pid: u32 },
    /// Switch the mode.
    Mode { mode: u8 },
}

/// What the shared maps hold.
///
/// `mode` and `daemon_pid` are single-entry arrays, which hold a value from the start.
pub struct KernelMaps {
    pub blocked: Map<InodeKey, InodeState>,
    pub exp: Map<InodeKey, u32>,
    pub settings: Map<u8, u8>,
    pub allowed_comm: Set<[u8; 16]>,
    pub daemon_pid: u32,
    pub mode: u8,
    pub allowed_pid: Set<u32>,
    pub forced_pid: Map<u32, u32>,
}

impl MapUpdate {
    /// The maps after this write.
    pub open spec fn apply(self, maps: KernelMaps) -> KernelMaps {
        match self {
            MapUpdate::InsertInode { key, state } => KernelMaps {
                blocked: maps.blocked.insert(key, state),
                ..maps
            },
            MapUpdate::RemoveInode { key } => KernelMaps {
                blocked: maps.blocked.remove(key),
                ..maps
            },
            MapUpdate::InsertExpInode { key, value } => KernelMaps {
                exp: maps.exp.insert(key, value),
                ..maps
            },
            MapUpdate::RemoveExpInode { key } => KernelMaps { exp: maps.exp.remove(key), ..maps },
            MapUpdate::Setting { key, value } => KernelMaps {
                settings: maps.settings.insert(key, value),
                ..maps
            },
            MapUpdate::AllowComm { comm } => KernelMaps {
                allowed_comm: maps.allowed_comm.insert(comm),
                ..maps
            },
            MapUpdate::DaemonPid { pid } => KernelMaps { daemon_pid: pid, ..maps },
            MapUpdate::Mode { mode } => KernelMaps { mode, ..maps },
        }
    }

    /// The name of the map that this write goes to.
    pub open spec fn target(self) -> Seq<char> {
        match self {
            MapUpdate::InsertInode { .. } => "CW_BLOCKED_INO"@,
            MapUpdate::RemoveInode { .. } => "CW_BLOCKED_INO"@,
            MapUpdate::InsertExpInode { .. } => "CW_EXP_BLK_INO"@,
            MapUpdate::RemoveExpInode { .. } => "CW_EXP_BLK_INO"@,
            MapUpdate::Setting { .. } => "CW_SETTINGS"@,
            MapUpdate::AllowComm { .. } => "CW_ALLOWED_COMM"@,
            MapUpdate::DaemonPid { .. } => "CW_DAEMON_PID"@,
            MapUpdate::Mode { .. } => "CW_MODE"@,
        }
    }

    /// Whether this write takes an entry out.
    pub open spec fn is_removal(self) -> bool {
        self is RemoveInode || self is RemoveExpInode
    }

    /// The name of the map that this write goes to.
    pub fn map_name(&self) -> (name: &'static str)
        ensures
            name@ == self.target(),
    {
        match self {
            MapUpdate::InsertInode { .. } => "CW_BLOCKED_INO",
            MapUpdate::RemoveInode { .. } => "CW_BLOCKED_INO",
            MapUpdate::InsertExpInode { .. } => "CW_EXP_BLK_INO",
            MapUpdate::RemoveExpInode { .. } => "CW_EXP_BLK_INO",
            MapUpdate::Setting { .. } => "CW_SETTINGS",
            MapUpdate::AllowComm { .. } => "CW_ALLOWED_COMM",
            MapUpdate::DaemonPid { .. } => "CW_DAEMON_PID",
            MapUpdate::Mode { .. } => "CW_MODE",
        }
    }
}

/// The maps after writes that all succeed, in order.
pub open spec fn apply_all(maps: KernelMaps, updates: Seq<MapUpdate>) -> KernelMaps
    decreases updates.len(),
{
    if updates.len() == 0 {
        maps
    } else {
        updates.last().apply(apply_all(maps, updates.drop_last()))
    }
}

/// Writing two runs of updates one after the other is writing their concatenation.
pub proof fn lemma_apply_all_concat(maps: KernelMaps, a: Seq<MapUpdate>, b: Seq<MapUpdate>)
    ensures
        apply_all(maps, a + b) == apply_all(apply_all(maps, a), b),
    decreases b.len(),
{
    if b.len() == 0 {
        assert(a + b =~= a);
    } else {
        assert((a + b).drop_last() =~= a + b.drop_last());
        lemma_apply_all_concat(maps, a, b.drop_last());
    }
}

/// How the kernel answered a write.
#[derive(Clone, Debug)]
pub enum MapReply {
    /// The write took place.
    Done,
    /// There was no entry under the key.
    KeyNotFound,
    /// The loaded program has no map of that name.
    MissingMap,
    /// Anything else, with its description.
    Failed(String),
}

/// How the kernel answered a lookup of a tracked entry.
#[derive(Clone, Debug)]
pub enum LookupReply {
    Found(InodeState),
    KeyNotFound,
    MissingMap,
    Failed(String),
}

} // verus!
