//! What the daemon writes to the kernel side, and what it remembers of it.
//!
//! A function here names a write. The caller performs it, hands the kernel's reply to
//! [`EbpfBlocker::settle`], and confirms writes that took place.
use crate::errors::CardwireEbpfError;
use crate::helpers::EXP_NVIDIA;
use crate::keys::{padded, state_of, InodeKey, InodeState, COMM_LEN};
use crate::maps::{LookupReply, MapReply, MapUpdate};
use crate::text::{contains, has_text};
use crate::types::lemma_filter_step;
use vstd::prelude::*;
use vstd::string::{StringExecFns, StringSliceAdditionalSpecFns};

verus! {

/// Settings that the kernel side knows.
#[derive(Copy, Clone, Debug)]
pub enum EbpfSettings {
    /// Block the files that all NVIDIA devices share.
    ExperimentalNvidia,
}

/// What the daemon remembers of the kernel side: the entries that it has blocked for NVIDIA.
///
/// The list mirrors the kernel's map, so it only changes once the kernel has agreed. An entry
/// that left the list before the kernel let go of it could not be named any more, and would stay
/// blocked until the daemon restarts.
#[derive(Debug)]
pub struct EbpfBlocker {
    pushed_exp_inodes: Vec<InodeKey>,
}

/// What comes next in a run of writes.
#[derive(Debug)]
pub enum WriteStep {
    /// Perform this write.
    Write(MapUpdate),
    /// All writes have taken place.
    Done,
    /// A write failed, and with it the run.
    Failed(CardwireEbpfError),
}

/// A map that was asked for by name.
#[derive(Clone, Debug)]
pub enum TakenMap {
    /// There is no map of that name, or it was taken before.
    Missing,
    /// The map is of another kind, with a description.
    Rejected(String),
    /// Here it is.
    Taken,
}

/// Whether `keys` holds `key`.
pub fn holds(keys: &Vec<InodeKey>, key: &InodeKey) -> (found: bool)
    ensures
        found == keys@.contains(*key),
{
    let mut i: usize = 0;
    while i < keys.len()
        invariant
            i <= keys@.len(),
            forall|j: int| 0 <= j < i ==> keys@[j] != *key,
        decreases keys.len() - i,
    {
        if keys[i] == *key {
            return true;
        }
        i = i + 1;
    }
    false
}

/// Is not among `keys`.
pub open spec fn not_among(keys: Seq<InodeKey>) -> spec_fn(InodeKey) -> bool {
    |key: InodeKey| !keys.contains(key)
}

/// The members of `pushed` that are not among `keys`, in order.
pub open spec fn stale_keys(pushed: Seq<InodeKey>, keys: Seq<InodeKey>) -> Seq<InodeKey> {
    pushed.filter(not_among(keys))
}

/// Collects the members of `pushed` that are not among `keys`.
pub fn find_stale(pushed: &Vec<InodeKey>, keys: &Vec<InodeKey>) -> (stale: Vec<InodeKey>)
    ensures
        stale@ == stale_keys(pushed@, keys@),
{
    let mut stale: Vec<InodeKey> = Vec::new();
    let mut i: usize = 0;
    proof {
        reveal(Seq::filter);
        assert(pushed@.take(0).filter(not_among(keys@)) =~= Seq::empty());
    }
    while i < pushed.len()
        invariant
            i <= pushed@.len(),
            stale@ == pushed@.take(i as int).filter(not_among(keys@)),
        decreases pushed.len() - i,
    {
        proof {
            lemma_filter_step(pushed@, i as int, not_among(keys@));
        }
        if !holds(keys, &pushed[i]) {
            stale.push(pushed[i]);
        }
        i = i + 1;
    }
    assert(pushed@.take(i as int) =~= pushed@);
    stale
}

/// Is another key than `key`.
pub open spec fn other_than(key: InodeKey) -> spec_fn(InodeKey) -> bool {
    |other: InodeKey| other != key
}

/// The list once a write has taken place.
pub open spec fn confirmed(pushed: Seq<InodeKey>, update: MapUpdate) -> Seq<InodeKey> {
    match update {
        MapUpdate::RemoveExpInode { key } => pushed.filter(other_than(key)),
        MapUpdate::InsertExpInode { key, .. } => if pushed.contains(key) {
            pushed
        } else {
            pushed.push(key)
        },
        _ => pushed,
    }
}

/// The next write that clears the list: the last entry goes first.
pub open spec fn clear_step(pushed: Seq<InodeKey>) -> Option<MapUpdate> {
    if pushed.len() == 0 {
        None
    } else {
        Some(MapUpdate::RemoveExpInode { key: pushed.last() })
    }
}

/// The next write that brings the list in line with `keys`, the first `inserted` of which have
/// been written: entries that are no longer wanted go first.
pub open spec fn sync_step(
    pushed: Seq<InodeKey>,
    keys: Seq<InodeKey>,
    inserted: nat,
) -> Option<MapUpdate> {
    if stale_keys(pushed, keys).len() > 0 {
        Some(MapUpdate::RemoveExpInode { key: stale_keys(pushed, keys)[0] })
    } else if inserted < keys.len() {
        Some(MapUpdate::InsertExpInode { key: keys[inserted as int], value: 0 })
    } else {
        None
    }
}

/// What becomes of a write, given the kernel's reply. Removing what is not there is no error.
pub open spec fn settled(update: MapUpdate, reply: MapReply) -> bool {
    reply is Done || (reply is KeyNotFound && update.is_removal())
}

impl EbpfBlocker {
    /// The entries that are blocked for NVIDIA.
    pub closed spec fn pushed(&self) -> Seq<InodeKey> {
        self.pushed_exp_inodes@
    }

    /// No entry is listed twice.
    pub open spec fn wf(&self) -> bool {
        self.pushed().no_duplicates()
    }

    /// What is remembered of a kernel side that was just loaded: nothing.
    pub fn loaded() -> (blocker: Self)
        ensures
            blocker.wf(),
            blocker.pushed() == Seq::<InodeKey>::empty(),
    {
        EbpfBlocker { pushed_exp_inodes: Vec::new() }
    }

    /// Whether the kernel runs with the BPF security module, from the list of its modules.
    pub fn is_bpf_enabled(lsm: Option<&str>) -> (enabled: bool)
        ensures
            enabled == (lsm is Some && has_text(lsm->0@, "bpf"@)),
    {
        match lsm {
            Some(lsm) => contains(lsm, "bpf"),
            None => false,
        }
    }

    /// Lets the daemon itself through.
    pub fn whitelist_cardwire_pid(&self, pid: u32) -> (update: MapUpdate)
        ensures
            update == (MapUpdate::DaemonPid { pid }),
    {
        MapUpdate::DaemonPid { pid }
    }

    /// Blocks an entry that belongs to GPU `gpu_id`.
    pub fn block_inode(&self, key: InodeKey, gpu_id: u32) -> (update: MapUpdate)
        ensures
            update == (MapUpdate::InsertInode { key, state: state_of(gpu_id, true) }),
    {
        MapUpdate::InsertInode { key, state: InodeState::new(gpu_id, true) }
    }

    /// Opens an entry that belongs to GPU `gpu_id`. It stays tracked.
    pub fn unblock_inode(&self, key: InodeKey, gpu_id: u32) -> (update: MapUpdate)
        ensures
            update == (MapUpdate::InsertInode { key, state: state_of(gpu_id, false) }),
    {
        MapUpdate::InsertInode { key, state: InodeState::new(gpu_id, false) }
    }

    /// Stops tracking an entry.
    pub fn remove_inode(&self, key: InodeKey) -> (update: MapUpdate)
        ensures
            update == (MapUpdate::RemoveInode { key }),
    {
        MapUpdate::RemoveInode { key }
    }

    /// Whether an entry is blocked for GPU `gpu_id`, from what the map of tracked entries holds.
    pub fn is_inode_blocked(reply: LookupReply, gpu_id: u32) -> (blocked: Result<
        bool,
        CardwireEbpfError,
    >)
        ensures
            match reply {
                LookupReply::Found(state) => blocked == Ok::<bool, CardwireEbpfError>(
                    state.gpu_id == gpu_id && state.blocked == 1,
                ),
                LookupReply::KeyNotFound => blocked == Ok::<bool, CardwireEbpfError>(false),
                LookupReply::MissingMap => blocked matches Err(CardwireEbpfError::MissingMap {
                    name,
                }) && name@ == "CW_BLOCKED_INO"@,
                LookupReply::Failed(reason) => blocked == Err::<bool, CardwireEbpfError>(
                    CardwireEbpfError::Aya(reason),
                ),
            },
    {
        match reply {
            LookupReply::Found(state) => Ok(state.gpu_id == gpu_id && state.blocked == 1),
            LookupReply::KeyNotFound => Ok(false),
            LookupReply::MissingMap => Err(CardwireEbpfError::missing_map("CW_BLOCKED_INO")),
            LookupReply::Failed(reason) => Err(CardwireEbpfError::aya(reason)),
        }
    }

    /// Blocks an entry that NVIDIA devices share. The kernel side makes no use of the value.
    pub fn block_exp_inode(&self, key: InodeKey, value: u32) -> (update: MapUpdate)
        ensures
            update == (MapUpdate::InsertExpInode { key, value }),
    {
        MapUpdate::InsertExpInode { key, value }
    }

    /// Stops blocking an entry that NVIDIA devices share.
    pub fn remove_exp_inode(&self, key: InodeKey) -> (update: MapUpdate)
        ensures
            update == (MapUpdate::RemoveExpInode { key }),
    {
        MapUpdate::RemoveExpInode { key }
    }

    /// The next write on the way to an empty list, or nothing when it is empty.
    ///
    /// Called again once the write has taken place and is confirmed.
    pub fn clear_exp_inodes(&self) -> (update: Option<MapUpdate>)
        ensures
            update == clear_step(self.pushed()),
    {
        let n = self.pushed_exp_inodes.len();
        if n == 0 {
            None
        } else {
            Some(self.remove_exp_inode(self.pushed_exp_inodes[n - 1]))
        }
    }

    /// The next write on the way to a list of exactly `keys`, or nothing when it is reached.
    ///
    /// Called again once the write has taken place and is confirmed; `inserted` counts the
    /// entries that have been written. The GPU that they are blocked for is not written: the
    /// entries can be shared by several devices, and the value is always 0.
    pub fn sync_exp_inodes(&self, keys: &Vec<InodeKey>, _gpu_id: u32, inserted: usize) -> (update:
        Option<MapUpdate>)
        ensures
            update == sync_step(self.pushed(), keys@, inserted as nat),
    {
        let stale = find_stale(&self.pushed_exp_inodes, keys);
        if stale.len() > 0 {
            return Some(self.remove_exp_inode(stale[0]));
        }
        if inserted < keys.len() {
            return Some(self.block_exp_inode(keys[inserted], 0));
        }
        None
    }

    /// Takes note of a write that has taken place.
    pub fn confirm(&mut self, update: &MapUpdate)
        ensures
            final(self).pushed() == confirmed(old(self).pushed(), *update),
            old(self).wf() ==> final(self).wf(),
    {
        let ghost before = self.pushed_exp_inodes@;
        match update {
            MapUpdate::RemoveExpInode { key } => {
                let mut kept: Vec<InodeKey> = Vec::new();
                let mut i: usize = 0;
                proof {
                    reveal(Seq::filter);
                    assert(before.take(0).filter(other_than(*key)) =~= Seq::empty());
                }
                while i < self.pushed_exp_inodes.len()
                    invariant
                        i <= before.len(),
                        self.pushed_exp_inodes@ == before,
                        kept@ == before.take(i as int).filter(other_than(*key)),
                    decreases before.len() - i,
                {
                    proof {
                        lemma_filter_step(before, i as int, other_than(*key));
                    }
                    if self.pushed_exp_inodes[i] != *key {
                        kept.push(self.pushed_exp_inodes[i]);
                    }
                    i = i + 1;
                }
                assert(before.take(i as int) =~= before);
                self.pushed_exp_inodes = kept;
                proof {
                    if before.no_duplicates() {
                        lemma_filter_no_duplicates(before, other_than(*key));
                    }
                }
            },
            MapUpdate::InsertExpInode { key, .. } => {
                if !holds(&self.pushed_exp_inodes, key) {
                    self.pushed_exp_inodes.push(*key);
                }
            },
            _ => {},
        }
    }

    /// What becomes of a write, given the kernel's reply.
    pub fn settle(update: &MapUpdate, reply: MapReply) -> (result: Result<(), CardwireEbpfError>)
        ensures
            result is Ok <==> settled(*update, reply),
            result matches Err(err) ==> match reply {
                MapReply::MissingMap => err matches CardwireEbpfError::MissingMap { name } && name@
                    == update.target(),
                MapReply::Failed(reason) => err == CardwireEbpfError::Aya(reason),
                _ => err matches CardwireEbpfError::Aya(reason) && reason@ == "key not found"@,
            },
    {
        match reply {
            MapReply::Done => Ok(()),
            MapReply::KeyNotFound => match update {
                MapUpdate::RemoveInode { .. } => Ok(()),
                MapUpdate::RemoveExpInode { .. } => Ok(()),
                _ => Err(CardwireEbpfError::aya(String::from_str("key not found"))),
            },
            MapReply::MissingMap => Err(CardwireEbpfError::missing_map(update.map_name())),
            MapReply::Failed(reason) => Err(CardwireEbpfError::aya(reason)),
        }
    }

    /// What comes next in a run of writes, the first `done` of which were asked for. `last` is how
    /// the last of them went: one that fails ends the run with its error.
    pub fn next_write(
        updates: &Vec<MapUpdate>,
        done: usize,
        last: Result<(), CardwireEbpfError>,
    ) -> (step: WriteStep)
        ensures
            step == match last {
                Err(err) => WriteStep::Failed(err),
                Ok(_) => if done < updates@.len() {
                    WriteStep::Write(updates@[done as int])
                } else {
                    WriteStep::Done
                },
            },
    {
        if let Err(err) = last {
            return WriteStep::Failed(err);
        }
        if done < updates.len() {
            WriteStep::Write(updates[done])
        } else {
            WriteStep::Done
        }
    }

    /// Writes a setting.
    pub fn set_ebpf_setting(&self, setting: EbpfSettings, value: u8) -> (update: MapUpdate)
        ensures
            setting is ExperimentalNvidia ==> update == (MapUpdate::Setting {
                key: EXP_NVIDIA,
                value,
            }),
    {
        let key: u8 = match setting {
            EbpfSettings::ExperimentalNvidia => EXP_NVIDIA,
        };
        MapUpdate::Setting { key, value }
    }

    /// Turns a process name into a 16-byte key with a guaranteed closing NUL.
    pub fn comm_to_key(comm: &str) -> (key: [u8; 16])
        ensures
            key@ == padded(comm.spec_bytes(), COMM_LEN as nat),
    {
        let bytes = comm.as_bytes();
        let mut key: [u8; 16] = [0u8; 16];
        let mut i: usize = 0;
        while i < bytes.len() && i < 15
            invariant
                i <= bytes@.len(),
                i <= 15,
                forall|j: int| 0 <= j < i ==> key@[j] == bytes@[j],
                forall|j: int| i <= j < 16 ==> key@[j] == 0,
            decreases 15 - i,
        {
            key[i] = bytes[i];
            i = i + 1;
        }
        assert(key@ =~= padded(comm.spec_bytes(), COMM_LEN as nat));
        key
    }

    /// Lets processes of this name through.
    pub fn allow_comm(&self, comm: &str) -> (update: MapUpdate)
        ensures
            update matches MapUpdate::AllowComm { comm: key } && key@ == padded(
                comm.spec_bytes(),
                COMM_LEN as nat,
            ),
    {
        MapUpdate::AllowComm { comm: Self::comm_to_key(comm) }
    }

    fn take_map(name: &str, taken: TakenMap) -> (result: Result<(), CardwireEbpfError>)
        ensures
            take_result(name@, taken, result),
    {
        match taken {
            TakenMap::Taken => Ok(()),
            TakenMap::Missing => Err(CardwireEbpfError::missing_map(name)),
            TakenMap::Rejected(reason) => Err(CardwireEbpfError::aya(reason)),
        }
    }

    /// Takes the ring of process starts, `CW_EXEC_EVENTS`.
    pub fn get_exec_ring(taken: TakenMap) -> (result: Result<(), CardwireEbpfError>)
        ensures
            take_result("CW_EXEC_EVENTS"@, taken, result),
    {
        Self::take_map("CW_EXEC_EVENTS", taken)
    }

    /// Takes the ring of refusals, `CW_REPORT_EVENTS`.
    pub fn get_report_ring(taken: TakenMap) -> (result: Result<(), CardwireEbpfError>)
        ensures
            take_result("CW_REPORT_EVENTS"@, taken, result),
    {
        Self::take_map("CW_REPORT_EVENTS", taken)
    }

    /// Takes the map of allowed processes, `CW_ALLOWED_PID`.
    pub fn get_pid_map(taken: TakenMap) -> (result: Result<(), CardwireEbpfError>)
        ensures
            take_result("CW_ALLOWED_PID"@, taken, result),
    {
        Self::take_map("CW_ALLOWED_PID", taken)
    }

    /// Takes the map of processes that are held to a GPU, `CW_FORCED_PID`.
    pub fn get_forced_pid_map(taken: TakenMap) -> (result: Result<(), CardwireEbpfError>)
        ensures
            take_result("CW_FORCED_PID"@, taken, result),
    {
        Self::take_map("CW_FORCED_PID", taken)
    }

    /// Takes the map of the mode, `CW_MODE`.
    pub fn get_mode_map(taken: TakenMap) -> (result: Result<(), CardwireEbpfError>)
        ensures
            take_result("CW_MODE"@, taken, result),
    {
        Self::take_map("CW_MODE", taken)
    }
}

/// The result of taking the map called `name`.
pub open spec fn take_result(
    name: Seq<char>,
    taken: TakenMap,
    result: Result<(), CardwireEbpfError>,
) -> bool {
    match taken {
        TakenMap::Taken => result is Ok,
        TakenMap::Missing => result matches Err(CardwireEbpfError::MissingMap { name: n }) && n@
            == name,
        TakenMap::Rejected(reason) => result == Err::<(), CardwireEbpfError>(
            CardwireEbpfError::Aya(reason),
        ),
    }
}

/// Whether the kernel is locked down, from the text of `/sys/kernel/security/lockdown`.
pub fn is_lockdown_enabled(lockdown: Option<&str>) -> (enabled: bool)
    ensures
        enabled == (lockdown is Some && (has_text(lockdown->0@, "[integrity]"@) || has_text(
            lockdown->0@,
            "[confidentiality]"@,
        ))),
{
    match lockdown {
        Some(entry) => contains(entry, "[integrity]") || contains(entry, "[confidentiality]"),
        None => false,
    }
}

/// What is kept of a list without repetition has none.
pub proof fn lemma_filter_no_duplicates<A>(s: Seq<A>, keep: spec_fn(A) -> bool)
    requires
        s.no_duplicates(),
    ensures
        s.filter(keep).no_duplicates(),
    decreases s.len(),
{
    reveal(Seq::filter);
    if s.len() > 0 {
        let rest = s.drop_last();
        assert(rest.no_duplicates());
        lemma_filter_no_duplicates(rest, keep);
        if rest.filter(keep).contains(s.last()) {
            lemma_filter_member(rest, keep, s.last());
            let i = choose|i: int| 0 <= i < rest.len() && rest[i] == s.last();
            assert(s[i] == s[s.len() - 1]);
        }
    }
}

/// The members of a filtered list.
pub proof fn lemma_filter_member<A>(s: Seq<A>, keep: spec_fn(A) -> bool, key: A)
    ensures
        s.filter(keep).contains(key) <==> s.contains(key) && keep(key),
    decreases s.len(),
{
    reveal(Seq::filter);
    if s.len() > 0 {
        let rest = s.drop_last();
        lemma_filter_member(rest, keep, key);
        let kept = rest.filter(keep);
        assert(s =~= rest.push(s.last()));
        if s.contains(key) {
            let i = choose|i: int| 0 <= i < s.len() && s[i] == key;
            if i < rest.len() {
                assert(rest[i] == key);
            }
        }
        if rest.contains(key) {
            let i = choose|i: int| 0 <= i < rest.len() && rest[i] == key;
            assert(s[i] == key);
        }
        if keep(s.last()) {
            let all = kept.push(s.last());
            assert(all[kept.len() as int] == s.last());
            if kept.contains(key) {
                let i = choose|i: int| 0 <= i < kept.len() && kept[i] == key;
                assert(all[i] == key);
            }
            if all.contains(key) {
                let i = choose|i: int| 0 <= i < all.len() && all[i] == key;
                if i < kept.len() {
                    assert(kept[i] == key);
                }
            }
        }
        assert(s[s.len() - 1] == s.last());
    }
}

} // verus!
