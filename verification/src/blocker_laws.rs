//! What the daemon's list of NVIDIA entries has to do with the kernel's map of them.
use crate::blocker::{
    clear_step, confirmed, is_lockdown_enabled, lemma_filter_member, lemma_filter_no_duplicates,
    not_among, other_than, stale_keys, sync_step, EbpfBlocker, EbpfSettings, TakenMap,
    WriteStep,
};
use crate::errors::CardwireEbpfError;
use crate::helpers::{denies, Caller, EXP_NVIDIA, INTEGRATED};
use crate::keys::{padded, state_of, InodeKey, InodeState, COMM_LEN};
use crate::loader::LoadState;
use crate::maps::{KernelMaps, LookupReply, MapReply, MapUpdate};
use crate::text::has_text;
use vstd::prelude::*;
use vstd::string::StringSliceAdditionalSpecFns;

verus! {

/// The list names exactly the entries of the kernel's map.
pub open spec fn mirrors(pushed: Seq<InodeKey>, maps: KernelMaps) -> bool {
    forall|key: InodeKey| #[trigger] maps.exp.contains_key(key) <==> pushed.contains(key)
}

/// A write that takes place and is confirmed leaves the list a mirror of the kernel's map, and
/// so does one that does not take place, after which neither changes. At no time is there an
/// entry in the map that the daemon could not name to remove it.
pub proof fn law_list_mirrors_map(pushed: Seq<InodeKey>, maps: KernelMaps, update: MapUpdate)
    requires
        mirrors(pushed, maps),
    ensures
        mirrors(confirmed(pushed, update), update.apply(maps)),
{
    let next = confirmed(pushed, update);
    let after = update.apply(maps);
    assert forall|key: InodeKey| #[trigger] after.exp.contains_key(key) <==> next.contains(
        key,
    ) by {
        assert(maps.exp.contains_key(key) <==> pushed.contains(key));
        match update {
            MapUpdate::RemoveExpInode { key: gone } => {
                lemma_filter_member(pushed, other_than(gone), key);
            },
            MapUpdate::InsertExpInode { key: new, .. } => {
                if !pushed.contains(new) {
                    let all = pushed.push(new);
                    assert(all[pushed.len() as int] == new);
                    if pushed.contains(key) {
                        let i = choose|i: int| 0 <= i < pushed.len() && pushed[i] == key;
                        assert(all[i] == key);
                    }
                    if all.contains(key) {
                        let i = choose|i: int| 0 <= i < all.len() && all[i] == key;
                        if i < pushed.len() {
                            assert(pushed[i] == key);
                        }
                    }
                }
            },
            _ => {},
        }
    }
}

/// The list and the maps once all writes of [`clear_step`] have taken place.
pub open spec fn cleared(pushed: Seq<InodeKey>, maps: KernelMaps, bound: nat) -> (
    Seq<InodeKey>,
    KernelMaps,
)
    decreases bound,
{
    match clear_step(pushed) {
        Some(update) => if bound == 0 {
            (pushed, maps)
        } else {
            cleared(confirmed(pushed, update), update.apply(maps), (bound - 1) as nat)
        },
        None => (pushed, maps),
    }
}

proof fn lemma_drop_last(pushed: Seq<InodeKey>)
    requires
        pushed.len() > 0,
        pushed.no_duplicates(),
    ensures
        pushed.filter(other_than(pushed.last())) == pushed.drop_last(),
{
    reveal(Seq::filter);
    let rest = pushed.drop_last();
    let keep = other_than(pushed.last());
    lemma_filter_all(rest, keep);
}

proof fn lemma_filter_all(s: Seq<InodeKey>, keep: spec_fn(InodeKey) -> bool)
    requires
        forall|i: int| 0 <= i < s.len() ==> keep(#[trigger] s[i]),
    ensures
        s.filter(keep) == s,
    decreases s.len(),
{
    reveal(Seq::filter);
    if s.len() > 0 {
        let rest = s.drop_last();
        assert forall|i: int| 0 <= i < rest.len() implies keep(#[trigger] rest[i]) by {
            assert(rest[i] == s[i]);
        }
        lemma_filter_all(rest, keep);
        assert(keep(s[s.len() - 1]));
        assert(s =~= rest.push(s.last()));
    } else {
        assert(s.filter(keep) =~= s);
    }
}

/// Clearing takes one write for each entry, and leaves the list and the kernel's map empty and
/// the other maps as they were.
pub proof fn law_clear_empties_the_map(pushed: Seq<InodeKey>, maps: KernelMaps)
    requires
        mirrors(pushed, maps),
        pushed.no_duplicates(),
    ensures
        cleared(pushed, maps, pushed.len()).0 == Seq::<InodeKey>::empty(),
        cleared(pushed, maps, pushed.len()).1 == (KernelMaps { exp: Map::empty(), ..maps }),
    decreases pushed.len(),
{
    if pushed.len() == 0 {
        assert forall|key: InodeKey| !maps.exp.contains_key(key) by {
            assert(!pushed.contains(key));
        }
        assert(maps.exp =~= Map::empty());
        assert(pushed =~= Seq::empty());
    } else {
        let update = clear_step(pushed)->0;
        lemma_drop_last(pushed);
        law_list_mirrors_map(pushed, maps, update);
        law_clear_empties_the_map(confirmed(pushed, update), update.apply(maps));
    }
}

/// The list and the maps once all writes of [`sync_step`] have taken place, at most `bound`.
pub open spec fn synced(
    pushed: Seq<InodeKey>,
    maps: KernelMaps,
    keys: Seq<InodeKey>,
    inserted: nat,
    bound: nat,
) -> (Seq<InodeKey>, KernelMaps)
    decreases bound,
{
    match sync_step(pushed, keys, inserted) {
        Some(update) => if bound == 0 {
            (pushed, maps)
        } else {
            synced(
                confirmed(pushed, update),
                update.apply(maps),
                keys,
                if update is InsertExpInode {
                    inserted + 1
                } else {
                    inserted
                },
                (bound - 1) as nat,
            )
        },
        None => (pushed, maps),
    }
}

/// How many writes a sync takes.
pub open spec fn sync_writes(pushed: Seq<InodeKey>, keys: Seq<InodeKey>) -> nat {
    stale_keys(pushed, keys).len() + keys.len()
}

/// What the kernel's map holds after a sync with `keys`: the value is 0, whatever GPU the entries
/// are blocked for.
pub open spec fn exp_map(keys: Seq<InodeKey>) -> Map<InodeKey, u32> {
    Map::new(|key: InodeKey| keys.contains(key), |key: InodeKey| 0u32)
}

/// Once its first stale member is removed, a list has one stale member less.
proof fn lemma_stale_shrinks(pushed: Seq<InodeKey>, keys: Seq<InodeKey>)
    requires
        pushed.no_duplicates(),
        stale_keys(pushed, keys).len() > 0,
    ensures
        stale_keys(pushed.filter(other_than(stale_keys(pushed, keys)[0])), keys).len()
            == stale_keys(pushed, keys).len() - 1,
{
    let gone = stale_keys(pushed, keys)[0];
    lemma_stale_without(pushed, keys, gone);
    assert(stale_keys(pushed, keys).contains(gone));
    lemma_filter_member(pushed, not_among(keys), gone);
}

proof fn lemma_stale_without(pushed: Seq<InodeKey>, keys: Seq<InodeKey>, gone: InodeKey)
    requires
        pushed.no_duplicates(),
        !keys.contains(gone),
    ensures
        stale_keys(pushed.filter(other_than(gone)), keys).len() == stale_keys(pushed, keys).len()
            - if pushed.contains(gone) {
            1int
        } else {
            0int
        },
    decreases pushed.len(),
{
    reveal(Seq::filter);
    if pushed.len() == 0 {
        assert(!pushed.contains(gone));
    } else {
        let rest = pushed.drop_last();
        assert(rest.no_duplicates());
        lemma_stale_without(rest, keys, gone);
        let last = pushed.last();
        assert(pushed =~= rest.push(last));
        assert(pushed[pushed.len() - 1] == last);
        if last == gone {
            if rest.contains(gone) {
                let i = choose|i: int| 0 <= i < rest.len() && rest[i] == gone;
                assert(pushed[i] == gone);
            }
            assert(pushed.contains(gone));
        } else {
            if pushed.contains(gone) {
                let i = choose|i: int| 0 <= i < pushed.len() && pushed[i] == gone;
                assert(rest[i] == gone);
            }
            if rest.contains(gone) {
                let i = choose|i: int| 0 <= i < rest.len() && rest[i] == gone;
                assert(pushed[i] == gone);
            }
            let kept = rest.filter(other_than(gone));
            assert(pushed.filter(other_than(gone)) == kept.push(last));
            assert(kept.push(last).drop_last() =~= kept);
        }
    }
}

/// After the sync, from any point on its way.
proof fn lemma_sync_from(
    pushed: Seq<InodeKey>,
    maps: KernelMaps,
    keys: Seq<InodeKey>,
    inserted: nat,
    bound: nat,
)
    requires
        mirrors(pushed, maps),
        pushed.no_duplicates(),
        inserted <= keys.len(),
        inserted > 0 ==> stale_keys(pushed, keys).len() == 0,
        bound == stale_keys(pushed, keys).len() + keys.len() - inserted,
        forall|i: int|
            0 <= i < inserted ==> maps.exp.contains_key(#[trigger] keys[i]) && maps.exp[keys[i]]
                == 0,
    ensures
        ({
            let (list, after) = synced(pushed, maps, keys, inserted, bound);
            &&& mirrors(list, after)
            &&& list.no_duplicates()
            &&& after == (KernelMaps { exp: exp_map(keys), ..maps })
        }),
    decreases bound,
{
    let stale = stale_keys(pushed, keys);
    match sync_step(pushed, keys, inserted) {
        Some(update) => {
            law_list_mirrors_map(pushed, maps, update);
            let next = confirmed(pushed, update);
            let after = update.apply(maps);
            if stale.len() > 0 {
                lemma_stale_shrinks(pushed, keys);
                lemma_filter_no_duplicates(pushed, other_than(stale[0]));
                lemma_sync_from(next, after, keys, inserted, (bound - 1) as nat);
            } else {
                let key = keys[inserted as int];
                assert(keys.contains(key));
                assert(stale_keys(next, keys).len() == 0) by {
                    reveal(Seq::filter);
                    if !pushed.contains(key) {
                        assert(next.drop_last() =~= pushed);
                    }
                }
                assert(next.no_duplicates());
                lemma_sync_from(next, after, keys, inserted + 1, (bound - 1) as nat);
            }
        },
        None => {
            assert forall|key: InodeKey| #[trigger] maps.exp.contains_key(key) <==> keys.contains(
                key,
            ) by {
                if maps.exp.contains_key(key) {
                    assert(pushed.contains(key));
                    lemma_filter_member(pushed, not_among(keys), key);
                    if !keys.contains(key) {
                        assert(stale.contains(key));
                    }
                }
                if keys.contains(key) {
                    let i = choose|i: int| 0 <= i < keys.len() && keys[i] == key;
                    assert(maps.exp.contains_key(keys[i]));
                }
            }
            assert forall|key: InodeKey| maps.exp.contains_key(key) implies maps.exp[key]
                == 0 by {
                assert(keys.contains(key));
                let i = choose|i: int| 0 <= i < keys.len() && keys[i] == key;
                assert(maps.exp[keys[i]] == 0);
            }
            assert(maps.exp =~= exp_map(keys));
        },
    }
}

/// A sync whose writes all take place leaves in the kernel's map exactly the wanted entries, each
/// with value 0, and the other maps as they were. It takes one write for each entry that
/// goes, and one for each wanted entry.
pub proof fn law_sync_leaves_exactly_the_wanted_entries(
    pushed: Seq<InodeKey>,
    maps: KernelMaps,
    keys: Seq<InodeKey>,
)
    requires
        mirrors(pushed, maps),
        pushed.no_duplicates(),
    ensures
        ({
            let (list, after) = synced(
                pushed,
                maps,
                keys,
                0,
                sync_writes(pushed, keys),
            );
            &&& mirrors(list, after)
            &&& list.no_duplicates()
            &&& after == (KernelMaps { exp: exp_map(keys), ..maps })
        }),
{
    lemma_sync_from(pushed, maps, keys, 0, sync_writes(pushed, keys));
}

/// Once a name is allowed, the kernel side finds it under the name that any process of that name
/// has: its first 15 bytes and a closing NUL.
pub proof fn law_allowed_name_is_found(
    maps: KernelMaps,
    name: Seq<u8>,
    key: [u8; 16],
    current: [u8; 16],
)
    requires
        key@ == padded(name, COMM_LEN as nat),
        current@ == padded(name, COMM_LEN as nat),
    ensures
        (MapUpdate::AllowComm { comm: key }).apply(maps).allowed_comm.contains(current),
{
    assert forall|i: int| 0 <= i < 16 implies key[i] == current[i] by {
        assert(key@[i] == current@[i]);
    }
    assert(key =~= current);
}

/// The NVIDIA entries are refused to everyone in integrated mode while the setting is on, and
/// to nobody while it is off, unless they are tracked otherwise.
pub proof fn law_nvidia_setting_switches_the_block(
    maps: KernelMaps,
    key: InodeKey,
    caller: Caller,
    value: u8,
)
    requires
        maps.mode == INTEGRATED,
        maps.exp.contains_key(key),
        !maps.blocked.contains_key(key),
    ensures
        denies((MapUpdate::Setting { key: EXP_NVIDIA, value }).apply(maps), key, caller) <==> value
            != 0,
{
}

/// Blocking an entry refuses it to everyone in integrated mode, unblocking it opens it again,
/// and both leave every other entry alone.
pub proof fn law_block_and_unblock(
    maps: KernelMaps,
    key: InodeKey,
    gpu_id: u32,
    other: InodeKey,
    caller: Caller,
)
    requires
        maps.mode == INTEGRATED,
    ensures
        ({
            let blocked = (MapUpdate::InsertInode { key, state: state_of(gpu_id, true) }).apply(
                maps,
            );
            let opened = (MapUpdate::InsertInode { key, state: state_of(gpu_id, false) }).apply(
                blocked,
            );
            &&& denies(blocked, key, caller)
            &&& !denies(opened, key, caller)
            &&& other != key ==> denies(blocked, other, caller) == denies(maps, other, caller)
            &&& other != key ==> denies(opened, other, caller) == denies(maps, other, caller)
        }),
{
}

/// Of a write that did not take place, only one thing is forgiven: that an entry to take out was
/// not there. Everything else is an error, with the reason that the kernel gave.
pub proof fn law_only_a_missing_entry_is_forgiven(
    update: MapUpdate,
    reply: MapReply,
    result: Result<(), CardwireEbpfError>,
)
    requires
        call_ensures(EbpfBlocker::settle, (&update, reply), result),
    ensures
        reply is Done ==> result is Ok,
        reply is MissingMap ==> (result matches Err(err) && err is MissingMap),
        reply matches MapReply::Failed(reason) ==> result == Err::<(), CardwireEbpfError>(
            CardwireEbpfError::Aya(reason),
        ),
        reply is KeyNotFound ==> (result is Ok <==> (update is RemoveInode
            || update is RemoveExpInode)),
{
}

/// A block and an unblock of an entry write the same entry for the same GPU: the block with the
/// mark 1, the unblock with the mark 0.
pub proof fn law_marks_of_an_entry(
    blocker: EbpfBlocker,
    key: InodeKey,
    gpu_id: u32,
    block: MapUpdate,
    unblock: MapUpdate,
    removal: MapUpdate,
)
    requires
        call_ensures(EbpfBlocker::block_inode, (&blocker, key, gpu_id), block),
        call_ensures(EbpfBlocker::unblock_inode, (&blocker, key, gpu_id), unblock),
        call_ensures(EbpfBlocker::remove_inode, (&blocker, key), removal),
    ensures
        block matches MapUpdate::InsertInode { key: k, state } && k == key && state.gpu_id == gpu_id
            && state.blocked == 1,
        unblock matches MapUpdate::InsertInode { key: k, state } && k == key && state.gpu_id
            == gpu_id && state.blocked == 0,
        removal matches MapUpdate::RemoveInode { key: k } && k == key,
{
}

/// An entry is blocked for at most one GPU: the one that it is tracked for, if it is marked. One
/// that is not tracked is blocked for none.
pub proof fn law_entry_is_blocked_for_its_gpu_alone(
    reply: LookupReply,
    gpu_id: u32,
    blocked: Result<bool, CardwireEbpfError>,
)
    requires
        call_ensures(EbpfBlocker::is_inode_blocked, (reply, gpu_id), blocked),
    ensures
        blocked matches Ok(true) <==> (reply matches LookupReply::Found(state) && state.gpu_id
            == gpu_id && state.blocked == 1),
        blocked is Ok <==> reply is Found || reply is KeyNotFound,
        reply matches LookupReply::Failed(reason) ==> blocked == Err::<bool, CardwireEbpfError>(
            CardwireEbpfError::Aya(reason),
        ),
        reply is MissingMap ==> (blocked matches Err(err) && err is MissingMap),
{
}

/// What the daemon remembers once a write has taken place: an entry that was written is on the
/// list, one that was taken out is not, and all others are as they were.
pub proof fn law_confirmed_write_is_remembered(
    before: EbpfBlocker,
    after: EbpfBlocker,
    update: MapUpdate,
    key: InodeKey,
)
    requires
        exists|blocker: &mut EbpfBlocker|
            *blocker == before && *final(blocker) == after && #[trigger] call_ensures(
                EbpfBlocker::confirm,
                (blocker, &update),
                (),
            ),
    ensures
        after.pushed().contains(key) <==> match update {
            MapUpdate::InsertExpInode { key: written, .. } => before.pushed().contains(key) || key
                == written,
            MapUpdate::RemoveExpInode { key: gone } => before.pushed().contains(key) && key != gone,
            _ => before.pushed().contains(key),
        },
{
    match update {
        MapUpdate::RemoveExpInode { key: gone } => {
            lemma_filter_member(before.pushed(), other_than(gone), key);
        },
        MapUpdate::InsertExpInode { key: new, .. } => {
            let all = before.pushed().push(new);
            assert(all[before.pushed().len() as int] == new);
            if before.pushed().contains(key) {
                let i = choose|i: int| 0 <= i < before.pushed().len() && before.pushed()[i] == key;
                assert(all[i] == key);
            }
            if all.contains(key) && key != new {
                let i = choose|i: int| 0 <= i < all.len() && all[i] == key;
                assert(before.pushed()[i] == key);
            }
        },
        _ => {},
    }
}

/// On the way to an empty list nothing is written, and only what is on the list is taken out; the
/// end is only reached once the list is empty.
pub proof fn law_clear_takes_out_what_is_listed(
    blocker: EbpfBlocker,
    update: Option<MapUpdate>,
)
    requires
        call_ensures(EbpfBlocker::clear_exp_inodes, (&blocker,), update),
    ensures
        update is None <==> blocker.pushed().len() == 0,
        update matches Some(u) ==> (u matches MapUpdate::RemoveExpInode { key }
            && blocker.pushed().contains(key)),
{
}

/// On the way to a list of wanted entries only unwanted ones are taken out, and all of them before
/// the first one is written; the wanted ones are written in their order, with value 0 whatever GPU
/// they are for; and the end is only reached once all were written.
pub proof fn law_sync_takes_out_before_it_writes(
    blocker: EbpfBlocker,
    keys: Vec<InodeKey>,
    gpu_id: u32,
    inserted: usize,
    update: Option<MapUpdate>,
)
    requires
        call_ensures(EbpfBlocker::sync_exp_inodes, (&blocker, &keys, gpu_id, inserted), update),
    ensures
        update matches Some(u) ==> u is RemoveExpInode || u is InsertExpInode,
        update matches Some(MapUpdate::RemoveExpInode { key }) ==> blocker.pushed().contains(key)
            && !keys@.contains(key),
        update matches Some(MapUpdate::InsertExpInode { key, value }) ==> inserted < keys@.len()
            && key == keys@[inserted as int] && value == 0,
        !(update matches Some(MapUpdate::RemoveExpInode { .. })) ==> forall|key: InodeKey|
            blocker.pushed().contains(key) ==> keys@.contains(key),
        update is None ==> inserted >= keys@.len(),
{
    let stale = stale_keys(blocker.pushed(), keys@);
    assert forall|key: InodeKey|
        stale.contains(key) <==> blocker.pushed().contains(key) && !keys@.contains(key) by {
        lemma_filter_member(blocker.pushed(), not_among(keys@), key);
    }
    if stale.len() > 0 {
        assert(stale.contains(stale[0]));
    } else {
        assert forall|key: InodeKey| blocker.pushed().contains(key) implies keys@.contains(
            key,
        ) by {
            assert(!stale.contains(key));
        }
    }
}

/// A run of writes is carried out in its order and to its end, unless a write fails: its error then
/// ends the run.
pub proof fn law_first_failure_ends_the_run(
    updates: Vec<MapUpdate>,
    done: usize,
    last: Result<(), CardwireEbpfError>,
    step: WriteStep,
)
    requires
        call_ensures(EbpfBlocker::next_write, (&updates, done, last), step),
    ensures
        last matches Err(err) ==> step == WriteStep::Failed(err),
        last is Ok && done < updates@.len() ==> step == WriteStep::Write(updates@[done as int]),
        step is Done <==> last is Ok && done >= updates@.len(),
{
}

/// The name of a process is kept up to fifteen bytes, and filled up with zeros: the last byte is
/// zero whatever the name.
pub proof fn law_process_name_keeps_fifteen_bytes(comm: &str, key: [u8; 16], i: int)
    requires
        call_ensures(EbpfBlocker::comm_to_key, (comm,), key),
        0 <= i < 16,
    ensures
        i < 15 && i < comm.spec_bytes().len() ==> key@[i] == comm.spec_bytes()[i],
        i >= comm.spec_bytes().len() || i == 15 ==> key@[i] == 0,
{
}

/// The name of an entry is kept up to 63 bytes, and filled up with zeros: the last byte is zero
/// whatever the name. The inode number is kept as it is.
pub proof fn law_entry_name_keeps_sixty_three_bytes(name: &str, ino: u64, key: InodeKey, i: int)
    requires
        call_ensures(InodeKey::new, (name, ino), key),
        0 <= i < 64,
    ensures
        key.ino == ino,
        i < 63 && i < name.spec_bytes().len() ==> key.name@[i] == name.spec_bytes()[i],
        i >= name.spec_bytes().len() || i == 63 ==> key.name@[i] == 0,
{
}

/// An entry is taken out of the map that it was written to.
pub proof fn law_entries_leave_the_map_they_entered(
    key: InodeKey,
    state: InodeState,
    value: u32,
    written: &'static str,
    gone: &'static str,
    shared: &'static str,
    unshared: &'static str,
)
    requires
        call_ensures(MapUpdate::map_name, (&MapUpdate::InsertInode { key, state },), written),
        call_ensures(MapUpdate::map_name, (&MapUpdate::RemoveInode { key },), gone),
        call_ensures(MapUpdate::map_name, (&MapUpdate::InsertExpInode { key, value },), shared),
        call_ensures(MapUpdate::map_name, (&MapUpdate::RemoveExpInode { key },), unshared),
    ensures
        written@ == gone@,
        shared@ == unshared@,
        written@ != shared@,
{
    reveal_strlit("CW_BLOCKED_INO");
    reveal_strlit("CW_EXP_BLK_INO");
    assert("CW_BLOCKED_INO"@[3] != "CW_EXP_BLK_INO"@[3]);
}

/// The kernel counts as locked down exactly if the text marks one of the two levels as chosen, and
/// as able to run the programs exactly if the BPF module is on its list.
pub proof fn law_kernel_is_asked_for_what_it_allows(
    lockdown: Option<&str>,
    locked: bool,
    lsm: Option<&str>,
    enabled: bool,
    begun: Result<LoadState, CardwireEbpfError>,
)
    requires
        call_ensures(is_lockdown_enabled, (lockdown,), locked),
        call_ensures(EbpfBlocker::is_bpf_enabled, (lsm,), enabled),
        call_ensures(EbpfBlocker::new, (lsm,), begun),
    ensures
        lockdown is None ==> !locked,
        lockdown matches Some(text) ==> (has_text(text@, "[integrity]"@) ==> locked) && (has_text(
            text@,
            "[confidentiality]"@,
        ) ==> locked),
        lockdown matches Some(text) ==> (locked ==> has_text(text@, "[integrity]"@) || has_text(
            text@,
            "[confidentiality]"@,
        )),
        lsm is None ==> !enabled,
        lsm matches Some(text) ==> (enabled <==> has_text(text@, "bpf"@)),
        begun is Ok <==> enabled,
        begun matches Ok(state) ==> state is Object,
        begun matches Err(err) ==> err is LSMNotEnabled,
{
}

/// A map that was there is taken; one that was not is named in the error; one of another kind is
/// told with the reason.
pub proof fn law_maps_are_taken_by_name(
    taken: TakenMap,
    exec: Result<(), CardwireEbpfError>,
    report: Result<(), CardwireEbpfError>,
    mode: Result<(), CardwireEbpfError>,
)
    requires
        call_ensures(EbpfBlocker::get_exec_ring, (taken,), exec),
        call_ensures(EbpfBlocker::get_report_ring, (taken,), report),
        call_ensures(EbpfBlocker::get_mode_map, (taken,), mode),
    ensures
        taken is Taken <==> exec is Ok,
        taken is Taken <==> report is Ok,
        taken is Taken <==> mode is Ok,
        taken matches TakenMap::Rejected(why) ==> exec == Err::<(), CardwireEbpfError>(
            CardwireEbpfError::Aya(why),
        ) && report == exec && mode == exec,
        taken is Missing ==> {
            &&& exec matches Err(CardwireEbpfError::MissingMap { name }) && name@
                == "CW_EXEC_EVENTS"@
            &&& report matches Err(CardwireEbpfError::MissingMap { name }) && name@
                == "CW_REPORT_EVENTS"@
            &&& mode matches Err(CardwireEbpfError::MissingMap { name }) && name@ == "CW_MODE"@
        },
{
}

/// The error that the kernel gave is told in words that hold its reason, and a missing program or
/// map in words that hold its name.
pub proof fn law_errors_tell_their_reason(err: CardwireEbpfError, message: String)
    requires
        call_ensures(CardwireEbpfError::message, (&err,), message),
    ensures
        err matches CardwireEbpfError::Aya(why) ==> message@ == why@,
        err matches CardwireEbpfError::EbpfLoadError(why) ==> ends_with(message@, why@),
        err matches CardwireEbpfError::MissingLsm { name } ==> ends_with(message@, name@),
        err matches CardwireEbpfError::MissingMap { name } ==> ends_with(message@, name@),
{
    match err {
        CardwireEbpfError::EbpfLoadError(why) => {
            let head = "failed to load the eBPF object: "@;
            assert((head + why@).skip(head.len() as int) =~= why@);
        },
        CardwireEbpfError::MissingLsm { name } => {
            let head = "missing eBPF program: "@;
            assert((head + name@).skip(head.len() as int) =~= name@);
        },
        CardwireEbpfError::MissingMap { name } => {
            let head = "missing eBPF map: "@;
            assert((head + name@).skip(head.len() as int) =~= name@);
        },
        _ => {},
    }
}

/// `text` ends with `end`.
pub open spec fn ends_with(text: Seq<char>, end: Seq<char>) -> bool {
    end.len() <= text.len() && text.skip(text.len() - end.len()) == end
}

/// What was just loaded has nothing on its list, and the writes of single entries name them.
pub proof fn law_writes_name_their_entry(
    blocker: EbpfBlocker,
    key: InodeKey,
    value: u32,
    pid: u32,
    setting: EbpfSettings,
    level: u8,
    shared: MapUpdate,
    gone: MapUpdate,
    daemon: MapUpdate,
    written: MapUpdate,
)
    requires
        call_ensures(EbpfBlocker::loaded, (), blocker),
        call_ensures(EbpfBlocker::block_exp_inode, (&blocker, key, value), shared),
        call_ensures(EbpfBlocker::remove_exp_inode, (&blocker, key), gone),
        call_ensures(EbpfBlocker::whitelist_cardwire_pid, (&blocker, pid), daemon),
        call_ensures(EbpfBlocker::set_ebpf_setting, (&blocker, setting, level), written),
    ensures
        blocker.pushed().len() == 0,
        shared matches MapUpdate::InsertExpInode { key: k, value: v } && k == key && v == value,
        gone matches MapUpdate::RemoveExpInode { key: k } && k == key,
        daemon matches MapUpdate::DaemonPid { pid: p } && p == pid,
        written matches MapUpdate::Setting { key: k, value: v } && k == EXP_NVIDIA && v == level,
{
}

/// A name is allowed under the key that it is turned into.
pub proof fn law_name_is_allowed_under_its_key(
    blocker: EbpfBlocker,
    comm: &str,
    key: [u8; 16],
    update: MapUpdate,
)
    requires
        call_ensures(EbpfBlocker::comm_to_key, (comm,), key),
        call_ensures(EbpfBlocker::allow_comm, (&blocker, comm), update),
    ensures
        update matches MapUpdate::AllowComm { comm: written } && written@ == key@,
{
}

} // verus!
