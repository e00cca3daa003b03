use cardwire::blocker::{EbpfBlocker, EbpfSettings, WriteStep};
use cardwire::errors::{CardwireEbpfError, FdoError, FdoResultExt};
use cardwire::keys::InodeKey;
use cardwire::maps::{LookupReply, MapReply, MapUpdate};
use std::collections::HashMap;

fn exp_key(i: u64) -> InodeKey {
    InodeKey::new("nvidiactl", i)
}

/// Performs writes until there is none left, or one is refused.
fn drive(
    blocker: &mut EbpfBlocker,
    map: &mut HashMap<InodeKey, u32>,
    mut next: impl FnMut(&EbpfBlocker, usize) -> Option<MapUpdate>,
    refuse_after: usize,
) -> Result<(), CardwireEbpfError> {
    let mut inserted = 0;
    let mut writes = 0;
    while let Some(update) = next(blocker, inserted) {
        let reply = if writes == refuse_after {
            MapReply::Failed("full".to_string())
        } else {
            match update {
                MapUpdate::InsertExpInode { key, value } => {
                    map.insert(key, value);
                    MapReply::Done
                }
                MapUpdate::RemoveExpInode { key } => match map.remove(&key) {
                    Some(_) => MapReply::Done,
                    None => MapReply::KeyNotFound,
                },
                _ => unreachable!(),
            }
        };
        writes += 1;
        EbpfBlocker::settle(&update, reply)?;
        blocker.confirm(&update);
        if matches!(update, MapUpdate::InsertExpInode { .. }) {
            inserted += 1;
        }
    }
    Ok(())
}

fn sync(
    blocker: &mut EbpfBlocker,
    map: &mut HashMap<InodeKey, u32>,
    keys: &Vec<InodeKey>,
    refuse_after: usize,
) -> Result<(), CardwireEbpfError> {
    drive(blocker, map, |b, inserted| b.sync_exp_inodes(keys, 1, inserted), refuse_after)
}

#[test]
fn sync_leaves_exactly_the_wanted_entries() {
    let mut blocker = EbpfBlocker::loaded();
    let mut map = HashMap::new();
    sync(&mut blocker, &mut map, &vec![exp_key(1), exp_key(2)], usize::MAX).unwrap();
    assert_eq!(map.len(), 2);
    sync(&mut blocker, &mut map, &vec![exp_key(2), exp_key(3)], usize::MAX).unwrap();
    assert_eq!(map.len(), 2);
    assert!(map.contains_key(&exp_key(2)) && map.contains_key(&exp_key(3)));
    assert!(map.values().all(|value| *value == 0));
}

#[test]
fn clear_empties_the_map() {
    let mut blocker = EbpfBlocker::loaded();
    let mut map = HashMap::new();
    sync(&mut blocker, &mut map, &vec![exp_key(1), exp_key(2), exp_key(3)], usize::MAX).unwrap();
    drive(&mut blocker, &mut map, |b, _| b.clear_exp_inodes(), usize::MAX).unwrap();
    assert!(map.is_empty());
    assert!(blocker.clear_exp_inodes().is_none());
}

#[test]
fn entries_stay_known_when_a_write_fails() {
    let mut blocker = EbpfBlocker::loaded();
    let mut map = HashMap::new();
    let outcome = sync(&mut blocker, &mut map, &vec![exp_key(1), exp_key(2)], 1);
    match outcome {
        Err(CardwireEbpfError::Aya(reason)) => assert_eq!(reason, "full"),
        other => panic!("{:?}", other),
    }
    assert_eq!(map.len(), 1);
    let outcome = drive(&mut blocker, &mut map, |b, _| b.clear_exp_inodes(), 0);
    assert!(outcome.is_err());
    assert!(blocker.clear_exp_inodes().is_some());
    drive(&mut blocker, &mut map, |b, _| b.clear_exp_inodes(), usize::MAX).unwrap();
    assert!(map.is_empty());
}

#[test]
fn removing_what_is_gone_is_no_error() {
    let mut blocker = EbpfBlocker::loaded();
    let mut map = HashMap::new();
    sync(&mut blocker, &mut map, &vec![exp_key(1)], usize::MAX).unwrap();
    map.clear();
    drive(&mut blocker, &mut map, |b, _| b.clear_exp_inodes(), usize::MAX).unwrap();
    assert!(blocker.clear_exp_inodes().is_none());
    let insert = blocker.block_inode(exp_key(1), 0);
    assert!(EbpfBlocker::settle(&insert, MapReply::KeyNotFound).is_err());
    let remove = blocker.remove_inode(exp_key(1));
    assert!(EbpfBlocker::settle(&remove, MapReply::KeyNotFound).is_ok());
}

#[test]
fn missing_maps_are_named() {
    let blocker = EbpfBlocker::loaded();
    let update = blocker.set_ebpf_setting(EbpfSettings::ExperimentalNvidia, 1);
    match EbpfBlocker::settle(&update, MapReply::MissingMap) {
        Err(CardwireEbpfError::MissingMap { name }) => assert_eq!(name, "CW_SETTINGS"),
        other => panic!("{:?}", other),
    }
    assert!(matches!(update, MapUpdate::Setting { key: 0, value: 1 }));
}

#[test]
fn lookups_tell_blocked_entries_of_a_gpu() {
    let blocker = EbpfBlocker::loaded();
    let state = |update: MapUpdate| match update {
        MapUpdate::InsertInode { state, .. } => state,
        other => panic!("{:?}", other),
    };
    let blocked = state(blocker.block_inode(exp_key(1), 2));
    let open = state(blocker.unblock_inode(exp_key(1), 2));
    assert!(EbpfBlocker::is_inode_blocked(LookupReply::Found(blocked), 2).unwrap());
    assert!(!EbpfBlocker::is_inode_blocked(LookupReply::Found(blocked), 3).unwrap());
    assert!(!EbpfBlocker::is_inode_blocked(LookupReply::Found(open), 2).unwrap());
    assert!(!EbpfBlocker::is_inode_blocked(LookupReply::KeyNotFound, 2).unwrap());
    assert!(EbpfBlocker::is_inode_blocked(LookupReply::MissingMap, 2).is_err());
    assert!(EbpfBlocker::is_inode_blocked(LookupReply::Failed("x".to_string()), 2).is_err());
}

#[test]
fn programs_and_daemon_are_let_through() {
    let blocker = EbpfBlocker::loaded();
    match blocker.allow_comm("systemd-udevd") {
        MapUpdate::AllowComm { comm } => assert_eq!(&comm, b"systemd-udevd\0\0\0"),
        other => panic!("{:?}", other),
    }
    assert!(matches!(blocker.whitelist_cardwire_pid(77), MapUpdate::DaemonPid { pid: 77 }));
}

#[test]
fn errors_are_put_in_words() {
    for (err, text) in [
        (CardwireEbpfError::LSMNotEnabled, "the BPF security module is not enabled"),
        (
            CardwireEbpfError::EbpfLoadError("bad".to_string()),
            "failed to load the eBPF object: bad",
        ),
        (CardwireEbpfError::missing_lsm("file_open"), "missing eBPF program: file_open"),
        (CardwireEbpfError::missing_map("CW_MODE"), "missing eBPF map: CW_MODE"),
        (CardwireEbpfError::aya("os error".to_string()), "os error"),
    ] {
        assert_eq!(err.message(), text);
        let result: Result<(), CardwireEbpfError> = Err(err);
        match result.into_fdo() {
            Err(FdoError::Failed(message)) => assert_eq!(message, text),
            other => panic!("{:?}", other),
        }
    }
    let result: Result<u8, String> = Ok(3);
    assert!(matches!(result.into_fdo(), Ok(3)));
    assert_eq!(FdoError::AccessDenied("no".to_string()).message(), "no");
}

#[test]
fn failed_write_ends_a_run_with_its_error() {
    let blocker = EbpfBlocker::loaded();
    let updates = vec![blocker.allow_comm("apt"), blocker.allow_comm("dnf")];
    assert!(matches!(
        EbpfBlocker::next_write(&updates, 0, Ok(())),
        WriteStep::Write(MapUpdate::AllowComm { comm }) if &comm[..4] == b"apt\0"
    ));
    assert!(matches!(
        EbpfBlocker::next_write(&updates, 1, Ok(())),
        WriteStep::Write(MapUpdate::AllowComm { comm }) if &comm[..4] == b"dnf\0"
    ));
    assert!(matches!(EbpfBlocker::next_write(&updates, 2, Ok(())), WriteStep::Done));
    match EbpfBlocker::next_write(&updates, 1, Err(CardwireEbpfError::missing_map("CW_X"))) {
        WriteStep::Failed(CardwireEbpfError::MissingMap { name }) => assert_eq!(name, "CW_X"),
        other => panic!("{:?}", other),
    }
}
