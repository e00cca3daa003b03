use cardwire::errors::{CardwireEbpfError, FdoError};
use cardwire::gpu::{
    BlockedProbes, GpuInterface, InodeSync, SetBlockState, SetBlockStep, SyncStep,
};
use cardwire::inode::{InodeProbes, LinkProbe};
use cardwire::keys::{InodeKey, InodeState};
use cardwire::maps::{LookupReply, MapUpdate};
use cardwire::pci::PciList;
use cardwire::types::{GpuDevice, GpuVendor, Modes, PciDevice};
use std::collections::HashMap;

fn nvidia_device() -> GpuDevice {
    GpuDevice {
        name: "RTX".to_string(),
        pci: PciDevice { pci_address: "0000:01:00.0".to_string(), parent_pci: None, details: String::new() },
        render: 129,
        card: 1,
        nvidia_minor: Some(0),
        vendor: GpuVendor::Nvidia,
        default: false,
        discrete: true,
        available: true,
    }
}

fn nvidia_gpu() -> GpuInterface {
    GpuInterface::build(1, nvidia_device(), vec!["DRI_PRIME=1".to_string()])
}

fn gpu_probes(card: u64) -> InodeProbes {
    InodeProbes {
        card: Ok(card),
        render: Ok(2),
        pci: vec![LinkProbe { target: Some(3), link: Some(4) }],
        drm: Ok(vec![]),
        hwmon: Err("none".to_string()),
        nvidia: Ok(5),
        backlight: Err("none".to_string()),
    }
}

fn write(map: &mut HashMap<InodeKey, InodeState>, update: MapUpdate) {
    match update {
        MapUpdate::InsertInode { key, state } => {
            map.insert(key, state);
        }
        MapUpdate::RemoveInode { key } => {
            map.remove(&key);
        }
        other => panic!("{:?}", other),
    }
}

/// Performs the first `limit` writes of a sync.
fn run(
    gpu: &mut GpuInterface,
    map: &mut HashMap<InodeKey, InodeState>,
    sync: &InodeSync,
    limit: usize,
) {
    let mut done = 0;
    while let SyncStep::Write(update) = gpu.sync_inodes(sync, done, Ok(())) {
        if done == limit {
            return;
        }
        write(map, update);
        done += 1;
    }
}

fn look(map: &HashMap<InodeKey, InodeState>, name: &str, ino: u64) -> Result<LookupReply, String> {
    Ok(match map.get(&InodeKey::new(name, ino)) {
        Some(state) => LookupReply::Found(*state),
        None => LookupReply::KeyNotFound,
    })
}

fn node_checks(map: &HashMap<InodeKey, InodeState>) -> BlockedProbes {
    BlockedProbes {
        card: look(map, "card1", 1),
        render: look(map, "renderD129", 2),
        pci: look(map, "0000:01:00.0", 3),
        nvidia: look(map, "nvidia0", 5),
    }
}

#[test]
fn blocked_gpu_reads_back_as_blocked() {
    let mut gpu = nvidia_gpu();
    let mut map = HashMap::new();
    assert!(!gpu.gpu_blocked(node_checks(&map)).unwrap());
    let keys = gpu.current_inodes(&PciList::new(), &gpu_probes(1)).unwrap();
    assert_eq!(keys.len(), 5);
    let sync = gpu.block_gpu(1, keys.clone());
    run(&mut gpu, &mut map, &sync, usize::MAX);
    assert!(gpu.block(node_checks(&map)).unwrap());
    assert_eq!(gpu.pushed_inodes(), keys);
    let sync = gpu.unblock_gpu(keys);
    run(&mut gpu, &mut map, &sync, usize::MAX);
    assert!(!gpu.gpu_blocked(node_checks(&map)).unwrap());
    assert_eq!(map.len(), 5);
    assert!(map.values().all(|state| state.gpu_id == 1 && state.blocked == 0));
}

#[test]
fn renumbered_entries_are_dropped() {
    let mut gpu = nvidia_gpu();
    let mut map = HashMap::new();
    map.insert(InodeKey::new("card0", 9), InodeState::new(0, false));
    let old = gpu.current_inodes(&PciList::new(), &gpu_probes(1)).unwrap();
    let sync = gpu.block_gpu(1, old);
    run(&mut gpu, &mut map, &sync, usize::MAX);
    let new = gpu.current_inodes(&PciList::new(), &gpu_probes(77)).unwrap();
    let sync = gpu.block_gpu(1, new);
    run(&mut gpu, &mut map, &sync, usize::MAX);
    assert!(!map.contains_key(&InodeKey::new("card1", 1)));
    assert!(map.contains_key(&InodeKey::new("card1", 77)));
    assert!(map.contains_key(&InodeKey::new("card0", 9)));
    assert_eq!(map.len(), 6);
}

#[test]
fn interrupted_sync_leaves_every_entry_on_record() {
    for limit in 0..8 {
        let mut gpu = nvidia_gpu();
        let mut map = HashMap::new();
        let old = gpu.current_inodes(&PciList::new(), &gpu_probes(1)).unwrap();
        let sync = gpu.block_gpu(1, old);
        run(&mut gpu, &mut map, &sync, usize::MAX);
        let new = gpu.current_inodes(&PciList::new(), &gpu_probes(77)).unwrap();
        let sync = gpu.block_gpu(1, new);
        run(&mut gpu, &mut map, &sync, limit);
        let record = gpu.pushed_inodes();
        assert!(map.keys().all(|key| record.contains(key)), "after {} writes", limit);
    }
}

#[test]
fn taken_entries_are_forgotten() {
    let mut gpu = nvidia_gpu();
    let mut map = HashMap::new();
    let keys = gpu.current_inodes(&PciList::new(), &gpu_probes(1)).unwrap();
    let sync = gpu.block_gpu(1, keys.clone());
    run(&mut gpu, &mut map, &sync, usize::MAX);
    assert_eq!(gpu.take_pushed_inodes(), keys);
    assert!(gpu.pushed_inodes().is_empty());
}

#[test]
fn unreadable_nodes_are_reported_in_order() {
    let gpu = nvidia_gpu();
    let map = HashMap::new();
    let mut probes = node_checks(&map);
    probes.pci = Err("pci".to_string());
    probes.render = Ok(LookupReply::Failed("render".to_string()));
    match gpu.gpu_blocked(probes) {
        Err(FdoError::Failed(text)) => assert_eq!(text, "render"),
        other => panic!("{:?}", other),
    }
    let mut probes = node_checks(&map);
    probes.card = Ok(LookupReply::MissingMap);
    match gpu.gpu_blocked(probes) {
        Err(FdoError::Failed(text)) => assert_eq!(text, "missing eBPF map: CW_BLOCKED_INO"),
        other => panic!("{:?}", other),
    }
}

#[test]
fn unreadable_nvidia_node_means_not_blocked() {
    let mut gpu = nvidia_gpu();
    let mut map = HashMap::new();
    let keys = gpu.current_inodes(&PciList::new(), &gpu_probes(1)).unwrap();
    let sync = gpu.block_gpu(1, keys);
    run(&mut gpu, &mut map, &sync, usize::MAX);
    let mut probes = node_checks(&map);
    probes.nvidia = Err("gone".to_string());
    assert!(!gpu.gpu_blocked(probes).unwrap());
    gpu.device.nvidia_minor = None;
    let mut probes = node_checks(&map);
    probes.nvidia = Err("gone".to_string());
    assert!(gpu.gpu_blocked(probes).unwrap());
}

#[test]
fn unreadable_entries_are_reported() {
    let gpu = nvidia_gpu();
    let mut probes = gpu_probes(1);
    probes.card = Err("no card".to_string());
    match gpu.current_inodes(&PciList::new(), &probes) {
        Err(FdoError::Failed(text)) => assert_eq!(text, "no card"),
        other => panic!("{:?}", other),
    }
}

fn refused(step: SetBlockStep) -> FdoError {
    match step {
        SetBlockStep::Refuse(err) => err,
        other => panic!("{:?}", other),
    }
}

#[test]
fn block_by_hand_is_refused_with_a_reason() {
    let mut gpu = nvidia_gpu();
    let err = refused(gpu.set_block(Modes::Hybrid, true, SetBlockState::Asked));
    assert!(matches!(err, FdoError::AccessDenied(_)));
    assert_eq!(err.message(), "Per GPU block is only available on manual mode");
    gpu.device.default = true;
    let err = refused(gpu.set_block(Modes::Manual, true, SetBlockState::Asked));
    assert_eq!(err.message(), "GPU RTX is the default device and cannot be blocked");
    assert!(matches!(
        gpu.set_block(Modes::Manual, false, SetBlockState::Asked),
        SetBlockStep::Sync { gpu_id: 1, blocked: false }
    ));
    gpu.device.available = false;
    let err = refused(gpu.set_block(Modes::Manual, false, SetBlockState::Asked));
    assert_eq!(err.message(), "GPU RTX is not available and cannot be blocked");
    let err = refused(gpu.set_block(Modes::Manual, true, SetBlockState::Probed(Some(true))));
    assert!(matches!(err, FdoError::AccessDenied(_)));
    assert_eq!(err.message(), "GPU RTX is active (monitor IN) and cannot be blocked");
    let err = refused(gpu.set_block(Modes::Manual, true, SetBlockState::Probed(None)));
    assert!(matches!(err, FdoError::Failed(_)));
    assert_eq!(err.message(), "could not probe display state of GPU RTX; refusing to block");
    let failure = SetBlockState::Synced(Err(FdoError::Failed("map".to_string())));
    assert_eq!(refused(gpu.set_block(Modes::Manual, true, failure)).message(), "map");
}

#[test]
fn block_by_hand_goes_step_by_step() {
    let gpu = nvidia_gpu();
    let step = |state| gpu.set_block(Modes::Manual, true, state);
    assert!(matches!(step(SetBlockState::Asked), SetBlockStep::ProbeDisplay { card: 1 }));
    assert!(matches!(
        step(SetBlockState::Probed(Some(false))),
        SetBlockStep::Sync { gpu_id: 1, blocked: true }
    ));
    assert!(matches!(
        step(SetBlockState::Synced(Ok(()))),
        SetBlockStep::SaveState { blocked: true }
    ));
    assert!(matches!(step(SetBlockState::Saved), SetBlockStep::SendUevent { card: 1 }));
    assert!(matches!(step(SetBlockState::Announced), SetBlockStep::RefreshSwitcheroo));
    assert!(matches!(step(SetBlockState::Refreshed), SetBlockStep::Done));
}

#[test]
fn users_are_listed_of_every_node() {
    let mut gpu = nvidia_gpu();
    assert_eq!(
        gpu.lsof(),
        ["/dev/dri/card1", "/dev/dri/renderD129", "/dev/nvidia0", "/dev/nvidiactl"]
    );
    gpu.device.nvidia_minor = None;
    assert_eq!(gpu.lsof(), ["/dev/dri/card1", "/dev/dri/renderD129"]);
}

#[test]
fn power_state_is_read_from_the_device() {
    let gpu = nvidia_gpu();
    assert_eq!(gpu.power_state_path(), "/sys/bus/pci/devices/0000:01:00.0/power_state");
    assert_eq!(gpu.power_state(Ok("D3cold\n".to_string())).unwrap(), "D3cold\n");
    let err = gpu.power_state(Err("not found".to_string())).unwrap_err();
    assert!(matches!(err, FdoError::IoError(_)));
    assert_eq!(err.message(), "error while trying to read RTX power_state: not found");
}

#[test]
fn launchable_gpus_are_open_or_smart() {
    let mut gpu = nvidia_gpu();
    assert!(gpu.launchable(&Ok(false), Modes::Hybrid));
    assert!(!gpu.launchable(&Ok(true), Modes::Integrated));
    assert!(gpu.launchable(&Ok(true), Modes::Smart));
    assert!(!gpu.launchable(&Err(FdoError::Failed("x".to_string())), Modes::Manual));
    gpu.device.available = false;
    assert!(!gpu.launchable(&Ok(false), Modes::Smart));
    assert_eq!(gpu.env(), ["DRI_PRIME=1"]);
    assert_eq!(gpu.get_device().name, "RTX");
}

#[test]
fn failed_write_ends_a_sync_with_its_error() {
    let mut gpu = nvidia_gpu();
    let keys = gpu.current_inodes(&PciList::new(), &gpu_probes(1)).unwrap();
    let sync = gpu.block_gpu(1, keys.clone());
    assert!(matches!(gpu.sync_inodes(&sync, 0, Ok(())), SyncStep::Write(_)));
    let failure = Err(CardwireEbpfError::aya("full".to_string()));
    match gpu.sync_inodes(&sync, 1, failure) {
        SyncStep::Failed(FdoError::Failed(text)) => assert_eq!(text, "full"),
        other => panic!("{:?}", other),
    }
    assert_eq!(gpu.pushed_inodes(), keys);
    assert!(gpu.has_pushed(&keys[0]));
    assert_eq!(gpu.get_id(), 1);
    assert!(matches!(gpu.sync_inodes(&sync, keys.len(), Ok(())), SyncStep::Done));
}
