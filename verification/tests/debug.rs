use cardwire::blocker::EbpfBlocker;
use cardwire::debug::{
    DebugInterface, NvidiaPlan, NvidiaRun, NvidiaStep, RefreshState, RefreshStep,
};
use cardwire::errors::{CardwireEbpfError, FdoError};
use cardwire::gpu::{GpuInterface, SyncStep};
use cardwire::keys::InodeKey;
use cardwire::maps::MapUpdate;
use cardwire::pci::PciList;
use cardwire::roster::{build_interfaces, env_requests, gpu_path, retire_all, serve_all};
use cardwire::types::{GpuDevice, GpuVendor, Modes, PciDevice};
use std::collections::BTreeMap;

fn vendor_device(vendor: GpuVendor, default: bool, available: bool) -> GpuDevice {
    GpuDevice {
        name: "gpu".to_string(),
        pci: PciDevice { pci_address: "0000:01:00.0".to_string(), parent_pci: None, details: String::new() },
        render: 128,
        card: 0,
        nvidia_minor: None,
        vendor,
        default,
        discrete: true,
        available,
    }
}

fn served(kinds: &[(usize, GpuVendor, bool)]) -> BTreeMap<usize, GpuInterface> {
    kinds
        .iter()
        .map(|(id, vendor, default)| {
            (*id, GpuInterface::build(*id as u32, vendor_device(*vendor, *default, true), vec![]))
        })
        .collect()
}

fn one_device(parent: Option<&str>) -> PciList {
    let mut list = PciList::new();
    list.insert(
        "0000:01:00.0".to_string(),
        PciDevice {
            pci_address: "0000:01:00.0".to_string(),
            parent_pci: parent.map(|parent| parent.to_string()),
            details: String::new(),
        },
    );
    list
}

/// Writes entries of a GPU.
fn push(gpu: &mut GpuInterface, keys: Vec<InodeKey>) {
    let sync = gpu.unblock_gpu(keys);
    let mut done = 0;
    while let SyncStep::Write(_) = gpu.sync_inodes(&sync, done, Ok(())) {
        done += 1;
    }
}

#[test]
fn nvidia_files_are_blocked_for_the_first_offload_gpu() {
    let keys = vec![InodeKey::new("nvidiactl", 1)];
    let list = served(&[
        (0, GpuVendor::Nvidia, true),
        (2, GpuVendor::Other, false),
        (5, GpuVendor::Nvidia, false),
        (6, GpuVendor::Nvidia, false),
    ]);
    assert!(matches!(DebugInterface::sync_nvidia_inodes(&list, None), NvidiaPlan::ReadInodes));
    assert!(matches!(
        DebugInterface::sync_nvidia_inodes(&list, Some(Err("x".to_string()))),
        NvidiaPlan::LeaveAsIs
    ));
    let plan = DebugInterface::sync_nvidia_inodes(&list, Some(Ok(keys.clone())));
    assert!(matches!(plan, NvidiaPlan::Sync { gpu_id: 5, .. }));
    let mut run = NvidiaRun::new(plan);
    let mut blocker = EbpfBlocker::loaded();
    match run.next_step(&mut blocker, Ok(())) {
        NvidiaStep::Write(MapUpdate::InsertExpInode { key, value }) => {
            assert_eq!((key, value), (keys[0], 0))
        }
        other => panic!("{:?}", other),
    }
    assert!(blocker.clear_exp_inodes().is_none());
    assert!(matches!(run.next_step(&mut blocker, Ok(())), NvidiaStep::Done));
    assert!(blocker.clear_exp_inodes().is_some());
}

#[test]
fn unreadable_nvidia_files_change_nothing() {
    let mut blocker = EbpfBlocker::loaded();
    let mut run = NvidiaRun::new(NvidiaPlan::LeaveAsIs);
    assert!(matches!(run.next_step(&mut blocker, Ok(())), NvidiaStep::Done));
}

#[test]
fn failed_write_ends_the_nvidia_plan() {
    let keys = vec![InodeKey::new("nvidiactl", 1), InodeKey::new("nvidia_icd.json", 2)];
    let list = served(&[(1, GpuVendor::Nvidia, false)]);
    let mut run = NvidiaRun::new(DebugInterface::sync_nvidia_inodes(&list, Some(Ok(keys.clone()))));
    let mut blocker = EbpfBlocker::loaded();
    assert!(matches!(run.next_step(&mut blocker, Ok(())), NvidiaStep::Write(_)));
    assert!(matches!(
        run.next_step(&mut blocker, Ok(())),
        NvidiaStep::Write(MapUpdate::InsertExpInode { key, value: 0 }) if key == keys[1]
    ));
    match run.next_step(&mut blocker, Err(CardwireEbpfError::aya("full".to_string()))) {
        NvidiaStep::Failed(text) => {
            assert_eq!(text, "failed to write the CW_EXP_BLK_INO map: full")
        }
        other => panic!("{:?}", other),
    }
    assert!(matches!(
        blocker.clear_exp_inodes(),
        Some(MapUpdate::RemoveExpInode { key }) if key == keys[0]
    ));
}

#[test]
fn nvidia_files_are_opened_without_an_offload_gpu() {
    let list = served(&[(0, GpuVendor::Nvidia, true), (1, GpuVendor::Other, false)]);
    let plan = DebugInterface::sync_nvidia_inodes(&list, None);
    assert!(matches!(plan, NvidiaPlan::Clear));
    let mut run = NvidiaRun::new(plan);
    let mut blocker = EbpfBlocker::loaded();
    let key = InodeKey::new("nvidiactl", 1);
    blocker.confirm(&MapUpdate::InsertExpInode { key, value: 0 });
    assert!(matches!(
        run.next_step(&mut blocker, Ok(())),
        NvidiaStep::Write(MapUpdate::RemoveExpInode { key: k }) if k == key
    ));
    assert!(matches!(run.next_step(&mut blocker, Ok(())), NvidiaStep::Done));
    assert!(blocker.clear_exp_inodes().is_none());
}

#[test]
fn entries_without_a_gpu_are_dropped() {
    let mut list = served(&[(0, GpuVendor::Other, true), (1, GpuVendor::Other, false)]);
    let keep = InodeKey::new("card0", 1);
    let gone = InodeKey::new("card1", 2);
    push(list.get_mut(&0).unwrap(), vec![keep]);
    let updates = DebugInterface::drop_unclaimed_inodes(&list, &vec![gone, keep]);
    assert_eq!(updates.len(), 1);
    assert!(matches!(updates[0], MapUpdate::RemoveInode { key } if key == gone));
}

#[test]
fn failed_drops_are_passed_over() {
    let list = served(&[]);
    let gone = vec![InodeKey::new("card1", 2), InodeKey::new("card2", 3)];
    let updates = DebugInterface::drop_unclaimed_inodes(&list, &gone);
    assert!(matches!(
        DebugInterface::next_drop(&updates, 0, &Ok(())),
        Some(MapUpdate::RemoveInode { key }) if key == gone[0]
    ));
    let failure = Err(CardwireEbpfError::aya("busy".to_string()));
    assert!(matches!(
        DebugInterface::next_drop(&updates, 1, &failure),
        Some(MapUpdate::RemoveInode { key }) if key == gone[1]
    ));
    assert!(DebugInterface::next_drop(&updates, 2, &failure).is_none());
}

#[test]
fn unchanged_devices_are_left_alone() {
    let mut debug = DebugInterface::build(one_device(None), true);
    assert!(!debug.note_devices(Ok(one_device(None))).unwrap());
    assert!(debug.note_devices(Ok(PciList::new())).unwrap());
    assert_eq!(debug.pci_list.len(), 0);
    assert!(debug.note_devices(Ok(one_device(Some("0000:00:01.0")))).unwrap());
    let mut rebound = one_device(None);
    rebound.insert(
        "0000:01:00.0".to_string(),
        PciDevice {
            pci_address: "0000:01:00.0".to_string(),
            parent_pci: Some("0000:00:01.0".to_string()),
            details: "driver=vfio-pci".to_string(),
        },
    );
    assert!(debug.note_devices(Ok(rebound)).unwrap());
    match debug.note_devices(Err("no bus".to_string())) {
        Err(FdoError::Failed(text)) => assert_eq!(text, "no bus"),
        other => panic!("{:?}", other),
    }
    let mut unserved = DebugInterface::build(one_device(None), false);
    assert!(!unserved.note_devices(Ok(PciList::new())).unwrap());
    assert_eq!(unserved.pci_list.len(), 1);
}

#[test]
fn devices_are_told_with_their_identifiers() {
    let debug = DebugInterface::build(one_device(Some("0000:00:01.0")), true);
    let records = debug.get_pci_devices();
    assert_eq!(records.len(), 1);
    assert_eq!(records[0].id, "0000:01:00.0");
    assert_eq!(records[0].device.parent_pci, Some("0000:00:01.0".to_string()));
}

#[test]
fn devices_are_told_in_the_order_of_their_identifiers() {
    let mut list = PciList::new();
    for id in ["0000:65:00.0", "0000:00:02.0", "0000:01:00.1", "0000:01:00.0", "0000:01:00"] {
        let pci_address = id.to_string();
        let device = PciDevice { pci_address, parent_pci: None, details: String::new() };
        list.insert(id.to_string(), device);
    }
    let ids = ["0000:00:02.0", "0000:01:00", "0000:01:00.0", "0000:01:00.1", "0000:65:00.0"];
    assert_eq!(list.ids(), ids);
    let records = DebugInterface::build(list, true).get_pci_devices();
    assert_eq!(records.into_iter().map(|record| record.id).collect::<Vec<String>>(), ids);
}

#[test]
fn refresh_goes_step_by_step() {
    let step = DebugInterface::refresh_gpu;
    assert!(matches!(step(RefreshState::Read(Ok(false))), RefreshStep::Done));
    assert!(matches!(step(RefreshState::Read(Ok(true))), RefreshStep::Retire));
    assert!(matches!(step(RefreshState::Retired), RefreshStep::Rebuild));
    assert!(matches!(step(RefreshState::Rebuilt), RefreshStep::Serve));
    assert!(matches!(step(RefreshState::Served(Ok(()))), RefreshStep::ReadMode));
    assert!(matches!(
        step(RefreshState::ModeRead(Ok(Modes::Smart))),
        RefreshStep::SetMode { mode: Modes::Smart, save: false }
    ));
    assert!(matches!(step(RefreshState::ModeSet(Ok(()))), RefreshStep::DropUnclaimed));
    assert!(matches!(step(RefreshState::Dropped), RefreshStep::SyncNvidia));
    assert!(matches!(
        step(RefreshState::NvidiaSynced(Err("x".to_string()))),
        RefreshStep::EmitGpuList
    ));
    assert!(matches!(step(RefreshState::Emitted), RefreshStep::Done));
}

#[test]
fn refresh_falls_back_to_hybrid() {
    let step = DebugInterface::refresh_gpu;
    let failed = || FdoError::Failed("x".to_string());
    assert!(matches!(
        step(RefreshState::ModeRead(Err("no file".to_string()))),
        RefreshStep::SetMode { mode: Modes::Hybrid, save: false }
    ));
    assert!(matches!(
        step(RefreshState::ModeSet(Err(failed()))),
        RefreshStep::FallBack { mode: Modes::Hybrid, save: false }
    ));
    assert!(matches!(step(RefreshState::FellBack(Err(failed()))), RefreshStep::DropUnclaimed));
    assert!(matches!(step(RefreshState::Read(Err(failed()))), RefreshStep::Fail(_)));
    assert!(matches!(step(RefreshState::Served(Err(failed()))), RefreshStep::Fail(_)));
}

#[test]
fn environments_are_asked_for_in_order() {
    let mut devices = BTreeMap::new();
    devices.insert(3, vendor_device(GpuVendor::Nvidia, false, true));
    devices.insert(1, vendor_device(GpuVendor::Other, true, true));
    devices.insert(7, vendor_device(GpuVendor::Other, false, false));
    let requests = env_requests(&devices);
    assert_eq!(requests.iter().map(|r| r.id).collect::<Vec<u32>>(), [1, 3, 7]);
    assert!(requests.iter().all(|r| r.gpu_count == 2 && r.discrete));
    assert!(requests[0].default && !requests[1].default);
    assert_eq!(requests[1].vendor, GpuVendor::Nvidia);
    assert_eq!(requests[1].pci_address, "0000:01:00.0");
    let list = build_interfaces(
        devices,
        vec![vec!["a".to_string()], vec!["b".to_string()], vec![]],
    );
    assert_eq!(list.keys().copied().collect::<Vec<usize>>(), [1, 3, 7]);
    assert_eq!((list[&3].id, list[&3].env()), (3, vec!["b".to_string()]));
    assert!(list[&3].pushed_inodes().is_empty());
}

#[test]
fn gpus_are_served_and_retired_by_path() {
    assert_eq!(gpu_path(12), "/org/opengamingcollective/cardwire/Gpu/12");
    let mut list = served(&[(0, GpuVendor::Other, true), (2, GpuVendor::Other, false)]);
    list.get_mut(&2).unwrap().device.available = false;
    push(list.get_mut(&0).unwrap(), vec![InodeKey::new("card0", 1)]);
    push(list.get_mut(&2).unwrap(), vec![InodeKey::new("card1", 2)]);
    let plan = serve_all(&list);
    assert_eq!(plan.len(), 2);
    assert_eq!((plan[0].id, plan[0].watch), (0, true));
    assert_eq!((plan[1].id, plan[1].watch), (2, false));
    assert_eq!(plan[1].path, "/org/opengamingcollective/cardwire/Gpu/2");
    let retired = retire_all(&mut list);
    assert!(list.is_empty());
    assert_eq!(retired.ids, [0, 2]);
    assert_eq!(
        retired.paths,
        ["/org/opengamingcollective/cardwire/Gpu/0", "/org/opengamingcollective/cardwire/Gpu/2"]
    );
    assert_eq!(retired.inodes, [InodeKey::new("card0", 1), InodeKey::new("card1", 2)]);
}
