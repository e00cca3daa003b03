use cardwire::blocker::EbpfBlocker;
use cardwire::manager::{
    BuildStage, BuildStep, DaemonConfig, DaemonManager, StartupState, StartupStep,
};
use cardwire::maps::MapUpdate;
use cardwire::pci::PciList;
use cardwire::state::CardwireGpuState;
use cardwire::types::{GpuDevice, GpuVendor, Modes, PciDevice};
use std::collections::BTreeMap;

fn started(mode: Modes, experimental_nvidia_block: bool) -> DaemonManager {
    let mut devices = BTreeMap::new();
    devices.insert(
        0,
        GpuDevice {
            name: "gpu".to_string(),
            pci: PciDevice { pci_address: "0000:00:02.0".to_string(), parent_pci: None, details: String::new() },
            render: 128,
            card: 0,
            nvidia_minor: None,
            vendor: GpuVendor::Other,
            default: true,
            discrete: false,
            available: true,
        },
    );
    let config = DaemonConfig { auto_apply_gpu_state: true, experimental_nvidia_block };
    DaemonManager::new(
        mode,
        config,
        CardwireGpuState::new(),
        PciList::new(),
        devices,
        vec![vec!["DRI_PRIME=0".to_string()]],
        EbpfBlocker::loaded(),
    )
}

#[test]
fn daemon_is_put_together_in_order() {
    let mut stage = BuildStage::ModeState;
    let mut seen = vec![stage];
    loop {
        match DaemonManager::build_step(stage, Ok(())) {
            BuildStep::Next(next) => {
                stage = next;
                seen.push(stage);
            }
            BuildStep::Ready => break,
            other => panic!("{:?}", other),
        }
    }
    assert_eq!(
        seen,
        [
            BuildStage::ModeState,
            BuildStage::Config,
            BuildStage::GpuState,
            BuildStage::PciDevices,
            BuildStage::Blocker,
            BuildStage::Database,
            BuildStage::ModeMap,
        ]
    );
}

#[test]
fn failed_stages_say_what_was_being_done() {
    let failed = |stage| match DaemonManager::build_step(stage, Err("no".to_string())) {
        BuildStep::Failed(err) => (err.context, err.cause),
        other => panic!("{:?}", other),
    };
    let no = "no".to_string();
    assert_eq!(
        failed(BuildStage::ModeState),
        (Some("Error building mode".to_string()), no.clone())
    );
    assert_eq!(
        failed(BuildStage::Config),
        (Some("Error building toml config".to_string()), no.clone())
    );
    assert_eq!(failed(BuildStage::Blocker), (None, no));
}

#[test]
fn new_daemon_holds_what_was_read() {
    let manager = started(Modes::Smart, false);
    assert_eq!(manager.mode_interface.mode(), 3);
    assert!(manager.mode_interface.auto_apply_gpu_state);
    assert!(!manager.debug_interface.served);
    assert_eq!(manager.gpu_list[&0].env(), ["DRI_PRIME=0"]);
    assert!(manager.blocker.clear_exp_inodes().is_none());
}

#[test]
fn tasks_come_in_order() {
    let next = DaemonManager::pre_daemon_tasks;
    assert!(matches!(next(StartupState::Begun), StartupStep::WhitelistPid));
    assert!(matches!(
        next(StartupState::PidWhitelisted(Ok(()))),
        StartupStep::SetNvidiaSetting
    ));
    assert!(matches!(next(StartupState::SettingWritten(Ok(()))), StartupStep::SyncNvidia));
    assert!(matches!(next(StartupState::NvidiaSynced(Ok(()))), StartupStep::WhitelistPrograms));
    assert!(matches!(
        next(StartupState::ProgramsWhitelisted(Ok(()))),
        StartupStep::PopulateState
    ));
    assert!(matches!(
        next(StartupState::StatePopulated(Ok(()))),
        StartupStep::ApplyMode { mode_arg: None }
    ));
    assert!(matches!(next(StartupState::ModeApplied(Ok(()))), StartupStep::Ready));
}

#[test]
fn start_falls_back_to_hybrid() {
    let next = DaemonManager::pre_daemon_tasks;
    let no = || Err("no".to_string());
    assert!(matches!(
        next(StartupState::ModeApplied(no())),
        StartupStep::ApplyMode { mode_arg: Some(1) }
    ));
    assert!(matches!(next(StartupState::FellBack(Ok(()))), StartupStep::Ready));
    assert!(matches!(next(StartupState::FellBack(no())), StartupStep::Fail(_)));
}

#[test]
fn other_failures_end_the_start() {
    let fail = |state| match DaemonManager::pre_daemon_tasks(state) {
        StartupStep::Fail(err) => (err.context, err.cause),
        other => panic!("{:?}", other),
    };
    let no = || Err("no".to_string());
    for state in [
        StartupState::PidWhitelisted(no()),
        StartupState::SettingWritten(no()),
        StartupState::ProgramsWhitelisted(no()),
        StartupState::StatePopulated(no()),
    ] {
        assert_eq!(fail(state), (None, "no".to_string()));
    }
    assert_eq!(
        fail(StartupState::NvidiaSynced(no())),
        (Some("failed to prime the experimental nvidia block".to_string()), "no".to_string())
    );
}

#[test]
fn startup_modes_are_saved_only_as_a_fallback() {
    let manager = started(Modes::Smart, false);
    assert_eq!(manager.apply_mode_at_startup(None), Ok((Modes::Smart, false)));
    assert_eq!(manager.apply_mode_at_startup(Some(1)), Ok((Modes::Hybrid, true)));
    assert_eq!(manager.apply_mode_at_startup(Some(4)), Err("invalid mode".to_string()));
}

#[test]
fn startup_writes_are_those_of_the_daemon() {
    let manager = started(Modes::Hybrid, true);
    assert!(matches!(manager.whitelist_daemon_pid(9), MapUpdate::DaemonPid { pid: 9 }));
    assert!(matches!(manager.set_nvidia_setting(), MapUpdate::Setting { key: 0, value: 1 }));
    assert!(matches!(
        started(Modes::Hybrid, false).set_nvidia_setting(),
        MapUpdate::Setting { key: 0, value: 0 }
    ));
    let names: Vec<String> = manager
        .whitelist_programs()
        .into_iter()
        .map(|update| match update {
            MapUpdate::AllowComm { comm } => {
                String::from_utf8(comm.to_vec()).unwrap().trim_end_matches('\0').to_string()
            }
            other => panic!("{:?}", other),
        })
        .collect();
    assert_eq!(
        names,
        ["(udev-worker)", "systemd-udevd", "pacman", "dnf", "apt", "nix", "nix-daemon"]
    );
}

#[test]
fn first_start_records_every_gpu_as_open() {
    let mut manager = started(Modes::Hybrid, false);
    assert!(manager.populate_state_file());
    assert!(!manager.mode_interface.gpu_state.is_default_state());
    assert!(!manager.mode_interface.gpu_state.gpu_block_state("0000:00:02.0"));
    manager.mode_interface.gpu_state.save_state("0000:00:02.0", true);
    assert!(!manager.populate_state_file());
    assert!(manager.mode_interface.gpu_state.gpu_block_state("0000:00:02.0"));
}
