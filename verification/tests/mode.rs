use cardwire::errors::FdoError;
use cardwire::gpu::GpuInterface;
use cardwire::mode::{ModeAction, ModeFollowUp, ModeInterface, ModeStep};
use cardwire::state::CardwireGpuState;
use cardwire::types::{GpuDevice, GpuVendor, Modes, PciDevice, SystemType};
use std::collections::BTreeMap;

fn plain_device(id: usize, default: bool, discrete: bool, available: bool) -> GpuDevice {
    GpuDevice {
        name: format!("gpu{}", id),
        pci: PciDevice { pci_address: format!("0000:0{}:00.0", id), parent_pci: None, details: String::new() },
        render: 128 + id as u32,
        card: id as u32,
        nvidia_minor: None,
        vendor: GpuVendor::Other,
        default,
        discrete,
        available,
    }
}

fn gpus(kinds: &[(bool, bool, bool)]) -> BTreeMap<usize, GpuInterface> {
    kinds
        .iter()
        .enumerate()
        .map(|(id, kind)| {
            let device = plain_device(id, kind.0, kind.1, kind.2);
            (id, GpuInterface::build(id as u32, device, vec![]))
        })
        .collect()
}

fn laptop() -> BTreeMap<usize, GpuInterface> {
    gpus(&[(true, false, true), (false, true, true)])
}

fn desktop() -> BTreeMap<usize, GpuInterface> {
    gpus(&[(false, false, true), (true, true, true)])
}

fn interface_with(blocked: &[usize], auto_apply: bool) -> ModeInterface {
    let mut state = CardwireGpuState::new();
    for id in blocked {
        state.save_state(&format!("0000:0{}:00.0", id), true);
    }
    ModeInterface::build(Modes::Hybrid, state, auto_apply)
}

/// Syncs as (id, number, blocked), and the mode that is written last.
fn planned(
    int: &ModeInterface,
    list: &BTreeMap<usize, GpuInterface>,
    mode: Modes,
) -> (Vec<(usize, u32, bool)>, u8) {
    let mut plan = int.apply_mode(list, mode).unwrap();
    let last = match plan.pop() {
        Some(ModeAction::WriteMode { mode }) => mode,
        other => panic!("{:?}", other),
    };
    let syncs = plan
        .into_iter()
        .map(|action| match action {
            ModeAction::Sync { id, gpu_id, blocked } => (id, gpu_id, blocked),
            other => panic!("{:?}", other),
        })
        .collect();
    (syncs, last)
}

#[test]
fn systems_are_told_by_their_gpus() {
    let kind = |kinds: &[(bool, bool, bool)]| {
        let devices: BTreeMap<usize, GpuDevice> = kinds
            .iter()
            .enumerate()
            .map(|(id, kind)| (id, plain_device(id, kind.0, kind.1, kind.2)))
            .collect();
        assert_eq!(SystemType::from_gpulist(&devices), SystemType::from_interfaces(&gpus(kinds)));
        SystemType::from_gpulist(&devices)
    };
    assert_eq!(kind(&[(true, false, true), (false, true, true)]), SystemType::Laptop);
    assert_eq!(kind(&[(true, true, true), (false, false, true)]), SystemType::Desktop);
    assert_eq!(kind(&[(true, true, true)]), SystemType::Manual);
    assert_eq!(kind(&[]), SystemType::Manual);
    assert_eq!(kind(&[(true, true, true), (false, true, true)]), SystemType::Manual);
    assert_eq!(
        kind(&[(true, false, true), (false, true, true), (false, true, true)]),
        SystemType::Manual
    );
    assert_eq!(
        kind(&[(true, false, true), (false, true, true), (false, true, false)]),
        SystemType::Laptop
    );
}

#[test]
fn offered_modes_are_the_ones_that_apply() {
    for list in [laptop(), desktop(), gpus(&[]), gpus(&[(true, true, true)])] {
        let offered = ModeInterface::available_modes(&list);
        for mode in [Modes::Integrated, Modes::Hybrid, Modes::Manual, Modes::Smart] {
            let applies = interface_with(&[], false).apply_mode(&list, mode).is_ok();
            assert_eq!(applies, offered.contains(&mode));
        }
    }
    assert_eq!(
        ModeInterface::available_modes(&laptop()),
        [Modes::Integrated, Modes::Hybrid, Modes::Smart]
    );
    assert_eq!(ModeInterface::available_modes(&desktop()), [Modes::Hybrid, Modes::Manual]);
}

#[test]
fn refused_modes_say_why() {
    let int = interface_with(&[], false);
    match int.apply_mode(&desktop(), Modes::Smart) {
        Err(FdoError::NotSupported(text)) => assert_eq!(
            text,
            "Couldn't set mode to Smart, Integrated and Smart modes require a offload discrete GPU (not supported on desktops where the discrete GPU is the primary display)"
        ),
        other => panic!("{:?}", other),
    }
    match int.apply_mode(&laptop(), Modes::Manual) {
        Err(FdoError::NotSupported(text)) => assert_eq!(
            text,
            "Couldn't set mode to Manual, Manual mode is only available on Desktop or system with either 1 GPU or 3+ GPUs"
        ),
        other => panic!("{:?}", other),
    }
}

#[test]
fn integrated_mode_blocks_the_offload_gpu() {
    let int = interface_with(&[], false);
    assert_eq!(planned(&int, &laptop(), Modes::Integrated), (vec![(1, 1, true)], 0));
}

#[test]
fn smart_mode_also_tracks_the_integrated_gpu() {
    let int = interface_with(&[], false);
    assert_eq!(
        planned(&int, &laptop(), Modes::Smart),
        (vec![(0, 0, false), (1, 1, true)], 3)
    );
}

#[test]
fn hybrid_mode_unblocks_every_gpu_that_can_be_used() {
    let int = interface_with(&[0, 1], true);
    let list = gpus(&[(true, false, true), (false, true, true), (false, true, false)]);
    assert_eq!(
        planned(&int, &list, Modes::Hybrid),
        (vec![(0, 0, false), (1, 1, false)], 1)
    );
}

#[test]
fn manual_mode_applies_what_was_chosen_by_hand() {
    let list = gpus(&[(false, false, true), (true, true, true), (false, true, true)]);
    let int = interface_with(&[0, 1], true);
    assert_eq!(
        planned(&int, &list, Modes::Manual),
        (vec![(0, 0, true), (1, 1, false), (2, 2, false)], 2)
    );
    let int = interface_with(&[0, 1], false);
    assert_eq!(
        planned(&int, &list, Modes::Manual),
        (vec![(0, 0, false), (1, 1, false), (2, 2, false)], 2)
    );
}

#[test]
fn choices_by_hand_are_overwritten() {
    let mut state = CardwireGpuState::new();
    assert!(state.is_default_state());
    assert!(!state.gpu_block_state("0000:00:00.0"));
    state.save_state("0000:00:00.0", true);
    assert!(state.gpu_block_state("0000:00:00.0"));
    assert!(!state.is_default_state());
    state.save_state("0000:00:00.0", false);
    assert!(!state.gpu_block_state("0000:00:00.0"));
    assert!(!state.is_default_state());
}

#[test]
fn applied_modes_are_followed_up() {
    let mut int = interface_with(&[], false);
    let list = gpus(&[(true, false, true), (false, true, true), (false, true, false)]);
    let steps = int.internal_set_mode(&list, Modes::Integrated, true, Ok(())).unwrap();
    assert_eq!(int.mode(), 0);
    assert_eq!(steps.len(), 8);
    assert!(matches!(steps[0], ModeFollowUp::SaveState { mode: Modes::Integrated, save: true }));
    assert!(matches!(steps[1], ModeFollowUp::EmitModeChanged));
    assert!(matches!(steps[2], ModeFollowUp::EmitBlockChanged { id: 0 }));
    assert!(matches!(steps[3], ModeFollowUp::SendUevent { card: 0 }));
    assert!(matches!(steps[4], ModeFollowUp::EmitBlockChanged { id: 1 }));
    assert!(matches!(steps[5], ModeFollowUp::SendUevent { card: 1 }));
    assert!(matches!(steps[6], ModeFollowUp::RefreshSwitcheroo));
    assert!(matches!(steps[7], ModeFollowUp::StopPowerd));
    for (mode, starts) in [
        (Modes::Hybrid, true),
        (Modes::Manual, true),
        (Modes::Integrated, false),
        (Modes::Smart, false),
    ] {
        let steps = int.internal_set_mode(&list, mode, false, Ok(())).unwrap();
        assert_eq!(matches!(steps.last(), Some(ModeFollowUp::StartPowerd)), starts);
        assert_eq!(matches!(steps.last(), Some(ModeFollowUp::StopPowerd)), !starts);
    }
}

#[test]
fn modes_that_fail_change_nothing() {
    let mut int = interface_with(&[], false);
    let failure = Err(FdoError::Failed("map".to_string()));
    let outcome = int.internal_set_mode(&laptop(), Modes::Integrated, true, failure);
    assert_eq!(outcome.unwrap_err().message(), "map");
    assert_eq!(int.mode(), 1);
}

#[test]
fn requests_name_a_mode_by_number() {
    for number in 0..4 {
        let (mode, save) = ModeInterface::set_mode(number).unwrap();
        assert_eq!(mode.to_u32(), number);
        assert!(save);
    }
    assert!(matches!(ModeInterface::set_mode(4), Err(FdoError::InvalidArgs(_))));
    assert_eq!(Modes::from_u32(2), Some(Modes::Manual));
    assert_eq!(Modes::Integrated.name(), "Integrated");
}

#[test]
fn plans_end_with_the_first_error() {
    let plan = interface_with(&[], false).apply_mode(&laptop(), Modes::Integrated).unwrap();
    assert!(matches!(
        ModeInterface::apply_step(&plan, 0, Ok(())),
        ModeStep::Perform(ModeAction::Sync { id: 1, gpu_id: 1, blocked: true })
    ));
    assert!(matches!(
        ModeInterface::apply_step(&plan, 1, Ok(())),
        ModeStep::Perform(ModeAction::WriteMode { mode: 0 })
    ));
    assert!(matches!(
        ModeInterface::apply_step(&plan, 2, Ok(())),
        ModeStep::Finished(Ok(()))
    ));
    match ModeInterface::apply_step(&plan, 1, Err(FdoError::Failed("map".to_string()))) {
        ModeStep::Finished(Err(FdoError::Failed(text))) => assert_eq!(text, "map"),
        other => panic!("{:?}", other),
    }
}
