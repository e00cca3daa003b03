//! What holds of a start of the daemon.
use crate::blocker::EbpfBlocker;
use crate::debug::DebugInterface;
use crate::errors::FdoError;
use crate::gpu::GpuInterface;
use crate::helpers::EXP_NVIDIA;
use crate::manager::{
    answers_task, recorded_open, BuildStage, BuildStep, DaemonConfig,
    DaemonManager, StartupState, StartupStep,
};
use crate::keys::{padded, COMM_LEN};
use crate::maps::MapUpdate;
use crate::mode::{ModeAction, ModeInterface};
use crate::mode_laws::law_manual_writes_every_available_gpu;
use crate::order::{in_order, lemma_in_order};
use crate::pci::PciList;
use crate::state::CardwireGpuState;
use crate::types::{GpuDevice, Modes};
use std::collections::BTreeMap;
use vstd::prelude::*;
use vstd::string::StringSliceAdditionalSpecFns;

verus! {

/// A GPU of the list has this PCI address.
pub open spec fn is_listed(list: Map<usize, GpuInterface>, address: Seq<char>) -> bool {
    exists|id: usize| #[trigger]
        list.contains_key(id) && list[id].hardware().pci.pci_address@ == address
}

/// What was recorded, and besides the addresses of these GPUs, as not blocked.
proof fn lemma_recorded_open(
    state: Map<Seq<char>, bool>,
    list: Map<usize, GpuInterface>,
    ids: Seq<usize>,
    address: Seq<char>,
)
    ensures
        ({
            let named = exists|i: int|
                0 <= i < ids.len() && list[#[trigger] ids[i]].hardware().pci.pci_address@ == address;
            let after = recorded_open(state, list, ids);
            &&& after.contains_key(address) <==> named || state.contains_key(address)
            &&& named ==> !after[address]
            &&& !named && state.contains_key(address) ==> after[address] == state[address]
        }),
    decreases ids.len(),
{
    if ids.len() > 0 {
        let rest = ids.drop_last();
        lemma_recorded_open(state, list, rest, address);
        assert forall|i: int| 0 <= i < rest.len() implies #[trigger] rest[i] == ids[i] by {}
        if exists|i: int|
            0 <= i < rest.len() && list[#[trigger] rest[i]].hardware().pci.pci_address@ == address {
            let i = choose|i: int|
                0 <= i < rest.len() && list[#[trigger] rest[i]].hardware().pci.pci_address@
                    == address;
            assert(list[ids[i]].hardware().pci.pci_address@ == address);
        }
        if exists|i: int|
            0 <= i < ids.len() && list[#[trigger] ids[i]].hardware().pci.pci_address@ == address {
            let i = choose|i: int|
                0 <= i < ids.len() && list[#[trigger] ids[i]].hardware().pci.pci_address@ == address;
            if i < rest.len() {
                assert(list[rest[i]].hardware().pci.pci_address@ == address);
            }
        }
        assert(ids[ids.len() - 1] == ids.last());
    }
}

/// After a first start the record names the PCI addresses of the GPUs of the list, and no others,
/// and names none of them as blocked.
pub proof fn law_first_start_records_every_gpu_as_open(
    before: DaemonManager,
    after: DaemonManager,
    populated: bool,
)
    requires
        before.mode_interface.wf(),
        exists|manager: &mut DaemonManager|
            *manager == before && *final(manager) == after && #[trigger] call_ensures(
                DaemonManager::populate_state_file,
                (manager,),
                populated,
            ),
        before.mode_interface.gpu_state@ == Map::<Seq<char>, bool>::empty(),
    ensures
        populated,
        after.gpu_list == before.gpu_list,
        after.mode_interface.wf(),
        forall|address: Seq<char>| #[trigger]
            after.mode_interface.gpu_state@.contains_key(address) <==> is_listed(
                before.gpu_list@,
                address,
            ),
        forall|address: Seq<char>| #[trigger]
            after.mode_interface.gpu_state@.contains_key(address)
                ==> !after.mode_interface.gpu_state@[address],
{
    let list = before.gpu_list@;
    let ids = in_order(list.dom());
    let record = after.mode_interface.gpu_state@;
    lemma_in_order(list.dom());
    assert forall|address: Seq<char>| (#[trigger] record.contains_key(address) <==> is_listed(
        list,
        address,
    )) && (record.contains_key(address) ==> !record[address]) by {
        lemma_recorded_open(Map::empty(), list, ids, address);
        if is_listed(list, address) {
            let id = choose|id: usize| #[trigger]
                list.contains_key(id) && list[id].hardware().pci.pci_address@ == address;
            assert(ids.contains(id));
            let i = choose|i: int| 0 <= i < ids.len() && ids[i] == id;
            assert(list[ids[i]].hardware().pci.pci_address@ == address);
        }
        if record.contains_key(address) {
            let i = choose|i: int|
                0 <= i < ids.len() && list[#[trigger] ids[i]].hardware().pci.pci_address@ == address;
            assert(ids.contains(ids[i]));
            assert(list.contains_key(ids[i]));
        }
    }
}

/// Once something is recorded, a start leaves the record and all else as they were.
pub proof fn law_later_starts_keep_the_record(
    before: DaemonManager,
    after: DaemonManager,
    populated: bool,
)
    requires
        before.mode_interface.wf(),
        exists|manager: &mut DaemonManager|
            *manager == before && *final(manager) == after && #[trigger] call_ensures(
                DaemonManager::populate_state_file,
                (manager,),
                populated,
            ),
        before.mode_interface.gpu_state@ != Map::<Seq<char>, bool>::empty(),
    ensures
        !populated,
        after.mode_interface.gpu_state@ == before.mode_interface.gpu_state@,
        after.mode_interface.mode == before.mode_interface.mode,
        after.gpu_list == before.gpu_list,
{
}

/// Manual mode right after a first start writes every GPU that can be used as not blocked.
pub proof fn law_first_manual_mode_unblocks_every_gpu(
    before: DaemonManager,
    after: DaemonManager,
    populated: bool,
    plan: Result<Vec<ModeAction>, FdoError>,
)
    requires
        before.mode_interface.wf(),
        exists|manager: &mut DaemonManager|
            *manager == before && *final(manager) == after && #[trigger] call_ensures(
                DaemonManager::populate_state_file,
                (manager,),
                populated,
            ),
        before.mode_interface.gpu_state@ == Map::<Seq<char>, bool>::empty(),
        call_ensures(
            ModeInterface::apply_mode,
            (&after.mode_interface, &after.gpu_list, Modes::Manual),
            plan,
        ),
    ensures
        plan matches Ok(actions) ==> {
            &&& forall|i: int|
                0 <= i < actions@.len() ==> ((#[trigger] actions@[i]) matches ModeAction::Sync {
                    blocked,
                    ..
                } ==> !blocked)
            &&& forall|id: usize| #[trigger]
                before.gpu_list@.contains_key(id) && before.gpu_list@[id].hardware().available
                    ==> exists|i: int|
                    0 <= i < actions@.len() - 1 && (#[trigger] actions@[i])->id == id
        },
{
    law_first_start_records_every_gpu_as_open(before, after, populated);
    law_manual_writes_every_available_gpu(after.mode_interface, after.gpu_list, plan);
    if let Ok(actions) = plan {
        assert forall|i: int| 0 <= i < actions@.len() implies ((#[trigger] actions@[i])
            matches ModeAction::Sync { blocked, .. } ==> !blocked) by {
            if i == actions@.len() - 1 {
                assert(actions@[i] == actions@.last());
            }
        }
    }
}

/// The tasks of a start come one after the other, each only once the one before it went well: the
/// daemon is let through, the NVIDIA setting is written, the NVIDIA files are seen to, programs are
/// let through, the record is seen to, the mode from the file is set. The daemon runs only once a
/// mode was set.
pub proof fn law_start_skips_no_task(state: StartupState, step: StartupStep)
    requires
        call_ensures(DaemonManager::pre_daemon_tasks, (state,), step),
    ensures
        step is WhitelistPid <==> state is Begun,
        step is SetNvidiaSetting <==> (state matches StartupState::PidWhitelisted(Ok(_))),
        step is SyncNvidia <==> (state matches StartupState::SettingWritten(Ok(_))),
        step is WhitelistPrograms <==> (state matches StartupState::NvidiaSynced(Ok(_))),
        step is PopulateState <==> (state matches StartupState::ProgramsWhitelisted(Ok(_))),
        step == (StartupStep::ApplyMode { mode_arg: None }) <==> (state
            matches StartupState::StatePopulated(Ok(_))),
        step is Ready <==> (state matches StartupState::ModeApplied(Ok(_))) || (state
            matches StartupState::FellBack(Ok(_))),
{
}

/// A mode that cannot be set is answered with hybrid mode, once: where that fails too, and where
/// any other task fails, the start ends with the error of that task.
pub proof fn law_start_falls_back_to_hybrid_once(state: StartupState, step: StartupStep)
    requires
        call_ensures(DaemonManager::pre_daemon_tasks, (state,), step),
    ensures
        step matches StartupStep::ApplyMode { mode_arg: Some(number) } ==> number == 1 && (state
            matches StartupState::ModeApplied(Err(_))),
        state matches StartupState::ModeApplied(Err(_)) ==> step == (StartupStep::ApplyMode {
            mode_arg: Some(1),
        }),
        state matches StartupState::PidWhitelisted(Err(why)) ==> (step matches StartupStep::Fail(
            err,
        ) && err.cause == why),
        state matches StartupState::SettingWritten(Err(why)) ==> (step matches StartupStep::Fail(
            err,
        ) && err.cause == why),
        state matches StartupState::NvidiaSynced(Err(why)) ==> (step matches StartupStep::Fail(err)
            && err.cause == why && err.context is Some),
        state matches StartupState::ProgramsWhitelisted(Err(why)) ==> (step
            matches StartupStep::Fail(err) && err.cause == why),
        state matches StartupState::StatePopulated(Err(why)) ==> (step matches StartupStep::Fail(
            err,
        ) && err.cause == why),
        state matches StartupState::FellBack(Err(why)) ==> (step matches StartupStep::Fail(err)
            && err.cause == why),
{
}

/// Two tasks in a row: one that went well is never asked for again.
pub proof fn law_start_repeats_no_task(
    state: StartupState,
    step: StartupStep,
    next: StartupState,
    following: StartupStep,
)
    requires
        call_ensures(DaemonManager::pre_daemon_tasks, (state,), step),
        answers_task(step, next),
        call_ensures(DaemonManager::pre_daemon_tasks, (next,), following),
    ensures
        following != step || following is Fail,
{
}

/// The parts of the daemon are put together in one order: what decides the mode and what was
/// blocked by hand are read before the kernel side is loaded, and nothing is put together twice.
pub proof fn law_daemon_is_put_together_in_order(
    stage: BuildStage,
    outcome: Result<(), String>,
    step: BuildStep,
)
    requires
        call_ensures(DaemonManager::build_step, (stage, outcome), step),
    ensures
        outcome is Ok && stage == BuildStage::ModeState ==> step == BuildStep::Next(
            BuildStage::Config,
        ),
        outcome is Ok && stage == BuildStage::Config ==> step == BuildStep::Next(
            BuildStage::GpuState,
        ),
        outcome is Ok && stage == BuildStage::GpuState ==> step == BuildStep::Next(
            BuildStage::PciDevices,
        ),
        outcome is Ok && stage == BuildStage::PciDevices ==> step == BuildStep::Next(
            BuildStage::Blocker,
        ),
        outcome is Ok && stage == BuildStage::Blocker ==> step == BuildStep::Next(
            BuildStage::Database,
        ),
        outcome is Ok && stage == BuildStage::Database ==> step == BuildStep::Next(
            BuildStage::ModeMap,
        ),
        step is Ready <==> outcome is Ok && stage == BuildStage::ModeMap,
        step is Failed <==> outcome is Err,
        step matches BuildStep::Failed(err) ==> Err::<(), String>(err.cause) == outcome && (
        err.context is Some <==> stage == BuildStage::ModeState || stage == BuildStage::Config),
{
}

/// A start without a number sets the mode from the file, and does not save it again. One with a
/// number sets the mode with that number and saves it, whatever the file says.
pub proof fn law_start_saves_only_what_is_new(
    manager: DaemonManager,
    mode_arg: Option<u32>,
    request: Result<(Modes, bool), String>,
)
    requires
        call_ensures(DaemonManager::apply_mode_at_startup, (&manager, mode_arg), request),
    ensures
        mode_arg is None ==> request == Ok::<(Modes, bool), String>(
            (manager.mode_interface.mode, false),
        ),
        mode_arg == Some(0u32) ==> request == Ok::<(Modes, bool), String>(
            (Modes::Integrated, true),
        ),
        mode_arg == Some(1u32) ==> request == Ok::<(Modes, bool), String>((Modes::Hybrid, true)),
        mode_arg == Some(2u32) ==> request == Ok::<(Modes, bool), String>((Modes::Manual, true)),
        mode_arg == Some(3u32) ==> request == Ok::<(Modes, bool), String>((Modes::Smart, true)),
        mode_arg matches Some(number) ==> (number > 3 ==> request is Err),
{
}

/// The NVIDIA setting is written as the configuration has it, under the key that the kernel side
/// reads it by: on as 1, off as 0.
pub proof fn law_setting_is_written_as_configured(manager: DaemonManager, update: MapUpdate)
    requires
        call_ensures(DaemonManager::set_nvidia_setting, (&manager,), update),
    ensures
        update matches MapUpdate::Setting { key, value } && key == EXP_NVIDIA && (value != 0
            <==> manager.experimental_nvidia_block) && value <= 1,
{
}

/// The process that is let through as the daemon is the one that is given.
pub proof fn law_daemon_is_let_through(manager: DaemonManager, pid: u32, update: MapUpdate)
    requires
        call_ensures(DaemonManager::whitelist_daemon_pid, (&manager, pid), update),
    ensures
        update matches MapUpdate::DaemonPid { pid: written } && written == pid,
{
}

/// The daemon serves, under the same numbers, the GPUs that were found and no others, with nothing
/// written for them yet; it has the mode, the record and the settings that it was given.
pub proof fn law_new_daemon_serves_what_was_found(
    mode: Modes,
    config: DaemonConfig,
    gpu_state: CardwireGpuState,
    pci_list: PciList,
    devices: BTreeMap<usize, GpuDevice>,
    envs: Vec<Vec<String>>,
    blocker: EbpfBlocker,
    manager: DaemonManager,
    id: usize,
)
    requires
        gpu_state.wf(),
        pci_list.wf(),
        envs@.len() == in_order(devices@.dom()).len(),
        call_ensures(
            DaemonManager::new,
            (mode, config, gpu_state, pci_list, devices, envs, blocker),
            manager,
        ),
    ensures
        manager.gpu_list@.contains_key(id) <==> devices@.contains_key(id),
        devices@.contains_key(id) ==> {
            &&& manager.gpu_list@[id].hardware() == devices@[id]
            &&& manager.gpu_list@[id].number() == id as u32
            &&& manager.gpu_list@[id].pushed().len() == 0
        },
        forall|i: int|
            0 <= i < envs@.len() ==> manager.gpu_list@[#[trigger] in_order(
                devices@.dom(),
            )[i]].environment() == envs@[i],
        manager.mode_interface.mode == mode,
        manager.mode_interface.gpu_state == gpu_state,
        manager.mode_interface.auto_apply_gpu_state == config.auto_apply_gpu_state,
        manager.experimental_nvidia_block == config.experimental_nvidia_block,
        manager.blocker == blocker,
        manager.debug_interface == (DebugInterface { pci_list, served: false }),
{
    let ids = in_order(devices@.dom());
    lemma_in_order(devices@.dom());
    if devices@.contains_key(id) {
        assert(ids.contains(id));
        let i = choose|i: int| 0 <= i < ids.len() && ids[i] == id;
        assert(ids[i] == id);
    }
}

/// One of the writes lets through programs of this name.
pub open spec fn lets_through(updates: Seq<MapUpdate>, name: &str) -> bool {
    exists|i: int|
        0 <= i < updates.len() && ((#[trigger] updates[i]) matches MapUpdate::AllowComm { comm }
            && comm@ == padded(name.spec_bytes(), COMM_LEN as nat))
}

/// The device manager and the package managers are let through, under both names that the device
/// manager goes by and both that the Nix one does, and nothing else is.
pub proof fn law_device_and_package_managers_are_let_through(
    manager: DaemonManager,
    updates: Vec<MapUpdate>,
)
    requires
        call_ensures(DaemonManager::whitelist_programs, (&manager,), updates),
    ensures
        lets_through(updates@, "(udev-worker)"),
        lets_through(updates@, "systemd-udevd"),
        lets_through(updates@, "pacman"),
        lets_through(updates@, "dnf"),
        lets_through(updates@, "apt"),
        lets_through(updates@, "nix"),
        lets_through(updates@, "nix-daemon"),
        updates@.len() == 7,
        forall|i: int| 0 <= i < updates@.len() ==> (#[trigger] updates@[i]) is AllowComm,
{
    assert(updates@[0] is AllowComm);
    assert(updates@[1] is AllowComm);
    assert(updates@[2] is AllowComm);
    assert(updates@[3] is AllowComm);
    assert(updates@[4] is AllowComm);
    assert(updates@[5] is AllowComm);
    assert(updates@[6] is AllowComm);
}

} // verus!
