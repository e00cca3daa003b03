//! Starting the daemon.
use crate::blocker::{EbpfBlocker, EbpfSettings};
use crate::debug::DebugInterface;
use crate::gpu::GpuInterface;
use crate::helpers::EXP_NVIDIA;
use crate::keys::{padded, COMM_LEN};
use crate::maps::MapUpdate;
use crate::mode::ModeInterface;
use crate::order::{ids_of, in_order, member};
use crate::pci::PciList;
use crate::roster::{build_interfaces, serves};
use crate::state::CardwireGpuState;
use crate::types::{GpuDevice, Modes};
use std::collections::BTreeMap;
use vstd::prelude::*;
use vstd::string::{StringExecFns, StringSliceAdditionalSpecFns};

verus! {

/// The daemon: its interfaces, and what they share.
#[derive(Debug)]
pub struct DaemonManager {
    pub mode_interface: ModeInterface,
    pub debug_interface: DebugInterface,
    pub gpu_list: BTreeMap<usize, GpuInterface>,
    pub blocker: EbpfBlocker,
    /// Block the files that all NVIDIA devices share.
    pub experimental_nvidia_block: bool,
}

/// What the configuration file says.
#[derive(Copy, Clone, Debug)]
pub struct DaemonConfig {
    pub auto_apply_gpu_state: bool,
    pub experimental_nvidia_block: bool,
}

/// Why the daemon does not start.
#[derive(Clone, Debug)]
pub struct StartupError {
    /// What was being done, where that is worth saying.
    pub context: Option<String>,
    pub cause: String,
}

/// The error is `cause`, in this context.
pub open spec fn failed_with(err: StartupError, context: Option<Seq<char>>, cause: String) -> bool {
    err.cause == cause && match context {
        Some(text) => err.context matches Some(c) && c@ == text,
        None => err.context is None,
    }
}

/// What is put together before the daemon exists, in this order.
#[derive(Copy, Clone, Debug, PartialEq, Eq, Structural)]
pub enum BuildStage {
    /// Read the mode from its file.
    ModeState,
    /// Read the configuration.
    Config,
    /// Read what was blocked by hand.
    GpuState,
    /// Read the devices on the PCI bus, and find the GPUs among them.
    PciDevices,
    /// Load the kernel side.
    Blocker,
    /// Open the database of smart policies.
    Database,
    /// Take the map of the mode.
    ModeMap,
}

/// What comes next.
#[derive(Clone, Debug)]
pub enum BuildStep {
    Next(BuildStage),
    /// Everything is there for [`DaemonManager::new`].
    Ready,
    Failed(StartupError),
}

/// What follows a stage.
pub open spec fn next_stage(stage: BuildStage) -> Option<BuildStage> {
    match stage {
        BuildStage::ModeState => Some(BuildStage::Config),
        BuildStage::Config => Some(BuildStage::GpuState),
        BuildStage::GpuState => Some(BuildStage::PciDevices),
        BuildStage::PciDevices => Some(BuildStage::Blocker),
        BuildStage::Blocker => Some(BuildStage::Database),
        BuildStage::Database => Some(BuildStage::ModeMap),
        BuildStage::ModeMap => None,
    }
}

/// What is said of a stage that fails.
pub open spec fn stage_context(stage: BuildStage) -> Option<Seq<char>> {
    match stage {
        BuildStage::ModeState => Some("Error building mode"@),
        BuildStage::Config => Some("Error building toml config"@),
        _ => None,
    }
}

/// How far the tasks before the daemon runs have come.
#[derive(Debug)]
pub enum StartupState {
    Begun,
    /// The daemon is let through.
    PidWhitelisted(Result<(), String>),
    /// The NVIDIA setting is written.
    SettingWritten(Result<(), String>),
    /// The files of the NVIDIA driver were seen to.
    NvidiaSynced(Result<(), String>),
    /// Some programs are let through.
    ProgramsWhitelisted(Result<(), String>),
    /// What was blocked by hand has a file.
    StatePopulated(Result<(), String>),
    /// The mode was set.
    ModeApplied(Result<(), String>),
    /// Hybrid mode was set instead.
    FellBack(Result<(), String>),
}

/// What the tasks before the daemon runs ask for next.
#[derive(Clone, Debug)]
pub enum StartupStep {
    WhitelistPid,
    SetNvidiaSetting,
    SyncNvidia,
    WhitelistPrograms,
    PopulateState,
    /// Set a mode as [`DaemonManager::apply_mode_at_startup`] says.
    ApplyMode { mode_arg: Option<u32> },
    /// The daemon can run.
    Ready,
    Fail(StartupError),
}

/// The outcome of a task before the daemon runs.
pub open spec fn task_outcome(state: StartupState) -> Result<(), String> {
    match state {
        StartupState::Begun => Ok(()),
        StartupState::PidWhitelisted(outcome) => outcome,
        StartupState::SettingWritten(outcome) => outcome,
        StartupState::NvidiaSynced(outcome) => outcome,
        StartupState::ProgramsWhitelisted(outcome) => outcome,
        StartupState::StatePopulated(outcome) => outcome,
        StartupState::ModeApplied(outcome) => outcome,
        StartupState::FellBack(outcome) => outcome,
    }
}

/// What follows a task that went well.
pub open spec fn next_task(state: StartupState) -> StartupStep {
    match state {
        StartupState::Begun => StartupStep::WhitelistPid,
        StartupState::PidWhitelisted(_) => StartupStep::SetNvidiaSetting,
        StartupState::SettingWritten(_) => StartupStep::SyncNvidia,
        StartupState::NvidiaSynced(_) => StartupStep::WhitelistPrograms,
        StartupState::ProgramsWhitelisted(_) => StartupStep::PopulateState,
        StartupState::StatePopulated(_) => StartupStep::ApplyMode { mode_arg: None },
        StartupState::ModeApplied(_) => StartupStep::Ready,
        StartupState::FellBack(_) => StartupStep::Ready,
    }
}

/// What is said of a task that fails.
pub open spec fn task_context(state: StartupState) -> Option<Seq<char>> {
    if state is NvidiaSynced {
        Some("failed to prime the experimental nvidia block"@)
    } else {
        None
    }
}

/// What follows a task: the next one, if it went well. A mode that cannot be set is answered with
/// hybrid mode; any other failure ends the start.
pub open spec fn follows_task(state: StartupState, step: StartupStep) -> bool {
    match task_outcome(state) {
        Ok(()) => step == next_task(state),
        Err(cause) => if state is ModeApplied {
            step == (StartupStep::ApplyMode { mode_arg: Some(Modes::Hybrid.number()) })
        } else {
            step matches StartupStep::Fail(err) && failed_with(
                err,
                task_context(state),
                cause,
            )
        },
    }
}

/// `state` tells how what `step` asks for went.
pub open spec fn answers_task(step: StartupStep, state: StartupState) -> bool {
    match step {
        StartupStep::WhitelistPid => state is PidWhitelisted,
        StartupStep::SetNvidiaSetting => state is SettingWritten,
        StartupStep::SyncNvidia => state is NvidiaSynced,
        StartupStep::WhitelistPrograms => state is ProgramsWhitelisted,
        StartupStep::PopulateState => state is StatePopulated,
        StartupStep::ApplyMode { mode_arg: None } => state is ModeApplied,
        StartupStep::ApplyMode { mode_arg: Some(_) } => state is FellBack,
        StartupStep::Ready => false,
        StartupStep::Fail(_) => false,
    }
}

/// The programs that are let through: those that update the system or manage its devices.
pub open spec fn allowed_programs() -> Seq<&'static str> {
    seq!["(udev-worker)", "systemd-udevd", "pacman", "dnf", "apt", "nix", "nix-daemon"]
}

/// Records GPUs as not blocked, one after the other.
pub open spec fn recorded_open(
    state: Map<Seq<char>, bool>,
    list: Map<usize, GpuInterface>,
    ids: Seq<usize>,
) -> Map<Seq<char>, bool>
    decreases ids.len(),
{
    if ids.len() == 0 {
        state
    } else {
        recorded_open(state, list, ids.drop_last()).insert(
            list[ids.last()].hardware().pci.pci_address@,
            false,
        )
    }
}

impl DaemonManager {
    /// What comes after a stage of putting the daemon together.
    pub fn build_step(stage: BuildStage, outcome: Result<(), String>) -> (step: BuildStep)
        ensures
            match outcome {
                Ok(()) => step == match next_stage(stage) {
                    Some(next) => BuildStep::Next(next),
                    None => BuildStep::Ready,
                },
                Err(cause) => step matches BuildStep::Failed(err) && failed_with(
                    err,
                    stage_context(stage),
                    cause,
                ),
            },
    {
        if let Err(cause) = outcome {
            let context = match stage {
                BuildStage::ModeState => Some(String::from_str("Error building mode")),
                BuildStage::Config => Some(String::from_str("Error building toml config")),
                _ => None,
            };
            return BuildStep::Failed(StartupError { context, cause });
        }
        match stage {
            BuildStage::ModeState => BuildStep::Next(BuildStage::Config),
            BuildStage::Config => BuildStep::Next(BuildStage::GpuState),
            BuildStage::GpuState => BuildStep::Next(BuildStage::PciDevices),
            BuildStage::PciDevices => BuildStep::Next(BuildStage::Blocker),
            BuildStage::Blocker => BuildStep::Next(BuildStage::Database),
            BuildStage::Database => BuildStep::Next(BuildStage::ModeMap),
            BuildStage::ModeMap => BuildStep::Ready,
        }
    }

    /// The daemon made of what was put together. It is not on the bus yet.
    pub fn new(
        mode: Modes,
        config: DaemonConfig,
        gpu_state: CardwireGpuState,
        pci_list: PciList,
        devices: BTreeMap<usize, GpuDevice>,
        envs: Vec<Vec<String>>,
        blocker: EbpfBlocker,
    ) -> (manager: DaemonManager)
        requires
            gpu_state.wf(),
            pci_list.wf(),
            envs@.len() == in_order(devices@.dom()).len(),
        ensures
            manager.mode_interface == (ModeInterface {
                mode,
                gpu_state,
                auto_apply_gpu_state: config.auto_apply_gpu_state,
            }),
            manager.debug_interface == (DebugInterface { pci_list, served: false }),
            manager.blocker == blocker,
            manager.experimental_nvidia_block == config.experimental_nvidia_block,
            manager.gpu_list@.dom() == devices@.dom(),
            forall|i: int|
                0 <= i < envs@.len() ==> serves(
                    manager.gpu_list@[#[trigger] in_order(devices@.dom())[i]],
                    in_order(devices@.dom())[i],
                    devices@[in_order(devices@.dom())[i]],
                    envs@[i],
                ),
    {
        DaemonManager {
            mode_interface: ModeInterface::build(mode, gpu_state, config.auto_apply_gpu_state),
            debug_interface: DebugInterface::build(pci_list, false),
            gpu_list: build_interfaces(devices, envs),
            blocker,
            experimental_nvidia_block: config.experimental_nvidia_block,
        }
    }

    /// The tasks before the daemon runs, one after the other. A mode that cannot be set is
    /// answered with hybrid mode; any other failure ends the start.
    pub fn pre_daemon_tasks(state: StartupState) -> (step: StartupStep)
        ensures
            follows_task(state, step),
    {
        match state {
            StartupState::Begun => StartupStep::WhitelistPid,
            StartupState::PidWhitelisted(Ok(())) => StartupStep::SetNvidiaSetting,
            StartupState::SettingWritten(Ok(())) => StartupStep::SyncNvidia,
            StartupState::NvidiaSynced(Ok(())) => StartupStep::WhitelistPrograms,
            StartupState::ProgramsWhitelisted(Ok(())) => StartupStep::PopulateState,
            StartupState::StatePopulated(Ok(())) => StartupStep::ApplyMode { mode_arg: None },
            StartupState::ModeApplied(Ok(())) => StartupStep::Ready,
            StartupState::FellBack(Ok(())) => StartupStep::Ready,
            StartupState::ModeApplied(Err(_)) => StartupStep::ApplyMode {
                mode_arg: Some(Modes::Hybrid.to_u32()),
            },
            StartupState::NvidiaSynced(Err(cause)) => StartupStep::Fail(
                StartupError {
                    context: Some(
                        String::from_str("failed to prime the experimental nvidia block"),
                    ),
                    cause,
                },
            ),
            StartupState::PidWhitelisted(Err(cause)) => StartupStep::Fail(
                StartupError { context: None, cause },
            ),
            StartupState::SettingWritten(Err(cause)) => StartupStep::Fail(
                StartupError { context: None, cause },
            ),
            StartupState::ProgramsWhitelisted(Err(cause)) => StartupStep::Fail(
                StartupError { context: None, cause },
            ),
            StartupState::StatePopulated(Err(cause)) => StartupStep::Fail(
                StartupError { context: None, cause },
            ),
            StartupState::FellBack(Err(cause)) => StartupStep::Fail(
                StartupError { context: None, cause },
            ),
        }
    }

    /// The write that lets the daemon through.
    pub fn whitelist_daemon_pid(&self, pid: u32) -> (update: MapUpdate)
        ensures
            update == (MapUpdate::DaemonPid { pid }),
    {
        self.blocker.whitelist_cardwire_pid(pid)
    }

    /// The write that turns the NVIDIA setting on or off.
    pub fn set_nvidia_setting(&self) -> (update: MapUpdate)
        ensures
            update == (MapUpdate::Setting {
                key: EXP_NVIDIA,
                value: if self.experimental_nvidia_block {
                    1
                } else {
                    0
                },
            }),
    {
        let value: u8 = if self.experimental_nvidia_block {
            1
        } else {
            0
        };
        self.blocker.set_ebpf_setting(EbpfSettings::ExperimentalNvidia, value)
    }

    /// The writes that let some programs through.
    pub fn whitelist_programs(&self) -> (updates: Vec<MapUpdate>)
        ensures
            updates@.len() == allowed_programs().len(),
            forall|i: int|
                0 <= i < updates@.len() ==> ((#[trigger] updates@[i]) matches MapUpdate::AllowComm {
                    comm,
                } && comm@ == padded(allowed_programs()[i].spec_bytes(), COMM_LEN as nat)),
    {
        let programs = [
            "(udev-worker)",
            "systemd-udevd",
            "pacman",
            "dnf",
            "apt",
            "nix",
            "nix-daemon",
        ];
        assert(programs@ =~= allowed_programs());
        let mut updates: Vec<MapUpdate> = Vec::new();
        let mut i: usize = 0;
        while i < 7
            invariant
                i <= 7,
                programs@ == allowed_programs(),
                updates@.len() == i,
                forall|j: int|
                    0 <= j < i ==> ((#[trigger] updates@[j]) matches MapUpdate::AllowComm { comm }
                        && comm@ == padded(allowed_programs()[j].spec_bytes(), COMM_LEN as nat)),
            decreases 7 - i,
        {
            updates.push(self.blocker.allow_comm(programs[i]));
            i = i + 1;
        }
        updates
    }

    /// On the very first start, records every GPU as not blocked. Tells whether it did, in which
    /// case the record has to be saved.
    pub fn populate_state_file(&mut self) -> (populated: bool)
        requires
            old(self).mode_interface.wf(),
        ensures
            final(self).mode_interface.wf(),
            populated == (old(self).mode_interface.gpu_state@ == Map::<Seq<char>, bool>::empty()),
            final(self).mode_interface.gpu_state@ == if populated {
                recorded_open(
                    old(self).mode_interface.gpu_state@,
                    old(self).gpu_list@,
                    in_order(old(self).gpu_list@.dom()),
                )
            } else {
                old(self).mode_interface.gpu_state@
            },
            final(self).mode_interface.mode == old(self).mode_interface.mode,
            final(self).mode_interface.auto_apply_gpu_state == old(
                self,
            ).mode_interface.auto_apply_gpu_state,
            final(self).debug_interface == old(self).debug_interface,
            final(self).gpu_list == old(self).gpu_list,
            final(self).blocker == old(self).blocker,
            final(self).experimental_nvidia_block == old(self).experimental_nvidia_block,
    {
        if !self.mode_interface.gpu_state.is_default_state() {
            return false;
        }
        let ghost start = *self;
        let ids = ids_of(&self.gpu_list);
        let mut i: usize = 0;
        while i < ids.len()
            invariant
                i <= ids@.len(),
                forall|j: int|
                    0 <= j < ids@.len() ==> start.gpu_list@.contains_key(#[trigger] ids@[j]),
                self.mode_interface.wf(),
                self.mode_interface.gpu_state@ == recorded_open(
                    start.mode_interface.gpu_state@,
                    start.gpu_list@,
                    ids@.take(i as int),
                ),
                self.mode_interface.mode == start.mode_interface.mode,
                self.mode_interface.auto_apply_gpu_state
                    == start.mode_interface.auto_apply_gpu_state,
                self.debug_interface == start.debug_interface,
                self.gpu_list == start.gpu_list,
                self.blocker == start.blocker,
                self.experimental_nvidia_block == start.experimental_nvidia_block,
            decreases ids.len() - i,
        {
            let gpu = member(&self.gpu_list, ids[i]);
            self.mode_interface.gpu_state.save_state(gpu.get_device().pci.pci_address.as_str(), false);
            assert(ids@.take(i + 1).drop_last() =~= ids@.take(i as int));
            i = i + 1;
        }
        assert(ids@.take(i as int) =~= ids@);
        true
    }

    /// The mode to set at the start, and whether to save it: the one given as a number, or else
    /// the one from the file. The latter is not saved again; the former is, so that a mode that
    /// does not work is not tried at every start.
    pub fn apply_mode_at_startup(&self, mode_arg: Option<u32>) -> (request: Result<
        (Modes, bool),
        String,
    >)
        ensures
            match mode_arg {
                None => request == Ok::<(Modes, bool), String>((self.mode_interface.mode, false)),
                Some(number) => if number < 4 {
                    request matches Ok((mode, save)) && mode.number() == number && save
                } else {
                    request matches Err(err) && err@ == "invalid mode"@
                },
            },
    {
        match mode_arg {
            None => Ok((self.mode_interface.mode, false)),
            Some(number) => match Modes::from_u32(number) {
                Some(mode) => Ok((mode, true)),
                None => Err(String::from_str("invalid mode")),
            },
        }
    }
}

} // verus!
