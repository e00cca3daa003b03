//! Switching between modes.
use crate::errors::FdoError;
use crate::gpu::GpuInterface;
use crate::order::{ids_of, in_order, member};
use crate::state::{recorded_blocked, CardwireGpuState};
use crate::text::join;
use crate::types::{devices, system_type, Modes, SystemType};
use std::collections::BTreeMap;
use vstd::prelude::*;
use vstd::string::StringExecFns;

verus! {

/// The mode that is applied, and what the manual mode goes by.
#[derive(Debug)]
pub struct ModeInterface {
    pub mode: Modes,
    pub gpu_state: CardwireGpuState,
    /// The manual mode blocks again what was blocked by hand.
    pub auto_apply_gpu_state: bool,
}

/// One step of applying a mode. The first that fails ends it.
#[derive(Copy, Clone, Debug)]
pub enum ModeAction {
    /// Write the entries of GPU `id` under the number `gpu_id`.
    Sync { id: usize, gpu_id: u32, blocked: bool },
    /// Write the mode to the kernel side.
    WriteMode { mode: u8 },
}

/// What comes next in applying a mode.
#[derive(Debug)]
pub enum ModeStep {
    /// Do this.
    Perform(ModeAction),
    /// It is over, and this is how it went.
    Finished(Result<(), FdoError>),
}

/// One step after a mode was applied. None of them can undo it.
#[derive(Copy, Clone, Debug)]
pub enum ModeFollowUp {
    /// Save the mode, to the file too if `save`.
    SaveState { mode: Modes, save: bool },
    /// Say on the bus that the mode changed.
    EmitModeChanged,
    /// Say on the bus that GPU `id` may have been blocked or unblocked.
    EmitBlockChanged { id: usize },
    /// Tell the display server about this card.
    SendUevent { card: u32 },
    /// Send out the list of GPUs.
    RefreshSwitcheroo,
    /// Start the NVIDIA power daemon.
    StartPowerd,
    /// Stop the NVIDIA power daemon.
    StopPowerd,
}

/// Modes that a kind of system offers.
pub open spec fn offered(kind: SystemType) -> Seq<Modes> {
    match kind {
        SystemType::Laptop => seq![Modes::Integrated, Modes::Hybrid, Modes::Smart],
        SystemType::Desktop => seq![Modes::Hybrid, Modes::Manual],
        SystemType::Manual => seq![Modes::Hybrid, Modes::Manual],
    }
}

/// Why a mode cannot be applied on a kind of system.
pub open spec fn mode_refusal(mode: Modes, kind: SystemType) -> Option<Seq<char>> {
    match mode {
        Modes::Hybrid => None,
        Modes::Manual => if kind == SystemType::Laptop {
            Some(
                "Couldn't set mode to "@ + mode.title()
                    + ", Manual mode is only available on Desktop or system with either 1 GPU or 3+ GPUs"@,
            )
        } else {
            None
        },
        _ => if kind != SystemType::Laptop {
            Some(
                "Couldn't set mode to "@ + mode.title()
                    + ", Integrated and Smart modes require a offload discrete GPU (not supported on desktops where the discrete GPU is the primary display)"@,
            )
        } else {
            None
        },
    }
}

/// Blocks GPU `id`.
pub open spec fn block_action(id: usize) -> ModeAction {
    ModeAction::Sync { id, gpu_id: id as u32, blocked: true }
}

/// Unblocks a GPU.
pub open spec fn unblock_action(id: usize, gpu: GpuInterface) -> ModeAction {
    ModeAction::Sync { id, gpu_id: gpu.number(), blocked: false }
}

/// What a mode does to a GPU.
///
/// - Integrated blocks discrete GPUs that do not drive the default display.
/// - Smart blocks those too, and tracks the integrated GPU that drives it.
/// - Hybrid unblocks every GPU.
/// - Manual unblocks every GPU but those that were blocked by hand, and it never blocks the one
///   that drives the default display.
pub open spec fn gpu_action(
    mode: Modes,
    reapply: bool,
    state: Map<Seq<char>, bool>,
    id: usize,
    gpu: GpuInterface,
) -> Option<ModeAction> {
    if !gpu.hardware().available {
        None
    } else {
        match mode {
            Modes::Hybrid => Some(unblock_action(id, gpu)),
            Modes::Manual => if reapply && recorded_blocked(state, gpu.hardware().pci.pci_address@)
                && !gpu.hardware().default {
                Some(block_action(id))
            } else {
                Some(unblock_action(id, gpu))
            },
            _ => if gpu.hardware().discrete && !gpu.hardware().default {
                Some(block_action(id))
            } else if mode == Modes::Smart && gpu.hardware().default && !gpu.hardware().discrete {
                Some(unblock_action(id, gpu))
            } else {
                None
            },
        }
    }
}

/// What a mode does to the GPU with a given number.
pub open spec fn action_of(
    mode: Modes,
    reapply: bool,
    state: Map<Seq<char>, bool>,
    list: Map<usize, GpuInterface>,
) -> spec_fn(usize) -> Option<ModeAction> {
    |id: usize| gpu_action(mode, reapply, state, id, list[id])
}

/// What a mode does to the GPUs, in the order of their numbers.
pub open spec fn sync_plan(
    mode: Modes,
    reapply: bool,
    state: Map<Seq<char>, bool>,
    list: Map<usize, GpuInterface>,
) -> Seq<ModeAction> {
    in_order(list.dom()).filter_map(action_of(mode, reapply, state, list))
}

/// All that a mode does: the GPUs, then the mode itself.
pub open spec fn mode_plan(
    mode: Modes,
    reapply: bool,
    state: Map<Seq<char>, bool>,
    list: Map<usize, GpuInterface>,
) -> Seq<ModeAction> {
    sync_plan(mode, reapply, state, list).push(ModeAction::WriteMode { mode: mode.number() as u8 })
}

/// What is sent out about the GPU with a given number.
pub open spec fn notices(list: Map<usize, GpuInterface>, id: usize) -> Seq<ModeFollowUp> {
    if list[id].hardware().available {
        seq![
            ModeFollowUp::EmitBlockChanged { id },
            ModeFollowUp::SendUevent { card: list[id].hardware().card },
        ]
    } else {
        Seq::empty()
    }
}

/// What is sent out about GPUs, one after the other.
pub open spec fn all_notices(list: Map<usize, GpuInterface>, ids: Seq<usize>) -> Seq<ModeFollowUp>
    decreases ids.len(),
{
    if ids.len() == 0 {
        Seq::empty()
    } else {
        all_notices(list, ids.drop_last()) + notices(list, ids.last())
    }
}

/// What becomes of the NVIDIA power daemon in a mode: it runs where its GPU is in use.
pub open spec fn powerd_action(mode: Modes) -> ModeFollowUp {
    match mode {
        Modes::Hybrid => ModeFollowUp::StartPowerd,
        Modes::Manual => ModeFollowUp::StartPowerd,
        Modes::Integrated => ModeFollowUp::StopPowerd,
        Modes::Smart => ModeFollowUp::StopPowerd,
    }
}

/// All that follows once a mode was applied.
pub open spec fn follow_up_plan(
    mode: Modes,
    save: bool,
    list: Map<usize, GpuInterface>,
) -> Seq<ModeFollowUp> {
    seq![ModeFollowUp::SaveState { mode, save }, ModeFollowUp::EmitModeChanged] + all_notices(
        list,
        in_order(list.dom()),
    ) + seq![ModeFollowUp::RefreshSwitcheroo, powerd_action(mode)]
}

fn refuse_mode(mode: Modes, rest: &str) -> (err: FdoError)
    ensures
        err matches FdoError::NotSupported(s) && s@ == "Couldn't set mode to "@ + mode.title()
            + rest@,
{
    let mut text = join("Couldn't set mode to ", mode.name());
    text.append(rest);
    FdoError::NotSupported(text)
}

impl ModeInterface {
    /// What was recorded is well formed.
    pub open spec fn wf(&self) -> bool {
        self.gpu_state.wf()
    }

    /// The interface of a daemon that has this mode.
    pub fn build(mode: Modes, gpu_state: CardwireGpuState, auto_apply_gpu_state: bool) -> (mode_int:
        ModeInterface)
        requires
            gpu_state.wf(),
        ensures
            mode_int.wf(),
            mode_int == (ModeInterface { mode, gpu_state, auto_apply_gpu_state }),
    {
        ModeInterface { mode, gpu_state, auto_apply_gpu_state }
    }

    /// The write that tells the kernel side about a mode.
    pub fn update_mode_bpf_map(mode: Modes) -> (action: ModeAction)
        ensures
            action == (ModeAction::WriteMode { mode: mode.number() as u8 }),
    {
        ModeAction::WriteMode { mode: mode.to_u32() as u8 }
    }

    fn action_for(&self, mode: Modes, id: usize, gpu: &GpuInterface) -> (action: Option<
        ModeAction,
    >)
        requires
            self.wf(),
        ensures
            action == gpu_action(mode, self.auto_apply_gpu_state, self.gpu_state@, id, *gpu),
    {
        if !gpu.get_device().available {
            return None;
        }
        let block = ModeAction::Sync { id, gpu_id: id as u32, blocked: true };
        let unblock = ModeAction::Sync { id, gpu_id: gpu.get_id(), blocked: false };
        match mode {
            Modes::Integrated | Modes::Smart => {
                if gpu.get_device().discrete && !gpu.get_device().default {
                    Some(block)
                } else if mode == Modes::Smart && gpu.get_device().default && !gpu.get_device().discrete {
                    Some(unblock)
                } else {
                    None
                }
            },
            Modes::Hybrid => Some(unblock),
            Modes::Manual => {
                let recorded = self.gpu_state.gpu_block_state(gpu.get_device().pci.pci_address.as_str());
                if recorded && self.auto_apply_gpu_state && !gpu.get_device().default {
                    Some(block)
                } else {
                    Some(unblock)
                }
            },
        }
    }

    /// What it takes to apply a mode, without saving it: what becomes of each GPU, and last the
    /// write that makes the kernel side go by the mode.
    pub fn apply_mode(&self, gpu_list: &BTreeMap<usize, GpuInterface>, mode: Modes) -> (plan:
        Result<Vec<ModeAction>, FdoError>)
        requires
            self.wf(),
        ensures
            match mode_refusal(mode, system_type(devices(gpu_list@))) {
                Some(text) => plan matches Err(FdoError::NotSupported(s)) && s@ == text,
                None => plan matches Ok(actions) && actions@ == mode_plan(
                    mode,
                    self.auto_apply_gpu_state,
                    self.gpu_state@,
                    gpu_list@,
                ),
            },
    {
        let kind = SystemType::from_interfaces(gpu_list);
        match mode {
            Modes::Integrated | Modes::Smart => {
                if kind != SystemType::Laptop {
                    return Err(
                        refuse_mode(
                            mode,
                            ", Integrated and Smart modes require a offload discrete GPU (not supported on desktops where the discrete GPU is the primary display)",
                        ),
                    );
                }
            },
            Modes::Hybrid => {},
            Modes::Manual => {
                if kind != SystemType::Manual && kind != SystemType::Desktop {
                    return Err(
                        refuse_mode(
                            mode,
                            ", Manual mode is only available on Desktop or system with either 1 GPU or 3+ GPUs",
                        ),
                    );
                }
            },
        }
        let ghost f = action_of(mode, self.auto_apply_gpu_state, self.gpu_state@, gpu_list@);
        let ids = ids_of(gpu_list);
        let mut actions: Vec<ModeAction> = Vec::new();
        let mut i: usize = 0;
        assert(ids@.take(0).filter_map(f) =~= Seq::empty());
        while i < ids.len()
            invariant
                self.wf(),
                f == action_of(mode, self.auto_apply_gpu_state, self.gpu_state@, gpu_list@),
                i <= ids@.len(),
                forall|j: int| 0 <= j < ids@.len() ==> gpu_list@.contains_key(#[trigger] ids@[j]),
                actions@ == ids@.take(i as int).filter_map(f),
            decreases ids.len() - i,
        {
            proof {
                ids@.lemma_filter_map_take_succ(f, i as int);
            }
            let gpu = member(gpu_list, ids[i]);
            if let Some(action) = self.action_for(mode, ids[i], gpu) {
                actions.push(action);
            }
            i = i + 1;
        }
        assert(ids@.take(i as int) =~= ids@);
        actions.push(Self::update_mode_bpf_map(mode));
        Ok(actions)
    }

    /// What comes next in a plan of [`ModeInterface::apply_mode`], the first `done` steps of which
    /// were asked for. `last` is how the last of them went: one that fails ends the plan with its
    /// error.
    pub fn apply_step(plan: &Vec<ModeAction>, done: usize, last: Result<(), FdoError>) -> (step:
        ModeStep)
        ensures
            match last {
                Err(err) => step == ModeStep::Finished(Err(err)),
                Ok(()) => if done < plan@.len() {
                    step == ModeStep::Perform(plan@[done as int])
                } else {
                    step matches ModeStep::Finished(Ok(_))
                },
            },
    {
        if let Err(err) = last {
            return ModeStep::Finished(Err(err));
        }
        if done < plan.len() {
            ModeStep::Perform(plan[done])
        } else {
            ModeStep::Finished(Ok(()))
        }
    }

    /// What follows once the plan of [`ModeInterface::apply_mode`] was carried out, or the error
    /// that ended it. The mode only changes if it was applied.
    pub fn internal_set_mode(
        &mut self,
        gpu_list: &BTreeMap<usize, GpuInterface>,
        mode: Modes,
        save: bool,
        applied: Result<(), FdoError>,
    ) -> (plan: Result<Vec<ModeFollowUp>, FdoError>)
        ensures
            match applied {
                Err(err) => plan == Err::<Vec<ModeFollowUp>, FdoError>(err) && *final(self) == *old(
                    self,
                ),
                Ok(()) => {
                    &&& plan matches Ok(steps)
                    &&& steps@ == follow_up_plan(mode, save, gpu_list@)
                    &&& *final(self) == (ModeInterface { mode, ..*old(self) })
                },
            },
    {
        if let Err(err) = applied {
            return Err(err);
        }
        self.mode = mode;
        let mut steps: Vec<ModeFollowUp> = Vec::new();
        steps.push(ModeFollowUp::SaveState { mode, save });
        steps.push(ModeFollowUp::EmitModeChanged);
        let ghost head = steps@;
        let ids = ids_of(gpu_list);
        let mut i: usize = 0;
        assert(steps@ =~= head + all_notices(gpu_list@, ids@.take(0)));
        while i < ids.len()
            invariant
                i <= ids@.len(),
                forall|j: int| 0 <= j < ids@.len() ==> gpu_list@.contains_key(#[trigger] ids@[j]),
                steps@ == head + all_notices(gpu_list@, ids@.take(i as int)),
            decreases ids.len() - i,
        {
            let ghost before = steps@;
            let gpu = member(gpu_list, ids[i]);
            if gpu.get_device().available {
                steps.push(ModeFollowUp::EmitBlockChanged { id: ids[i] });
                steps.push(ModeFollowUp::SendUevent { card: gpu.get_device().card });
            }
            proof {
                let now = ids@.take(i + 1);
                assert(now.drop_last() =~= ids@.take(i as int));
                assert(steps@ =~= before + notices(gpu_list@, ids@[i as int]));
                assert(steps@ =~= head + all_notices(gpu_list@, now));
            }
            i = i + 1;
        }
        assert(ids@.take(i as int) =~= ids@);
        steps.push(ModeFollowUp::RefreshSwitcheroo);
        match mode {
            Modes::Hybrid | Modes::Manual => {
                steps.push(ModeFollowUp::StartPowerd);
            },
            Modes::Integrated | Modes::Smart => {
                steps.push(ModeFollowUp::StopPowerd);
            },
        }
        assert(steps@ =~= follow_up_plan(mode, save, gpu_list@));
        Ok(steps)
    }

    /// The mode that a request on the bus asks for, and whether to save it, which such a request
    /// always asks for too.
    pub fn set_mode(mode: u32) -> (requested: Result<(Modes, bool), FdoError>)
        ensures
            requested is Ok <==> mode < 4,
            requested matches Ok((m, save)) ==> m.number() == mode && save,
            requested matches Err(err) ==> err matches FdoError::InvalidArgs(s) && s@
                == "invalid mode"@,
    {
        match Modes::from_u32(mode) {
            Some(mode) => Ok((mode, true)),
            None => Err(FdoError::InvalidArgs(String::from_str("invalid mode"))),
        }
    }

    /// The number of the mode that is applied.
    pub fn mode(&self) -> (number: u32)
        ensures
            number == self.mode.number(),
    {
        self.mode.to_u32()
    }

    /// The modes that can be applied on this system.
    pub fn available_modes(gpu_list: &BTreeMap<usize, GpuInterface>) -> (modes: Vec<Modes>)
        ensures
            modes@ == offered(system_type(devices(gpu_list@))),
    {
        let mut modes: Vec<Modes> = Vec::new();
        match SystemType::from_interfaces(gpu_list) {
            SystemType::Laptop => {
                modes.push(Modes::Integrated);
                modes.push(Modes::Hybrid);
                modes.push(Modes::Smart);
            },
            SystemType::Desktop | SystemType::Manual => {
                modes.push(Modes::Hybrid);
                modes.push(Modes::Manual);
            },
        }
        assert(modes@ =~= offered(system_type(devices(gpu_list@))));
        modes
    }
}

} // verus!
