//! Bringing the kernel side up: what is loaded in which order, and what may fail.
//!
//! Loading is left to the caller, which performs one action after the other and reports how each
//! of them went.
use crate::blocker::{EbpfBlocker, TakenMap};
use crate::errors::CardwireEbpfError;
use crate::keys::InodeKey;
use crate::text::has_text;
use vstd::prelude::*;

verus! {

/// The programs of the kernel side.
#[derive(Copy, Clone, Debug, PartialEq, Eq, Structural)]
pub enum Program {
    /// Guards opening a file.
    FileOpen,
    /// Guards access to an inode.
    InodePermission,
    /// Guards reading the attributes of an inode.
    InodeGetattr,
    /// Sees processes start.
    SchedExec,
    /// Sees processes end.
    SchedExit,
    /// Hides entries at the end of a directory listing. It rewrites the memory of processes,
    /// which a locked down kernel refuses.
    ExitGetdents,
    /// Notes the beginning of a directory listing, in a map that the hook at the end empties.
    EnterGetdents,
}

/// What is done with a program.
#[derive(Copy, Clone, Debug, PartialEq, Eq, Structural)]
pub enum Stage {
    Lookup,
    Load,
    Attach,
}

/// What is to be done next.
#[derive(Copy, Clone, Debug, PartialEq, Eq, Structural)]
pub enum LoadState {
    /// Load the object that holds the programs.
    Object,
    /// Read the kernel's type information.
    Btf,
    /// Do this with this program. `hiding` says whether the hook at the end of a directory
    /// listing is attached.
    Program { program: Program, stage: Stage, hiding: bool },
    /// Take the map of allowed processes.
    PidMap,
    /// Take the map of processes that are held to a GPU.
    ForcedMap,
}

/// How an action went. `Missing` is an answer to a lookup or to taking a map.
#[derive(Clone, Debug)]
pub enum LoadEvent {
    Done,
    Missing,
    Failed(String),
}

/// What follows from how an action went.
#[derive(Debug)]
pub enum LoadStep {
    /// Go on.
    Next(LoadState),
    /// The kernel side is up.
    Ready(EbpfBlocker),
    /// Give up.
    Failed(CardwireEbpfError),
}

/// An event of the kernel that a program can be attached to.
#[derive(Copy, Clone, Debug)]
pub struct Tracepoint {
    pub category: &'static str,
    pub name: &'static str,
}

impl Tracepoint {
    /// The event of this category and name.
    pub open spec fn names(self, category: Seq<char>, name: Seq<char>) -> bool {
        self.category@ == category && self.name@ == name
    }
}

impl Program {
    /// The place of the program in the order of loading.
    pub open spec fn rank(self) -> int {
        match self {
            Program::FileOpen => 0,
            Program::InodePermission => 1,
            Program::InodeGetattr => 2,
            Program::SchedExec => 3,
            Program::SchedExit => 4,
            Program::ExitGetdents => 5,
            Program::EnterGetdents => 6,
        }
    }

    /// The daemon cannot do without it. Without the others it runs, but entries are not hidden.
    pub open spec fn is_required(self) -> bool {
        self.rank() < 5
    }

    /// The name of the program in the object.
    pub open spec fn title(self) -> Seq<char> {
        match self {
            Program::FileOpen => "file_open"@,
            Program::InodePermission => "inode_permission"@,
            Program::InodeGetattr => "inode_getattr"@,
            Program::SchedExec => "tracepoint_sched_process_exec"@,
            Program::SchedExit => "tracepoint_sched_process_exit"@,
            Program::ExitGetdents => "tracepoint_exit_getdents64"@,
            Program::EnterGetdents => "tracepoint_enter_getdents64"@,
        }
    }

    /// The name of the program in the object.
    pub fn name(self) -> (name: &'static str)
        ensures
            name@ == self.title(),
    {
        match self {
            Program::FileOpen => "file_open",
            Program::InodePermission => "inode_permission",
            Program::InodeGetattr => "inode_getattr",
            Program::SchedExec => "tracepoint_sched_process_exec",
            Program::SchedExit => "tracepoint_sched_process_exit",
            Program::ExitGetdents => "tracepoint_exit_getdents64",
            Program::EnterGetdents => "tracepoint_enter_getdents64",
        }
    }

    /// The category and the name of the event that the program is attached to. Those without one
    /// are attached to the security hook of their own name.
    pub fn tracepoint(self) -> (point: Option<Tracepoint>)
        ensures
            point is None <==> self.rank() < 3,
            point matches Some(p) ==> match self {
                Program::SchedExec => p.names("sched"@, "sched_process_exec"@),
                Program::SchedExit => p.names("sched"@, "sched_process_exit"@),
                Program::ExitGetdents => p.names("syscalls"@, "sys_exit_getdents64"@),
                _ => p.names("syscalls"@, "sys_enter_getdents64"@),
            },
    {
        match self {
            Program::SchedExec => Some(
                Tracepoint { category: "sched", name: "sched_process_exec" },
            ),
            Program::SchedExit => Some(
                Tracepoint { category: "sched", name: "sched_process_exit" },
            ),
            Program::ExitGetdents => Some(
                Tracepoint { category: "syscalls", name: "sys_exit_getdents64" },
            ),
            Program::EnterGetdents => Some(
                Tracepoint { category: "syscalls", name: "sys_enter_getdents64" },
            ),
            _ => None,
        }
    }

    /// What comes after the program.
    pub open spec fn successor(self, hiding: bool) -> LoadState {
        match self {
            Program::FileOpen => at(Program::InodePermission, Stage::Lookup, hiding),
            Program::InodePermission => at(Program::InodeGetattr, Stage::Lookup, hiding),
            Program::InodeGetattr => at(Program::SchedExec, Stage::Lookup, hiding),
            Program::SchedExec => at(Program::SchedExit, Stage::Lookup, hiding),
            Program::SchedExit => at(Program::ExitGetdents, Stage::Lookup, hiding),
            Program::ExitGetdents => at(Program::EnterGetdents, Stage::Lookup, hiding),
            Program::EnterGetdents => LoadState::PidMap,
        }
    }

    /// What comes after the program.
    fn next(self, hiding: bool) -> (state: LoadState)
        ensures
            state == self.successor(hiding),
    {
        let program = match self {
            Program::FileOpen => Program::InodePermission,
            Program::InodePermission => Program::InodeGetattr,
            Program::InodeGetattr => Program::SchedExec,
            Program::SchedExec => Program::SchedExit,
            Program::SchedExit => Program::ExitGetdents,
            Program::ExitGetdents => Program::EnterGetdents,
            Program::EnterGetdents => {
                return LoadState::PidMap;
            },
        };
        LoadState::Program { program, stage: Stage::Lookup, hiding }
    }
}

/// The state in which `stage` is due for `program`.
pub open spec fn at(program: Program, stage: Stage, hiding: bool) -> LoadState {
    LoadState::Program { program, stage, hiding }
}

/// The event can be the answer to what is done in the state.
pub open spec fn answers(state: LoadState, event: LoadEvent) -> bool {
    event is Missing ==> match state {
        LoadState::Object => false,
        LoadState::Btf => false,
        LoadState::Program { stage, .. } => stage is Lookup,
        LoadState::PidMap => true,
        LoadState::ForcedMap => true,
    }
}

/// The state that follows, where loading goes on.
pub open spec fn next_state(state: LoadState, event: LoadEvent) -> Option<LoadState> {
    match state {
        LoadState::Object => if event is Done {
            Some(LoadState::Btf)
        } else {
            None
        },
        LoadState::Btf => if event is Done {
            Some(at(Program::FileOpen, Stage::Lookup, false))
        } else {
            None
        },
        LoadState::Program { program, stage, hiding } => match stage {
            Stage::Lookup => if !(event is Done) {
                None
            } else if program is EnterGetdents && !hiding {
                // Nothing would empty the map that this hook fills.
                Some(LoadState::PidMap)
            } else {
                Some(at(program, Stage::Load, hiding))
            },
            Stage::Load => if event is Done {
                Some(at(program, Stage::Attach, hiding))
            } else if program.is_required() {
                None
            } else {
                Some(program.successor(hiding))
            },
            Stage::Attach => if event is Done {
                Some(program.successor(hiding || program is ExitGetdents))
            } else if program.is_required() {
                None
            } else {
                Some(program.successor(hiding))
            },
        },
        LoadState::PidMap => if event is Done {
            Some(LoadState::ForcedMap)
        } else {
            None
        },
        LoadState::ForcedMap => None,
    }
}

/// The error that loading ends with.
pub open spec fn is_load_error(state: LoadState, event: LoadEvent, err: CardwireEbpfError) -> bool {
    match event {
        LoadEvent::Done => false,
        LoadEvent::Failed(reason) => if state is Object {
            err == CardwireEbpfError::EbpfLoadError(reason)
        } else {
            err == CardwireEbpfError::Aya(reason)
        },
        LoadEvent::Missing => match state {
            LoadState::Program { program, .. } => err matches CardwireEbpfError::MissingLsm { name }
                && name@ == program.title(),
            LoadState::PidMap => err matches CardwireEbpfError::MissingMap { name } && name@
                == "CW_ALLOWED_PID"@,
            LoadState::ForcedMap => err matches CardwireEbpfError::MissingMap { name } && name@
                == "CW_FORCED_PID"@,
            _ => false,
        },
    }
}

impl EbpfBlocker {
    /// Begins loading the kernel side, given the list of the kernel's security modules. Without
    /// the BPF one there is no point.
    pub fn new(lsm: Option<&str>) -> (state: Result<LoadState, CardwireEbpfError>)
        ensures
            if lsm is Some && has_text(lsm->0@, "bpf"@) {
                state == Ok::<LoadState, CardwireEbpfError>(LoadState::Object)
            } else {
                state == Err::<LoadState, CardwireEbpfError>(CardwireEbpfError::LSMNotEnabled)
            },
    {
        if !Self::is_bpf_enabled(lsm) {
            return Err(CardwireEbpfError::LSMNotEnabled);
        }
        Ok(LoadState::Object)
    }

    /// Goes on loading the kernel side, given how the action of a state went.
    pub fn load_step(state: LoadState, event: LoadEvent) -> (step: LoadStep)
        requires
            answers(state, event),
        ensures
            match step {
                LoadStep::Next(next) => next_state(state, event) == Some(next),
                LoadStep::Ready(blocker) => state is ForcedMap && event is Done
                    && blocker.wf() && blocker.pushed() == Seq::<InodeKey>::empty(),
                LoadStep::Failed(err) => next_state(state, event) is None && is_load_error(
                    state,
                    event,
                    err,
                ),
            },
            step is Next <==> next_state(state, event) is Some,
            step is Ready <==> state is ForcedMap && event is Done,
    {
        match state {
            LoadState::Object => match event {
                LoadEvent::Failed(reason) => LoadStep::Failed(
                    CardwireEbpfError::EbpfLoadError(reason),
                ),
                _ => LoadStep::Next(LoadState::Btf),
            },
            LoadState::Btf => match event {
                LoadEvent::Failed(reason) => LoadStep::Failed(CardwireEbpfError::aya(reason)),
                _ => LoadStep::Next(
                    LoadState::Program {
                        program: Program::FileOpen,
                        stage: Stage::Lookup,
                        hiding: false,
                    },
                ),
            },
            LoadState::Program { program, stage, hiding } => Self::program_step(
                program,
                stage,
                hiding,
                event,
            ),
            LoadState::PidMap => {
                match Self::get_pid_map(Self::taken(event)) {
                    Ok(()) => LoadStep::Next(LoadState::ForcedMap),
                    Err(err) => LoadStep::Failed(err),
                }
            },
            LoadState::ForcedMap => {
                match Self::get_forced_pid_map(Self::taken(event)) {
                    Ok(()) => LoadStep::Ready(Self::loaded()),
                    Err(err) => LoadStep::Failed(err),
                }
            },
        }
    }

    fn taken(event: LoadEvent) -> (taken: TakenMap)
        ensures
            match event {
                LoadEvent::Done => taken is Taken,
                LoadEvent::Missing => taken is Missing,
                LoadEvent::Failed(reason) => taken == TakenMap::Rejected(reason),
            },
    {
        match event {
            LoadEvent::Done => TakenMap::Taken,
            LoadEvent::Missing => TakenMap::Missing,
            LoadEvent::Failed(reason) => TakenMap::Rejected(reason),
        }
    }

    fn program_step(program: Program, stage: Stage, hiding: bool, event: LoadEvent) -> (step:
        LoadStep)
        requires
            answers(at(program, stage, hiding), event),
        ensures
            match step {
                LoadStep::Next(next) => next_state(at(program, stage, hiding), event) == Some(next),
                LoadStep::Ready(_) => false,
                LoadStep::Failed(err) => next_state(at(program, stage, hiding), event) is None
                    && is_load_error(at(program, stage, hiding), event, err),
            },
    {
        let optional = match program {
            Program::ExitGetdents => true,
            Program::EnterGetdents => true,
            _ => false,
        };
        match stage {
            Stage::Lookup => match event {
                LoadEvent::Missing => LoadStep::Failed(
                    CardwireEbpfError::missing_lsm(program.name()),
                ),
                LoadEvent::Failed(reason) => LoadStep::Failed(CardwireEbpfError::aya(reason)),
                LoadEvent::Done => {
                    if program == Program::EnterGetdents && !hiding {
                        return LoadStep::Next(LoadState::PidMap);
                    }
                    LoadStep::Next(LoadState::Program { program, stage: Stage::Load, hiding })
                },
            },
            Stage::Load => match event {
                LoadEvent::Failed(reason) => {
                    if optional {
                        LoadStep::Next(program.next(hiding))
                    } else {
                        LoadStep::Failed(CardwireEbpfError::aya(reason))
                    }
                },
                _ => LoadStep::Next(LoadState::Program { program, stage: Stage::Attach, hiding }),
            },
            Stage::Attach => match event {
                LoadEvent::Failed(reason) => {
                    if optional {
                        LoadStep::Next(program.next(hiding))
                    } else {
                        LoadStep::Failed(CardwireEbpfError::aya(reason))
                    }
                },
                _ => LoadStep::Next(program.next(hiding || program == Program::ExitGetdents)),
            },
        }
    }
}

/// One action of a load, and how it went.
pub struct LoadEntry {
    pub state: LoadState,
    pub event: LoadEvent,
}

/// A load from its beginning: each action follows from how the one before it went.
pub open spec fn is_load(log: Seq<LoadEntry>) -> bool {
    &&& log.len() > 0
    &&& log[0].state is Object
    &&& forall|i: int| 0 <= i < log.len() ==> answers((#[trigger] log[i]).state, log[i].event)
    &&& forall|i: int| 0 < i < log.len() ==> #[trigger] follows(log, i)
}

/// Action `i` follows from how the one before it went.
pub open spec fn follows(log: Seq<LoadEntry>, i: int) -> bool {
    next_state(log[i - 1].state, log[i - 1].event) == Some(log[i].state)
}

/// The program was attached at step `i`.
pub open spec fn attached_at(log: Seq<LoadEntry>, program: Program, i: int) -> bool {
    &&& 0 <= i < log.len()
    &&& log[i].state matches LoadState::Program { program: p, stage, .. } && p == program
        && stage is Attach
    &&& log[i].event is Done
}

/// The program was attached before step `k`.
pub open spec fn attached(log: Seq<LoadEntry>, program: Program, k: int) -> bool {
    exists|i: int| i < k && #[trigger] attached_at(log, program, i)
}

/// How many of the required programs come before a state.
spec fn required_before(state: LoadState) -> int {
    match state {
        LoadState::Object => 0,
        LoadState::Btf => 0,
        LoadState::Program { program, .. } => if program.rank() < 5 {
            program.rank()
        } else {
            5
        },
        LoadState::PidMap => 5,
        LoadState::ForcedMap => 5,
    }
}

proof fn lemma_attached_before(log: Seq<LoadEntry>, k: int)
    requires
        is_load(log),
        0 <= k < log.len(),
    ensures
        forall|p: Program| p.rank() < required_before(log[k].state) ==> #[trigger] attached(
            log,
            p,
            k,
        ),
        log[k].state matches LoadState::Program { hiding, .. } ==> (hiding ==> attached(
            log,
            Program::ExitGetdents,
            k,
        )),
        log[k].state matches LoadState::Program { program, stage, hiding }
            ==> (program is EnterGetdents && !(stage is Lookup) ==> hiding),
    decreases k,
{
    if k > 0 {
        lemma_attached_before(log, k - 1);
        let before = log[k - 1];
        let now = log[k];
        assert(follows(log, k));
        assert forall|p: Program| p.rank() < required_before(now.state) implies #[trigger] attached(
            log,
            p,
            k,
        ) by {
            if p.rank() < required_before(before.state) {
                assert(attached(log, p, k - 1));
                let i = choose|i: int| i < k - 1 && #[trigger] attached_at(log, p, i);
                assert(attached_at(log, p, i));
            } else {
                assert(attached_at(log, p, k - 1));
            }
        }
        if let LoadState::Program { hiding, .. } = now.state {
            if hiding {
                if before.state matches LoadState::Program { hiding: h, .. } && h {
                    let i = choose|i: int|
                        i < k - 1 && #[trigger] attached_at(log, Program::ExitGetdents, i);
                    assert(attached_at(log, Program::ExitGetdents, i));
                } else {
                    assert(attached_at(log, Program::ExitGetdents, k - 1));
                }
            }
        }
    }
}

/// The hook at the beginning of a directory listing is only loaded once the hook at its end is
/// attached: otherwise the map between the two would overflow.
pub proof fn law_entry_hook_needs_exit_hook(log: Seq<LoadEntry>, k: int)
    requires
        is_load(log),
        0 <= k < log.len(),
        log[k].state matches LoadState::Program { program, stage, .. } && program is EnterGetdents
            && !(stage is Lookup),
    ensures
        attached(log, Program::ExitGetdents, k),
{
    lemma_attached_before(log, k);
}

/// The kernel side is only up once all required programs are attached.
pub proof fn law_ready_means_guarded(log: Seq<LoadEntry>, program: Program)
    requires
        is_load(log),
        log.last().state is ForcedMap,
        log.last().event is Done,
        program.is_required(),
    ensures
        attached(log, program, log.len() as int),
{
    let k = log.len() - 1;
    lemma_attached_before(log, k);
    assert(attached(log, program, k));
    let i = choose|i: int| i < k && #[trigger] attached_at(log, program, i);
    assert(attached_at(log, program, i));
}

/// That the hiding of entries cannot be loaded or attached never ends a load.
pub proof fn law_hiding_is_optional(program: Program, stage: Stage, hiding: bool, event: LoadEvent)
    requires
        !program.is_required(),
        !(stage is Lookup),
    ensures
        next_state(at(program, stage, hiding), event) is Some,
{
}

/// How many actions are left, at most.
pub open spec fn load_measure(state: LoadState) -> nat {
    match state {
        LoadState::Object => 30,
        LoadState::Btf => 29,
        LoadState::Program { program, stage, .. } => (28 - 3 * program.rank() - match stage {
            Stage::Lookup => 0int,
            Stage::Load => 1int,
            Stage::Attach => 2int,
        }) as nat,
        LoadState::PidMap => 2,
        LoadState::ForcedMap => 1,
    }
}

/// A load comes to its end: each action leaves fewer to do.
pub proof fn law_load_ends(state: LoadState, event: LoadEvent)
    ensures
        next_state(state, event) matches Some(next) ==> load_measure(next) < load_measure(state),
{
}

/// Once the kernel side is up, all three guards are attached, and so are the programs that see
/// processes start and end.
pub proof fn law_ready_means_every_guard_is_attached(log: Seq<LoadEntry>)
    requires
        is_load(log),
        log.last().state is ForcedMap,
        log.last().event is Done,
    ensures
        attached(log, Program::FileOpen, log.len() as int),
        attached(log, Program::InodePermission, log.len() as int),
        attached(log, Program::InodeGetattr, log.len() as int),
        attached(log, Program::SchedExec, log.len() as int),
        attached(log, Program::SchedExit, log.len() as int),
{
    law_ready_means_guarded(log, Program::FileOpen);
    law_ready_means_guarded(log, Program::InodePermission);
    law_ready_means_guarded(log, Program::InodeGetattr);
    law_ready_means_guarded(log, Program::SchedExec);
    law_ready_means_guarded(log, Program::SchedExit);
}

/// A load and what follows from it agree: it goes on where the next action follows, and it is over
/// only at its last one. What is up remembers nothing.
pub proof fn law_load_goes_on_or_ends(state: LoadState, event: LoadEvent, step: LoadStep)
    requires
        answers(state, event),
        call_ensures(EbpfBlocker::load_step, (state, event), step),
    ensures
        step is Ready <==> state is ForcedMap && event is Done,
        step matches LoadStep::Ready(blocker) ==> blocker.pushed().len() == 0,
        step matches LoadStep::Next(next) ==> next_state(state, event) == Some(next),
        event is Done ==> !(step is Failed),
        step is Failed ==> !(event is Done),
        state is Object && event is Done ==> step == LoadStep::Next(LoadState::Btf),
        state is Btf && event is Done ==> (step matches LoadStep::Next(LoadState::Program {
            program,
            stage,
            hiding,
        }) && program is FileOpen && stage is Lookup && !hiding),
        state is PidMap && event is Done ==> step == LoadStep::Next(LoadState::ForcedMap),
{
}

/// What fails ends a load, unless it is the load or the attachment of one of the two hooks that
/// hide entries. A program or a map that is not there always does.
pub proof fn law_failures_end_a_load(state: LoadState, event: LoadEvent, step: LoadStep)
    requires
        answers(state, event),
        !(event is Done),
        call_ensures(EbpfBlocker::load_step, (state, event), step),
    ensures
        step is Failed <==> !(state matches LoadState::Program { program, stage, .. } && (
        program is ExitGetdents || program is EnterGetdents) && (stage is Load || stage is Attach)),
        step matches LoadStep::Failed(err) ==> {
            &&& event matches LoadEvent::Failed(why) ==> err == if state is Object {
                CardwireEbpfError::EbpfLoadError(why)
            } else {
                CardwireEbpfError::Aya(why)
            }
            &&& event is Missing ==> (state is Program <==> err is MissingLsm) && (!(
            state is Program) <==> err is MissingMap)
        },
{
}

/// A program that was found is loaded, and one that was loaded is attached, before the next one is
/// looked up. Only the hook at the beginning of a listing is passed over, where the one at its end
/// is not attached.
pub proof fn law_programs_are_found_loaded_and_attached(
    program: Program,
    stage: Stage,
    hiding: bool,
    step: LoadStep,
)
    requires
        call_ensures(
            EbpfBlocker::load_step,
            (LoadState::Program { program, stage, hiding }, LoadEvent::Done),
            step,
        ),
    ensures
        stage is Lookup && (hiding || !(program is EnterGetdents)) ==> step == LoadStep::Next(
            LoadState::Program { program, stage: Stage::Load, hiding },
        ),
        stage is Lookup && !hiding && program is EnterGetdents ==> step == LoadStep::Next(
            LoadState::PidMap,
        ),
        stage is Load ==> step == LoadStep::Next(
            LoadState::Program { program, stage: Stage::Attach, hiding },
        ),
        stage is Attach && program is FileOpen ==> step == LoadStep::Next(
            LoadState::Program { program: Program::InodePermission, stage: Stage::Lookup, hiding },
        ),
        stage is Attach && program is InodePermission ==> step == LoadStep::Next(
            LoadState::Program { program: Program::InodeGetattr, stage: Stage::Lookup, hiding },
        ),
        stage is Attach && program is InodeGetattr ==> step == LoadStep::Next(
            LoadState::Program { program: Program::SchedExec, stage: Stage::Lookup, hiding },
        ),
        stage is Attach && program is SchedExec ==> step == LoadStep::Next(
            LoadState::Program { program: Program::SchedExit, stage: Stage::Lookup, hiding },
        ),
        stage is Attach && program is SchedExit ==> step == LoadStep::Next(
            LoadState::Program { program: Program::ExitGetdents, stage: Stage::Lookup, hiding },
        ),
        stage is Attach && program is ExitGetdents ==> step == LoadStep::Next(
            LoadState::Program {
                program: Program::EnterGetdents,
                stage: Stage::Lookup,
                hiding: true,
            },
        ),
        stage is Attach && program is EnterGetdents ==> step == LoadStep::Next(LoadState::PidMap),
{
}

/// A program that is attached to an event is called after it: `tracepoint_` and the event's name,
/// without the `sys_` that system calls begin with. The three guards are attached to no event.
pub proof fn law_programs_are_named_after_their_events(
    program: Program,
    name: &'static str,
    point: Option<Tracepoint>,
)
    requires
        call_ensures(Program::name, (program,), name),
        call_ensures(Program::tracepoint, (program,), point),
    ensures
        point is None <==> program is FileOpen || program is InodePermission
            || program is InodeGetattr,
        point matches Some(p) ==> {
            &&& p.category@ == "sched"@ || p.category@ == "syscalls"@
            &&& p.category@ == "sched"@ ==> name@ == "tracepoint_"@ + p.name@
            &&& p.category@ == "syscalls"@ ==> name@ == "tracepoint_"@
                + p.name@.skip(4) && p.name@.take(4) == "sys_"@
        },
{
    reveal_strlit("sched");
    reveal_strlit("syscalls");
    reveal_strlit("sys_");
    reveal_strlit("tracepoint_");
    reveal_strlit("tracepoint_sched_process_exec");
    reveal_strlit("tracepoint_sched_process_exit");
    reveal_strlit("tracepoint_exit_getdents64");
    reveal_strlit("tracepoint_enter_getdents64");
    reveal_strlit("sched_process_exec");
    reveal_strlit("sched_process_exit");
    reveal_strlit("sys_exit_getdents64");
    reveal_strlit("sys_enter_getdents64");
    assert("sched"@.len() != "syscalls"@.len());
    assert("tracepoint_sched_process_exec"@ =~= "tracepoint_"@ + "sched_process_exec"@);
    assert("tracepoint_sched_process_exit"@ =~= "tracepoint_"@ + "sched_process_exit"@);
    assert("tracepoint_exit_getdents64"@ =~= "tracepoint_"@ + "sys_exit_getdents64"@.skip(4));
    assert("tracepoint_enter_getdents64"@ =~= "tracepoint_"@ + "sys_enter_getdents64"@.skip(4));
    assert("sys_exit_getdents64"@.take(4) =~= "sys_"@);
    assert("sys_enter_getdents64"@.take(4) =~= "sys_"@);
}

} // verus!
