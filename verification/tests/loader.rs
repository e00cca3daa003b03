use cardwire::blocker::{is_lockdown_enabled, EbpfBlocker, TakenMap};
use cardwire::errors::CardwireEbpfError;
use cardwire::loader::{LoadEvent, LoadState, LoadStep, Program, Stage};

/// Loads with the given events in place of success.
fn load(
    event: impl Fn(LoadState) -> LoadEvent,
) -> (Vec<LoadState>, Result<(), CardwireEbpfError>) {
    let mut state = EbpfBlocker::new(Some("lockdown,bpf")).unwrap();
    let mut seen = Vec::new();
    loop {
        seen.push(state);
        match EbpfBlocker::load_step(state, event(state)) {
            LoadStep::Next(next) => state = next,
            LoadStep::Ready(_) => return (seen, Ok(())),
            LoadStep::Failed(err) => return (seen, Err(err)),
        }
    }
}

fn stage_of(program: Program, stage: Stage) -> impl Fn(LoadState) -> bool {
    move |state| {
        matches!(state, LoadState::Program { program: p, stage: s, .. } if p == program && s == stage)
    }
}

fn failing_at(program: Program, stage: Stage) -> impl Fn(LoadState) -> LoadEvent {
    move |state| {
        if stage_of(program, stage)(state) {
            LoadEvent::Failed("refused".to_string())
        } else {
            LoadEvent::Done
        }
    }
}

#[test]
fn loading_needs_the_security_module() {
    assert!(matches!(EbpfBlocker::new(Some("lockdown,yama")), Err(CardwireEbpfError::LSMNotEnabled)));
    assert!(matches!(EbpfBlocker::new(None), Err(CardwireEbpfError::LSMNotEnabled)));
    assert_eq!(EbpfBlocker::new(Some("bpf")).unwrap(), LoadState::Object);
}

#[test]
fn all_programs_are_looked_up_loaded_and_attached() {
    let (seen, outcome) = load(|_| LoadEvent::Done);
    assert!(outcome.is_ok());
    assert_eq!(seen.len(), 2 + 7 * 3 + 2);
    for program in [
        Program::FileOpen,
        Program::InodePermission,
        Program::InodeGetattr,
        Program::SchedExec,
        Program::SchedExit,
        Program::ExitGetdents,
        Program::EnterGetdents,
    ] {
        for stage in [Stage::Lookup, Stage::Load, Stage::Attach] {
            assert_eq!(seen.iter().filter(|s| stage_of(program, stage)(**s)).count(), 1);
        }
    }
}

#[test]
fn hiding_hooks_may_be_refused() {
    for stage in [Stage::Load, Stage::Attach] {
        let (seen, outcome) = load(failing_at(Program::ExitGetdents, stage));
        assert!(outcome.is_ok());
        assert!(!seen.iter().any(|s| stage_of(Program::EnterGetdents, Stage::Load)(*s)));
        assert!(seen.iter().any(|s| stage_of(Program::EnterGetdents, Stage::Lookup)(*s)));
        let (_, outcome) = load(failing_at(Program::EnterGetdents, stage));
        assert!(outcome.is_ok());
    }
}

#[test]
fn guards_must_not_be_refused() {
    for program in [
        Program::FileOpen,
        Program::InodePermission,
        Program::InodeGetattr,
        Program::SchedExec,
        Program::SchedExit,
    ] {
        for stage in [Stage::Load, Stage::Attach] {
            let (_, outcome) = load(failing_at(program, stage));
            match outcome {
                Err(CardwireEbpfError::Aya(reason)) => assert_eq!(reason, "refused"),
                other => panic!("{:?}", other),
            }
        }
    }
}

#[test]
fn missing_programs_and_maps_end_the_load() {
    let (_, outcome) = load(|state| {
        if stage_of(Program::ExitGetdents, Stage::Lookup)(state) {
            LoadEvent::Missing
        } else {
            LoadEvent::Done
        }
    });
    match outcome {
        Err(CardwireEbpfError::MissingLsm { name }) => {
            assert_eq!(name, "tracepoint_exit_getdents64")
        }
        other => panic!("{:?}", other),
    }
    for (at, map) in
        [(LoadState::PidMap, "CW_ALLOWED_PID"), (LoadState::ForcedMap, "CW_FORCED_PID")]
    {
        let (_, outcome) =
            load(|state| if state == at { LoadEvent::Missing } else { LoadEvent::Done });
        match outcome {
            Err(CardwireEbpfError::MissingMap { name }) => assert_eq!(name, map),
            other => panic!("{:?}", other),
        }
    }
    let (_, outcome) = load(|state| {
        if state == LoadState::Object {
            LoadEvent::Failed("no object".to_string())
        } else {
            LoadEvent::Done
        }
    });
    match outcome {
        Err(CardwireEbpfError::EbpfLoadError(reason)) => assert_eq!(reason, "no object"),
        other => panic!("{:?}", other),
    }
}

#[test]
fn programs_are_attached_to_their_events() {
    assert_eq!(Program::FileOpen.name(), "file_open");
    assert!(Program::InodeGetattr.tracepoint().is_none());
    let point = Program::SchedExec.tracepoint().unwrap();
    assert_eq!((point.category, point.name), ("sched", "sched_process_exec"));
    let point = Program::EnterGetdents.tracepoint().unwrap();
    assert_eq!((point.category, point.name), ("syscalls", "sys_enter_getdents64"));
    assert_eq!(Program::EnterGetdents.name(), "tracepoint_enter_getdents64");
}

#[test]
fn lockdown_is_read_from_the_chosen_level() {
    assert!(is_lockdown_enabled(Some("none [integrity] confidentiality")));
    assert!(is_lockdown_enabled(Some("none integrity [confidentiality]")));
    assert!(!is_lockdown_enabled(Some("[none] integrity confidentiality")));
    assert!(!is_lockdown_enabled(None));
}

#[test]
fn maps_are_taken_by_name() {
    let takers: [(fn(TakenMap) -> Result<(), CardwireEbpfError>, &str); 5] = [
        (EbpfBlocker::get_exec_ring, "CW_EXEC_EVENTS"),
        (EbpfBlocker::get_report_ring, "CW_REPORT_EVENTS"),
        (EbpfBlocker::get_pid_map, "CW_ALLOWED_PID"),
        (EbpfBlocker::get_forced_pid_map, "CW_FORCED_PID"),
        (EbpfBlocker::get_mode_map, "CW_MODE"),
    ];
    for (take, map) in takers {
        assert!(take(TakenMap::Taken).is_ok());
        match take(TakenMap::Missing) {
            Err(CardwireEbpfError::MissingMap { name }) => assert_eq!(name, map),
            other => panic!("{:?}", other),
        }
        match take(TakenMap::Rejected("wrong kind".to_string())) {
            Err(CardwireEbpfError::Aya(reason)) => assert_eq!(reason, "wrong kind"),
            other => panic!("{:?}", other),
        }
    }
}
