use cardwire::helpers::{
    dentry_key, get_task_ppid, inode_key, is_cardwired, is_comm_whitelisted, is_hybrid,
    is_inode_blocked, is_manual, is_nvidia_setting_enabled, is_smart, process_id, Caller,
    DentryProbes, DentryStep, InodeLookup, InodeStep, KeyBuild, ParentStep, PidLookup, Probe,
    HYBRID, INTEGRATED, MANUAL, SMART,
};
use cardwire::keys::{InodeKey, InodeState};

fn unread() -> DentryProbes {
    DentryProbes {
        inode: Probe::Pending,
        name_ptr: Probe::Pending,
        ino: Probe::Pending,
        name: Probe::Pending,
    }
}

fn name_bytes(name: &str) -> [u8; 64] {
    let mut bytes = [0u8; 64];
    bytes[..name.len()].copy_from_slice(name.as_bytes());
    bytes
}

fn ordinary() -> Caller {
    Caller { pid: 100, ppid: Some(1), comm: Some(*b"glxgears\0\0\0\0\0\0\0\0") }
}

fn nobody() -> PidLookup {
    PidLookup { allowed: false, parent_allowed: false, forced: None, parent_forced: None }
}

fn tracked_entry(gpu_id: u32, blocked: bool) -> InodeLookup {
    InodeLookup { entry: Some(InodeState::new(gpu_id, blocked)), nvidia: None, exp: None }
}

fn answer(lookup: &InodeLookup, mode: u8, pids: &PidLookup) -> bool {
    is_inode_blocked(lookup, Some(mode), &ordinary(), pids).blocked
}

#[test]
fn dentry_key_asks_for_one_value_after_the_other() {
    let mut probes = unread();
    assert!(matches!(dentry_key(8, &probes), DentryStep::ReadInode { dentry: 8 }));
    probes.inode = Probe::Read(16);
    assert!(matches!(dentry_key(8, &probes), DentryStep::ReadNamePtr { dentry: 8 }));
    probes.name_ptr = Probe::Read(24);
    assert!(matches!(dentry_key(8, &probes), DentryStep::ReadIno { inode: 16 }));
    probes.ino = Probe::Read(259);
    assert!(matches!(dentry_key(8, &probes), DentryStep::ReadName { name_ptr: 24 }));
    probes.name = Probe::Read(name_bytes("card1"));
    match dentry_key(8, &probes) {
        DentryStep::Done(KeyBuild::Key(key)) => assert_eq!(key, InodeKey::new("card1", 259)),
        other => panic!("{:?}", other),
    }
}

#[test]
fn dentries_without_a_name_have_no_key() {
    let mut probes = unread();
    assert!(matches!(dentry_key(0, &probes), DentryStep::Done(KeyBuild::Unnamed)));
    probes.inode = Probe::Read(0);
    assert!(matches!(dentry_key(8, &probes), DentryStep::Done(KeyBuild::Unnamed)));
    probes.inode = Probe::Read(16);
    probes.name_ptr = Probe::Read(0);
    assert!(matches!(dentry_key(8, &probes), DentryStep::Done(KeyBuild::Unnamed)));
}

#[test]
fn failed_reads_are_told_apart_from_missing_names() {
    let mut probes = unread();
    probes.inode = Probe::Failed;
    assert!(matches!(dentry_key(8, &probes), DentryStep::Done(KeyBuild::ProbeFailed)));
    probes.inode = Probe::Read(16);
    probes.name_ptr = Probe::Failed;
    assert!(matches!(dentry_key(8, &probes), DentryStep::Done(KeyBuild::ProbeFailed)));
    probes.name_ptr = Probe::Read(24);
    probes.ino = Probe::Failed;
    assert!(matches!(dentry_key(8, &probes), DentryStep::Done(KeyBuild::ProbeFailed)));
    probes.ino = Probe::Read(1);
    probes.name = Probe::Failed;
    assert!(matches!(dentry_key(8, &probes), DentryStep::Done(KeyBuild::ProbeFailed)));
}

#[test]
fn inode_key_steps_back_from_the_link() {
    assert!(matches!(inode_key(0, None, 16), InodeStep::Done(KeyBuild::Unnamed)));
    assert!(matches!(inode_key(8, None, 16), InodeStep::ReadAlias { inode: 8 }));
    assert!(matches!(inode_key(8, Some(0), 16), InodeStep::Done(KeyBuild::Unnamed)));
    assert!(matches!(inode_key(8, Some(100), 16), InodeStep::Dentry { dentry: 84 }));
    assert!(matches!(
        inode_key(8, Some(1), 2),
        InodeStep::Dentry { dentry: u64::MAX }
    ));
}

#[test]
fn parent_is_found_through_the_task() {
    assert!(matches!(
        get_task_ppid(0, Probe::Pending, Probe::Pending),
        ParentStep::Done(None)
    ));
    assert!(matches!(
        get_task_ppid(8, Probe::Pending, Probe::Pending),
        ParentStep::ReadParent { task: 8 }
    ));
    assert!(matches!(
        get_task_ppid(8, Probe::Failed, Probe::Pending),
        ParentStep::Done(None)
    ));
    assert!(matches!(
        get_task_ppid(8, Probe::Read(0), Probe::Pending),
        ParentStep::Done(None)
    ));
    assert!(matches!(
        get_task_ppid(8, Probe::Read(16), Probe::Pending),
        ParentStep::ReadTgid { parent: 16 }
    ));
    assert!(matches!(
        get_task_ppid(8, Probe::Read(16), Probe::Failed),
        ParentStep::Done(None)
    ));
    assert!(matches!(
        get_task_ppid(8, Probe::Read(16), Probe::Read(42)),
        ParentStep::Done(Some(42))
    ));
}

#[test]
fn process_id_is_the_upper_half() {
    assert_eq!(process_id(0x0000_002a_0000_0007), 42);
    assert_eq!(process_id(u64::MAX), u32::MAX);
}

#[test]
fn unreadable_parent_counts_as_no_process() {
    let mut caller = ordinary();
    assert_eq!(caller.parent_pid(), 1);
    caller.ppid = None;
    assert_eq!(caller.parent_pid(), u32::MAX);
}

#[test]
fn integrated_mode_refuses_blocked_entries_to_everyone() {
    let mut allowed = nobody();
    allowed.allowed = true;
    allowed.forced = Some(1);
    assert!(answer(&tracked_entry(1, true), INTEGRATED, &nobody()));
    assert!(answer(&tracked_entry(1, true), INTEGRATED, &allowed));
    assert!(!answer(&tracked_entry(1, false), INTEGRATED, &nobody()));
}

#[test]
fn hybrid_mode_refuses_nothing() {
    assert!(!answer(&tracked_entry(1, true), HYBRID, &nobody()));
}

#[test]
fn unknown_mode_refuses_nothing() {
    let verdict = is_inode_blocked(&tracked_entry(1, true), None, &ordinary(), &nobody());
    assert!(!verdict.blocked && verdict.report.is_none());
    assert!(!answer(&tracked_entry(1, true), 9, &nobody()));
}

#[test]
fn entries_that_are_not_tracked_stay_open() {
    let lookup = InodeLookup { entry: None, nvidia: Some(true), exp: None };
    for mode in [INTEGRATED, HYBRID, MANUAL, SMART] {
        assert!(!answer(&lookup, mode, &nobody()));
    }
}

#[test]
fn manual_mode_holds_forced_processes_to_their_gpu() {
    assert!(answer(&tracked_entry(1, true), MANUAL, &nobody()));
    assert!(!answer(&tracked_entry(1, false), MANUAL, &nobody()));
    let mut forced = nobody();
    forced.forced = Some(1);
    forced.parent_forced = Some(2);
    assert!(!answer(&tracked_entry(1, true), MANUAL, &forced));
    assert!(answer(&tracked_entry(2, false), MANUAL, &forced));
    forced.forced = None;
    assert!(!answer(&tracked_entry(2, true), MANUAL, &forced));
}

#[test]
fn smart_mode_opens_to_allowed_processes_and_their_children() {
    let mut pids = nobody();
    assert!(answer(&tracked_entry(1, true), SMART, &pids));
    assert!(!answer(&tracked_entry(0, true), SMART, &pids));
    pids.parent_allowed = true;
    assert!(!answer(&tracked_entry(1, true), SMART, &pids));
    pids.parent_allowed = false;
    pids.allowed = true;
    assert!(!answer(&tracked_entry(1, true), SMART, &pids));
    pids.allowed = false;
    pids.parent_forced = Some(1);
    assert!(!answer(&tracked_entry(1, true), SMART, &pids));
    assert!(answer(&tracked_entry(0, false), SMART, &pids));
}

#[test]
fn shared_nvidia_entries_follow_the_setting() {
    let mut lookup = InodeLookup { entry: None, nvidia: Some(true), exp: Some(1) };
    assert!(answer(&lookup, INTEGRATED, &nobody()));
    lookup.nvidia = Some(false);
    assert!(!answer(&lookup, INTEGRATED, &nobody()));
    lookup.nvidia = None;
    assert!(!answer(&lookup, INTEGRATED, &nobody()));
    assert!(is_nvidia_setting_enabled(Some(true)));
    assert!(!is_nvidia_setting_enabled(Some(false)));
    assert!(!is_nvidia_setting_enabled(None));
}

#[test]
fn shared_nvidia_entries_have_no_owner() {
    let verdict = |value: u32, mode: u8, pids: &PidLookup| {
        let lookup = InodeLookup { entry: None, nvidia: Some(true), exp: Some(value) };
        let verdict = is_inode_blocked(&lookup, Some(mode), &ordinary(), pids);
        (verdict.blocked, verdict.report.map(|event| event.gpu_id))
    };
    let mut forced = nobody();
    forced.forced = Some(1);
    let mut allowed = nobody();
    allowed.parent_allowed = true;
    for value in [0, 1, 2] {
        for pids in [nobody(), forced, allowed] {
            assert_eq!(verdict(value, INTEGRATED, &pids), (true, Some(0)));
            assert_eq!(verdict(value, MANUAL, &pids), (true, Some(0)));
            assert_eq!(verdict(value, HYBRID, &pids), (false, None));
        }
        assert_eq!(verdict(value, SMART, &nobody()), (true, Some(0)));
        assert_eq!(verdict(value, SMART, &forced), (true, Some(0)));
        assert_eq!(verdict(value, SMART, &allowed), (false, None));
    }
}

#[test]
fn tracked_state_goes_before_the_shared_block() {
    let lookup = InodeLookup {
        entry: Some(InodeState::new(1, false)),
        nvidia: Some(true),
        exp: Some(1),
    };
    assert!(!answer(&lookup, INTEGRATED, &nobody()));
}

#[test]
fn refusals_are_reported() {
    let verdict =
        is_inode_blocked(&tracked_entry(3, true), Some(INTEGRATED), &ordinary(), &nobody());
    let report = verdict.report.unwrap();
    assert_eq!((report.pid, report.gpu_id), (100, 3));
    assert_eq!(&report.comm[..8], b"glxgears");
    let mut caller = ordinary();
    caller.comm = None;
    let verdict = is_inode_blocked(&tracked_entry(3, true), Some(INTEGRATED), &caller, &nobody());
    assert_eq!(verdict.report.unwrap().comm, [0u8; 16]);
}

#[test]
fn daemon_and_modes_are_recognised() {
    assert_eq!(is_cardwired(5, Some(5)), Some(true));
    assert_eq!(is_cardwired(5, Some(6)), Some(false));
    assert_eq!(is_cardwired(5, None), None);
    assert_eq!(is_hybrid(Some(1)), Some(true));
    assert_eq!(is_hybrid(Some(0)), Some(false));
    assert_eq!(is_smart(Some(3)), Some(true));
    assert_eq!(is_manual(Some(2)), Some(true));
    assert_eq!(is_manual(None), None);
    assert!(is_comm_whitelisted(Some(true)));
    assert!(!is_comm_whitelisted(Some(false)));
    assert!(!is_comm_whitelisted(None));
}
