use cardwire::blocker::EbpfBlocker;
use cardwire::keys::{InodeKey, InodeState};
use cardwire::maps::MapUpdate;

#[test]
fn test_comm_to_key_short_string() {
    let key = EbpfBlocker::comm_to_key("pacman");
    assert_eq!(&key[..6], b"pacman");
    assert_eq!(&key[6..], &[0u8; 10]);
}

#[test]
fn test_comm_to_key_exact_15_bytes() {
    let name = "123456789012345";
    let key = EbpfBlocker::comm_to_key(name);
    assert_eq!(&key[..15], name.as_bytes());
    assert_eq!(key[15], 0);
}

#[test]
fn test_comm_to_key_truncates_to_15_bytes_reserving_nul() {
    let name = "1234567890123456789";
    let key = EbpfBlocker::comm_to_key(name);
    assert_eq!(&key[..15], b"123456789012345");
    assert_eq!(key[15], 0);
}

#[test]
fn same_inode_with_different_names_is_not_the_same_key() {
    let card = InodeKey::new("card1", 259);
    let render = InodeKey::new("renderD129", 259);

    assert_ne!(card, render);
    assert_eq!(card.ino, render.ino);
}

#[test]
fn short_names_are_zero_padded() {
    let key = InodeKey::new("sys", 13670);

    assert_eq!(&key.name[..3], b"sys");
    assert_eq!(&key.name[3..], &[0u8; 61]);
    assert_eq!(key.ino, 13670);
}

#[test]
fn names_longer_than_63_bytes_are_truncated() {
    let long = "x".repeat(100);
    let key = InodeKey::new(&long, 1);

    assert_eq!(&key.name[..63], &long.as_bytes()[..63]);
    assert_eq!(&key.name[63..], &[0u8; 1]);
}

#[test]
fn same_name_with_different_inodes_is_not_the_same_key() {
    assert_ne!(InodeKey::new("card1", 1), InodeKey::new("card1", 2));
    assert_eq!(InodeKey::new("card1", 1), InodeKey::new("card1", 1));
}

#[test]
fn names_are_cut_by_bytes_not_characters() {
    let long = "\u{e9}".repeat(40);
    let key = InodeKey::new(&long, 1);
    assert_eq!(&key.name[..63], &long.as_bytes()[..63]);
    assert_eq!(key.name[63], 0);
}

#[test]
fn states_hold_gpu_and_block() {
    let blocked = InodeState::new(7, true);
    assert_eq!((blocked.gpu_id, blocked.blocked, blocked._padding), (7, 1, [0, 0, 0]));
    let open = InodeState::new(7, false);
    assert_eq!((open.gpu_id, open.blocked, open._padding), (7, 0, [0, 0, 0]));
}

#[test]
fn updates_name_their_maps() {
    let key = InodeKey::new("card0", 1);
    let cases = vec![
        (MapUpdate::InsertInode { key, state: InodeState::new(0, true) }, "CW_BLOCKED_INO"),
        (MapUpdate::RemoveInode { key }, "CW_BLOCKED_INO"),
        (MapUpdate::InsertExpInode { key, value: 0 }, "CW_EXP_BLK_INO"),
        (MapUpdate::RemoveExpInode { key }, "CW_EXP_BLK_INO"),
        (MapUpdate::Setting { key: 0, value: 1 }, "CW_SETTINGS"),
        (MapUpdate::AllowComm { comm: [0; 16] }, "CW_ALLOWED_COMM"),
        (MapUpdate::DaemonPid { pid: 1 }, "CW_DAEMON_PID"),
        (MapUpdate::Mode { mode: 1 }, "CW_MODE"),
    ];
    for (update, name) in cases {
        assert_eq!(update.map_name(), name);
    }
}
