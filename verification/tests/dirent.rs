use cardwire::dirent::{
    scan_dirent, DirentHeader, DirentProbes, ScanCtx, ScanStep, MAX_DIRENTS, SCAN_OK,
    SCAN_READ_FAILED, SCAN_WRITE_FAILED,
};
use cardwire::helpers::Probe;
use cardwire::keys::InodeKey;

const BASE: u64 = 0x1000;

/// A directory listing in the memory of a process.
struct Listing {
    bytes: Vec<u8>,
    unreadable_headers: bool,
    unreadable_names: bool,
    write_error: Option<i32>,
    /// How many writes take place before the error.
    writes_left: usize,
}

fn record(ino: u64, name: &str) -> Vec<u8> {
    let len = (19 + name.len() + 1 + 7) / 8 * 8;
    let mut bytes = vec![0u8; len];
    bytes[..8].copy_from_slice(&ino.to_le_bytes());
    bytes[16..18].copy_from_slice(&(len as u16).to_le_bytes());
    bytes[19..19 + name.len()].copy_from_slice(name.as_bytes());
    bytes
}

fn listing(entries: &[(u64, &str)]) -> Listing {
    let mut bytes = Vec::new();
    for (ino, name) in entries {
        bytes.extend(record(*ino, name));
    }
    Listing {
        bytes,
        unreadable_headers: false,
        unreadable_names: false,
        write_error: None,
        writes_left: 0,
    }
}

impl Listing {
    fn reclen(&self, at: usize) -> u16 {
        u16::from_le_bytes([self.bytes[at + 16], self.bytes[at + 17]])
    }

    fn scan(&mut self, refused: &[InodeKey]) -> ScanCtx {
        let mut scan = ScanCtx {
            dirent_ptr: BASE,
            end: BASE + self.bytes.len() as u64,
            prev_ptr: 0,
            prev_reclen: 0,
            status: SCAN_OK,
            errno: 0,
        };
        for _ in 0..MAX_DIRENTS {
            let mut known = DirentProbes {
                header: Probe::Pending,
                name: Probe::Pending,
                blocked: None,
                write: None,
            };
            loop {
                match scan_dirent(&mut scan, &known) {
                    ScanStep::ReadHeader { address } => {
                        let at = (address - BASE) as usize;
                        let mut ino = [0u8; 8];
                        ino.copy_from_slice(&self.bytes[at..at + 8]);
                        known.header = if self.unreadable_headers {
                            Probe::Failed
                        } else {
                            Probe::Read(DirentHeader {
                                ino: u64::from_le_bytes(ino),
                                reclen: self.reclen(at),
                            })
                        };
                    }
                    ScanStep::ReadName { address } => {
                        let at = (address - BASE) as usize;
                        let mut name = [0u8; 64];
                        for (i, byte) in self.bytes[at..].iter().take(63).enumerate() {
                            if *byte == 0 {
                                break;
                            }
                            name[i] = *byte;
                        }
                        known.name =
                            if self.unreadable_names { Probe::Failed } else { Probe::Read(name) };
                    }
                    ScanStep::Judge { key } => known.blocked = Some(refused.contains(&key)),
                    ScanStep::WriteReclen { address, reclen } => match self.write_error {
                        Some(errno) if self.writes_left == 0 => known.write = Some(Err(errno)),
                        _ => {
                            self.writes_left = self.writes_left.saturating_sub(1);
                            let at = (address - BASE) as usize;
                            self.bytes[at..at + 2].copy_from_slice(&reclen.to_le_bytes());
                            known.write = Some(Ok(()));
                        }
                    },
                    ScanStep::Continue => break,
                    ScanStep::Stop => return scan,
                }
            }
        }
        scan
    }

    /// The names that a reader of the listing finds.
    fn names(&self) -> Vec<String> {
        let mut names = Vec::new();
        let mut at = 0;
        while at + 24 <= self.bytes.len() {
            let name: Vec<u8> =
                self.bytes[at + 19..].iter().copied().take_while(|byte| *byte != 0).collect();
            names.push(String::from_utf8(name).unwrap());
            at += self.reclen(at) as usize;
        }
        names
    }
}

#[test]
fn refused_entries_disappear_from_the_listing() {
    let mut dir = listing(&[
        (1, "."),
        (2, ".."),
        (3, "card0"),
        (4, "card1"),
        (5, "renderD128"),
        (6, "renderD129"),
    ]);
    let refused = [InodeKey::new("card1", 4), InodeKey::new("renderD129", 6)];
    let scan = dir.scan(&refused);
    assert_eq!(scan.status, SCAN_OK);
    assert_eq!(dir.names(), [".", "..", "card0", "renderD128"]);
}

#[test]
fn runs_of_refused_entries_disappear_together() {
    let mut dir = listing(&[(1, "."), (3, "card0"), (4, "card1"), (5, "card2"), (6, "by-path")]);
    let refused =
        [InodeKey::new("card0", 3), InodeKey::new("card1", 4), InodeKey::new("card2", 5)];
    dir.scan(&refused);
    assert_eq!(dir.names(), [".", "by-path"]);
}

#[test]
fn first_entry_cannot_be_hidden() {
    let mut dir = listing(&[(4, "card1"), (5, "card2"), (6, "card3")]);
    let refused = [InodeKey::new("card1", 4), InodeKey::new("card3", 6)];
    dir.scan(&refused);
    assert_eq!(dir.names(), ["card1", "card2"]);
}

#[test]
fn other_inodes_of_the_same_name_stay() {
    let mut dir = listing(&[(1, "."), (40, "card1")]);
    dir.scan(&[InodeKey::new("card1", 4)]);
    assert_eq!(dir.names(), [".", "card1"]);
}

#[test]
fn longest_listing_is_scanned_to_its_end() {
    let mut entries: Vec<(u64, &str)> = vec![(1, "a"); 1364];
    entries.push((2, "b"));
    let mut dir = listing(&entries);
    assert_eq!(dir.bytes.len(), 32760);
    dir.scan(&[InodeKey::new("b", 2)]);
    assert!(!dir.names().contains(&"b".to_string()));
    assert_eq!(MAX_DIRENTS, 1366);
}

#[test]
fn malformed_records_end_the_scan() {
    let mut dir = listing(&[(1, "."), (4, "card1")]);
    dir.bytes[16..18].copy_from_slice(&8u16.to_le_bytes());
    let scan = dir.scan(&[InodeKey::new("card1", 4)]);
    assert_eq!((scan.status, scan.dirent_ptr), (SCAN_OK, BASE));
    dir.bytes[16..18].copy_from_slice(&513u16.to_le_bytes());
    let scan = dir.scan(&[InodeKey::new("card1", 4)]);
    assert_eq!((scan.status, scan.dirent_ptr), (SCAN_OK, BASE));
}

#[test]
fn empty_listing_is_left_alone() {
    let mut dir = listing(&[]);
    assert_eq!(dir.scan(&[]).status, SCAN_OK);
}

#[test]
fn unreadable_records_are_reported() {
    let mut dir = listing(&[(1, ".")]);
    dir.unreadable_headers = true;
    assert_eq!(dir.scan(&[]).status, SCAN_READ_FAILED);
    dir.unreadable_headers = false;
    dir.unreadable_names = true;
    assert_eq!(dir.scan(&[]).status, SCAN_READ_FAILED);
}

#[test]
fn failed_writes_are_reported() {
    let mut dir = listing(&[(1, "."), (4, "card1")]);
    dir.write_error = Some(-14);
    let scan = dir.scan(&[InodeKey::new("card1", 4)]);
    assert_eq!((scan.status, scan.errno), (SCAN_WRITE_FAILED, -14));
    assert_eq!(dir.names(), [".", "card1"]);
}

#[test]
fn broken_off_scan_keeps_the_rest_of_the_listing() {
    let mut dir = listing(&[(1, "."), (4, "card1"), (5, "by-path"), (6, "card2"), (7, "card3")]);
    dir.write_error = Some(-14);
    dir.writes_left = 1;
    let refused = [InodeKey::new("card1", 4), InodeKey::new("card2", 6)];
    let scan = dir.scan(&refused);
    assert_eq!(scan.status, SCAN_WRITE_FAILED);
    assert_eq!(dir.names(), [".", "by-path", "card2", "card3"]);
}
