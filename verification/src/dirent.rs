//! Hiding blocked entries from a directory listing.
//!
//! A listing is a buffer of records, each of which says how long it is. An entry is hidden by
//! making the record before it longer, so that a reader skips it.
use crate::helpers::Probe;
use crate::keys::InodeKey;
use vstd::prelude::*;

verus! {

/// The scan ran to completion, or stopped where nothing more can be trusted to be a record.
pub const SCAN_OK: u32 = 0;

/// A record could not be read, the listing must not be trusted.
pub const SCAN_READ_FAILED: u32 = 1;

/// A hidden entry could not be merged into the previous one, the scan stopped.
pub const SCAN_WRITE_FAILED: u32 = 2;

/// Bytes of a record's header.
pub const DIRENT_SIZE: u64 = 24;

/// Where the record length stands in a record.
pub const RECLEN_OFFSET: u64 = 16;

/// Where the name begins in a record.
pub const NAME_OFFSET: u64 = 19;

/// Longest record that is taken for one.
pub const RECLEN_MAX: u16 = 512;

/// Longest listing that is scanned.
pub const GETDENTS_BUF_MAX: u64 = 32768;

/// Iteration bound of a scan.
///
/// A buffer holds at most `GETDENTS_BUF_MAX / DIRENT_SIZE` records, and one more iteration sees
/// that there are no more.
pub const MAX_DIRENTS: u32 = 1366;

/// State of a scan.
#[derive(Copy, Clone, Debug)]
pub struct ScanCtx {
    /// Address of the record being inspected.
    pub dirent_ptr: u64,
    /// First address past the buffer.
    pub end: u64,
    /// Address of the last visible record before the cursor, 0 if there is none yet.
    pub prev_ptr: u64,
    /// Length of the record at `prev_ptr`, hidden entries merged into it included.
    pub prev_reclen: u16,
    /// One of the `SCAN_` constants.
    pub status: u32,
    /// Error code of the failed write, where `status` is [`SCAN_WRITE_FAILED`].
    pub errno: i32,
}

/// What a record's header says.
#[derive(Copy, Clone, Debug)]
pub struct DirentHeader {
    pub ino: u64,
    pub reclen: u16,
}

/// What is known so far of the record being inspected.
#[derive(Copy, Clone, Debug)]
pub struct DirentProbes {
    pub header: Probe<DirentHeader>,
    /// The name, cut and zero-filled to 64 bytes.
    pub name: Probe<[u8; 64]>,
    /// Whether the entry is refused to the process that lists the directory.
    pub blocked: Option<bool>,
    /// Outcome of the write that was asked for.
    pub write: Option<Result<(), i32>>,
}

/// Nothing is known of the record yet.
pub open spec fn nothing_read() -> DirentProbes {
    DirentProbes { header: Probe::Pending, name: Probe::Pending, blocked: None, write: None }
}

/// What to do next in a scan.
#[derive(Copy, Clone, Debug)]
pub enum ScanStep {
    /// Read the record header at this address.
    ReadHeader { address: u64 },
    /// Read the name at this address.
    ReadName { address: u64 },
    /// Decide whether this entry is refused.
    Judge { key: InodeKey },
    /// Write this record length at this address.
    WriteReclen { address: u64, reclen: u16 },
    /// Go on with the next record.
    Continue,
    /// Stop scanning.
    Stop,
}

/// `a + b` in 64-bit address arithmetic.
pub open spec fn wrap64(a: int, b: int) -> u64 {
    ((a + b) % 0x1_0000_0000_0000_0000) as u64
}

/// A record length that can be one.
pub open spec fn valid_reclen(reclen: u16) -> bool {
    DIRENT_SIZE <= reclen <= RECLEN_MAX
}

/// The scan state past a record that stays visible.
pub open spec fn past_visible(scan: ScanCtx, reclen: u16) -> ScanCtx {
    ScanCtx {
        dirent_ptr: wrap64(scan.dirent_ptr as int, reclen as int),
        prev_ptr: scan.dirent_ptr,
        prev_reclen: reclen,
        ..scan
    }
}

/// The length of the previous record once a record of length `reclen` is merged into it.
pub open spec fn merged_reclen(scan: ScanCtx, reclen: u16) -> u16 {
    ((scan.prev_reclen + reclen) % 0x1_0000) as u16
}

/// What a scan does next, given what is known of the record at its cursor.
pub open spec fn scan_step(scan: ScanCtx, known: DirentProbes) -> (ScanCtx, ScanStep) {
    if wrap64(scan.dirent_ptr as int, DIRENT_SIZE as int) > scan.end {
        (scan, ScanStep::Stop)
    } else {
        match known.header {
            Probe::Pending => (scan, ScanStep::ReadHeader { address: scan.dirent_ptr }),
            Probe::Failed => (
                ScanCtx { status: SCAN_READ_FAILED, ..scan },
                ScanStep::Stop,
            ),
            Probe::Read(header) => if !valid_reclen(header.reclen) {
                (scan, ScanStep::Stop)
            } else {
                scan_record(scan, header, known)
            },
        }
    }
}

/// What a scan does next with a record whose header is sound.
pub open spec fn scan_record(scan: ScanCtx, header: DirentHeader, known: DirentProbes) -> (
    ScanCtx,
    ScanStep,
) {
    match (known.name, known.blocked) {
        (Probe::Pending, _) => (
            scan,
            ScanStep::ReadName { address: wrap64(scan.dirent_ptr as int, NAME_OFFSET as int) },
        ),
        (Probe::Failed, _) => (ScanCtx { status: SCAN_READ_FAILED, ..scan }, ScanStep::Stop),
        (Probe::Read(name), None) => (
            scan,
            ScanStep::Judge { key: InodeKey { name, ino: header.ino } },
        ),
        (Probe::Read(_), Some(false)) => (past_visible(scan, header.reclen), ScanStep::Continue),
        (Probe::Read(_), Some(true)) => if scan.prev_ptr == 0 {
            // Nothing before it to merge it into: the entry stays visible.
            (
                ScanCtx {
                    dirent_ptr: wrap64(scan.dirent_ptr as int, header.reclen as int),
                    ..scan
                },
                ScanStep::Continue,
            )
        } else {
            match known.write {
                None => (
                    scan,
                    ScanStep::WriteReclen {
                        address: wrap64(scan.prev_ptr as int, RECLEN_OFFSET as int),
                        reclen: merged_reclen(scan, header.reclen),
                    },
                ),
                Some(Err(errno)) => (
                    ScanCtx { status: SCAN_WRITE_FAILED, errno, ..scan },
                    ScanStep::Stop,
                ),
                Some(Ok(())) => (
                    ScanCtx {
                        dirent_ptr: wrap64(scan.dirent_ptr as int, header.reclen as int),
                        prev_reclen: merged_reclen(scan, header.reclen),
                        ..scan
                    },
                    ScanStep::Continue,
                ),
            }
        },
    }
}

/// One iteration of the scan of a directory listing.
///
/// Called again with each value that was read, until it says to go on with the next record or
/// to stop. Only then does the state change.
pub fn scan_dirent(scan: &mut ScanCtx, known: &DirentProbes) -> (step: ScanStep)
    ensures
        (*final(scan), step) == scan_step(*old(scan), *known),
        !(step is Continue) && !(step is Stop) ==> *final(scan) == *old(scan),
{
    if scan.dirent_ptr.wrapping_add(DIRENT_SIZE) > scan.end {
        return ScanStep::Stop;
    }
    let header = match known.header {
        Probe::Pending => {
            return ScanStep::ReadHeader { address: scan.dirent_ptr };
        },
        Probe::Failed => {
            scan.status = SCAN_READ_FAILED;
            return ScanStep::Stop;
        },
        Probe::Read(header) => header,
    };
    let reclen: u16 = header.reclen;
    // A record shorter than its own header cannot be valid, and advancing by it would also break
    // the iteration bound.
    if (reclen as u64) < DIRENT_SIZE || reclen > RECLEN_MAX {
        return ScanStep::Stop;
    }
    let name = match known.name {
        Probe::Pending => {
            return ScanStep::ReadName { address: scan.dirent_ptr.wrapping_add(NAME_OFFSET) };
        },
        Probe::Failed => {
            scan.status = SCAN_READ_FAILED;
            return ScanStep::Stop;
        },
        Probe::Read(name) => name,
    };
    let blocked = match known.blocked {
        None => {
            return ScanStep::Judge { key: InodeKey { name, ino: header.ino } };
        },
        Some(blocked) => blocked,
    };
    if blocked {
        if scan.prev_ptr != 0 {
            let new_reclen: u16 = scan.prev_reclen.wrapping_add(reclen);
            match known.write {
                None => {
                    return ScanStep::WriteReclen {
                        address: scan.prev_ptr.wrapping_add(RECLEN_OFFSET),
                        reclen: new_reclen,
                    };
                },
                Some(Err(errno)) => {
                    scan.status = SCAN_WRITE_FAILED;
                    scan.errno = errno;
                    return ScanStep::Stop;
                },
                Some(Ok(())) => {},
            }
            scan.prev_reclen = new_reclen;
        }
    } else {
        scan.prev_ptr = scan.dirent_ptr;
        scan.prev_reclen = reclen;
    }
    scan.dirent_ptr = scan.dirent_ptr.wrapping_add(reclen as u64);
    ScanStep::Continue
}

} // verus!
