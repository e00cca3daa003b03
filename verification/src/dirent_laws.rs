//! What a whole scan does to a directory listing.
use crate::dirent::{
    merged_reclen, nothing_read, past_visible, scan_dirent, scan_record, scan_step, valid_reclen,
    wrap64, DirentHeader, DirentProbes, ScanCtx, ScanStep, DIRENT_SIZE, GETDENTS_BUF_MAX, MAX_DIRENTS,
    NAME_OFFSET, RECLEN_MAX, RECLEN_OFFSET, SCAN_OK, SCAN_READ_FAILED,
    SCAN_WRITE_FAILED,
};
use crate::helpers::Probe;
use crate::keys::{padded, InodeKey, NAME_LEN};
use vstd::prelude::*;

verus! {

/// The little-endian number in the first `n` bytes of `bytes`.
pub open spec fn little_endian(bytes: Seq<u8>, n: nat) -> nat
    decreases n,
{
    if n == 0 {
        0
    } else {
        little_endian(bytes.skip(1), (n - 1) as nat) * 256 + bytes[0] as nat
    }
}

/// The length field of the record at offset `at`.
pub open spec fn reclen_at(mem: Seq<u8>, at: int) -> u16 {
    (mem[at + RECLEN_OFFSET] + 256 * mem[at + RECLEN_OFFSET + 1]) as u16
}

/// The bytes of a name: everything before the first NUL.
pub open spec fn until_nul(bytes: Seq<u8>) -> Seq<u8>
    decreases bytes.len(),
{
    if bytes.len() == 0 || bytes[0] == 0 {
        Seq::empty()
    } else {
        seq![bytes[0]] + until_nul(bytes.skip(1))
    }
}

/// `key` names the entry whose record begins `record`.
pub open spec fn names_record(key: InodeKey, record: Seq<u8>) -> bool {
    &&& key.name@ == padded(until_nul(record.skip(NAME_OFFSET as int)), NAME_LEN as nat)
    &&& key.ino == little_endian(record, 8)
}

/// The key of the entry whose record begins `record`.
pub open spec fn record_key(record: Seq<u8>) -> InodeKey {
    choose|key: InodeKey| names_record(key, record)
}

/// The key of the entry whose record stands at offset `at`.
pub open spec fn key_at(mem: Seq<u8>, at: int) -> InodeKey {
    record_key(mem.subrange(at, mem.len() as int))
}

/// How far offset `to` lies ahead of offset `from`.
pub open spec fn distance(from: int, to: int) -> nat {
    if from < to {
        (to - from) as nat
    } else {
        0
    }
}

/// Following the length fields from offset `from` leads exactly to offset `to`, over records of
/// at least a header's size.
pub open spec fn tiles(mem: Seq<u8>, from: int, to: int) -> bool
    decreases distance(from, to),
{
    from == to || (from < to && reclen_at(mem, from) >= DIRENT_SIZE && tiles(
        mem,
        from + reclen_at(mem, from),
        to,
    ))
}

/// The offsets of the records that a reader finds from offset `from` on, up to offset `to`.
pub open spec fn reader_finds(mem: Seq<u8>, from: int, to: int) -> Seq<int>
    decreases distance(from, to),
{
    if from < to && reclen_at(mem, from) >= DIRENT_SIZE {
        seq![from] + reader_finds(mem, from + reclen_at(mem, from), to)
    } else {
        Seq::empty()
    }
}

/// A listing as the kernel hands it out: records that fill the buffer.
pub open spec fn well_formed(mem: Seq<u8>) -> bool {
    &&& mem.len() <= GETDENTS_BUF_MAX
    &&& tiles(mem, 0, mem.len() as int)
    &&& forall|i: int|
        0 <= i < reader_finds(mem, 0, mem.len() as int).len() ==> reclen_at(
            mem,
            #[trigger] reader_finds(mem, 0, mem.len() as int)[i],
        ) <= RECLEN_MAX
}

/// Whether the entry at offset `at` is refused.
pub open spec fn refused_at(mem: Seq<u8>, blocks: spec_fn(InodeKey) -> bool, at: int) -> bool {
    blocks(key_at(mem, at))
}

/// All of these entries are refused.
pub open spec fn all_refused(
    mem: Seq<u8>,
    blocks: spec_fn(InodeKey) -> bool,
    offsets: Seq<int>,
) -> bool {
    forall|i: int| 0 <= i < offsets.len() ==> refused_at(mem, blocks, #[trigger] offsets[i])
}

/// The entries that stay visible: those that are not refused, and those that come before the
/// first entry that is not refused, since there is no record to merge them into.
pub open spec fn visible(
    mem: Seq<u8>,
    blocks: spec_fn(InodeKey) -> bool,
    offsets: Seq<int>,
) -> Seq<int>
    decreases offsets.len(),
{
    if offsets.len() == 0 {
        Seq::empty()
    } else {
        let before = visible(mem, blocks, offsets.drop_last());
        if !refused_at(mem, blocks, offsets.last()) || all_refused(
            mem,
            blocks,
            offsets.drop_last(),
        ) {
            before.push(offsets.last())
        } else {
            before
        }
    }
}

/// `mem` with a length field written at offset `at`.
pub open spec fn write_reclen(mem: Seq<u8>, at: int, reclen: u16) -> Seq<u8> {
    mem.update(at, (reclen % 256) as u8).update(at + 1, (reclen / 256) as u8)
}

/// All that is read and decided of the record at the cursor, memory being readable and writable.
pub open spec fn everything_read(
    scan: ScanCtx,
    mem: Seq<u8>,
    base: u64,
    blocks: spec_fn(InodeKey) -> bool,
) -> DirentProbes {
    let at = scan.dirent_ptr - base;
    let key = key_at(mem, at);
    DirentProbes {
        header: Probe::Read(DirentHeader { ino: key.ino, reclen: reclen_at(mem, at) }),
        name: Probe::Read(key.name),
        blocked: Some(blocks(key)),
        write: Some(Ok(())),
    }
}

/// One iteration over a listing at address `base`: the next state, the listing after it, and
/// whether the scan goes on.
pub open spec fn iterate(
    scan: ScanCtx,
    mem: Seq<u8>,
    base: u64,
    blocks: spec_fn(InodeKey) -> bool,
) -> (ScanCtx, Seq<u8>, bool) {
    let known = everything_read(scan, mem, base, blocks);
    let (next, step) = scan_step(scan, known);
    let mem_next = match scan_step(scan, DirentProbes { write: None, ..known }).1 {
        ScanStep::WriteReclen { address, reclen } => write_reclen(mem, address - base, reclen),
        _ => mem,
    };
    (next, mem_next, step is Continue)
}

/// A scan of at most `bound` iterations: the last state, the listing after it, and whether the
/// scan came to its end.
pub open spec fn scan_all(
    scan: ScanCtx,
    mem: Seq<u8>,
    base: u64,
    blocks: spec_fn(InodeKey) -> bool,
    bound: nat,
) -> (ScanCtx, Seq<u8>, bool)
    decreases bound,
{
    if bound == 0 {
        (scan, mem, false)
    } else {
        let (next, mem_next, more) = iterate(scan, mem, base, blocks);
        if more {
            scan_all(next, mem_next, base, blocks, (bound - 1) as nat)
        } else {
            (next, mem_next, true)
        }
    }
}

/// A scan that is about to begin.
pub open spec fn scan_start(base: u64, len: nat) -> ScanCtx {
    ScanCtx {
        dirent_ptr: base,
        end: (base + len) as u64,
        prev_ptr: 0,
        prev_reclen: 0,
        status: SCAN_OK,
        errno: 0,
    }
}

proof fn lemma_tiles_join(mem: Seq<u8>, a: int, b: int, c: int)
    requires
        tiles(mem, a, b),
        tiles(mem, b, c),
    ensures
        tiles(mem, a, c),
        reader_finds(mem, a, c) == reader_finds(mem, a, b) + reader_finds(mem, b, c),
    decreases distance(a, b),
{
    lemma_tiles_order(mem, a, b);
    lemma_tiles_order(mem, b, c);
    if a == b {
        assert(reader_finds(mem, a, b) =~= Seq::empty());
        assert(reader_finds(mem, a, c) =~= reader_finds(mem, a, b) + reader_finds(mem, b, c));
    } else {
        let next = a + reclen_at(mem, a);
        lemma_tiles_join(mem, next, b, c);
        lemma_tiles_order(mem, next, b);
        assert(reader_finds(mem, a, c) =~= reader_finds(mem, a, b) + reader_finds(mem, b, c));
    }
}

proof fn lemma_tiles_order(mem: Seq<u8>, a: int, b: int)
    requires
        tiles(mem, a, b),
    ensures
        a <= b,
        a < b ==> a + DIRENT_SIZE <= b,
    decreases distance(a, b),
{
    if a < b {
        lemma_tiles_order(mem, a + reclen_at(mem, a), b);
    }
}

/// What a reader finds between two offsets depends on the bytes between them only.
proof fn lemma_reader_local(mem: Seq<u8>, other: Seq<u8>, a: int, b: int)
    requires
        0 <= a,
        b <= mem.len(),
        mem.len() == other.len(),
        forall|i: int| a <= i < b ==> mem[i] == other[i],
        tiles(mem, a, b),
    ensures
        tiles(other, a, b),
        reader_finds(other, a, b) == reader_finds(mem, a, b),
    decreases distance(a, b),
{
    lemma_tiles_order(mem, a, b);
    if a < b {
        let next = a + reclen_at(mem, a);
        lemma_tiles_order(mem, next, b);
        assert(reclen_at(mem, a) == reclen_at(other, a));
        lemma_reader_local(mem, other, next, b);
    }
}

proof fn lemma_write_reclen(mem: Seq<u8>, at: int, reclen: u16)
    requires
        0 <= at,
        at + DIRENT_SIZE <= mem.len(),
    ensures
        write_reclen(mem, at + RECLEN_OFFSET, reclen).len() == mem.len(),
        reclen_at(write_reclen(mem, at + RECLEN_OFFSET, reclen), at) == reclen,
        forall|i: int|
            0 <= i < mem.len() && i != at + RECLEN_OFFSET && i != at + RECLEN_OFFSET + 1
                ==> write_reclen(mem, at + RECLEN_OFFSET, reclen)[i] == mem[i],
{
    assert(reclen / 256 <= 255);
    assert((reclen % 256) + 256 * (reclen / 256) == reclen);
}

/// The scan stands at offset `at`: the records before it read as they should, and those from it
/// on are untouched.
spec fn scan_inv(
    orig: Seq<u8>,
    scan: ScanCtx,
    mem: Seq<u8>,
    base: u64,
    blocks: spec_fn(InodeKey) -> bool,
    at: int,
) -> bool {
    let len = orig.len() as int;
    let before = reader_finds(orig, 0, at);
    &&& 0 <= at <= len
    &&& scan.dirent_ptr == base + at
    &&& scan.end == base + len
    &&& scan.status == SCAN_OK
    &&& mem.len() == len
    &&& tiles(orig, 0, at)
    &&& tiles(orig, at, len)
    &&& forall|i: int| at <= i < len ==> mem[i] == orig[i]
    &&& tiles(mem, 0, at)
    &&& reader_finds(mem, 0, at) == visible(orig, blocks, before)
    &&& scan.prev_ptr == 0 <==> all_refused(orig, blocks, before)
    &&& scan.prev_ptr != 0 ==> prev_inv(scan, mem, base, at)
}

/// The last visible record ends where the scan stands.
spec fn prev_inv(scan: ScanCtx, mem: Seq<u8>, base: u64, at: int) -> bool {
    let prev = scan.prev_ptr - base;
    &&& 0 <= prev
    &&& prev + DIRENT_SIZE <= at
    &&& reclen_at(mem, prev) == scan.prev_reclen
    &&& prev + scan.prev_reclen == at
    &&& tiles(mem, 0, prev)
}

/// One record further, the invariant holds there.
proof fn lemma_scan_inv_step(
    orig: Seq<u8>,
    scan: ScanCtx,
    mem: Seq<u8>,
    base: u64,
    blocks: spec_fn(InodeKey) -> bool,
    at: int,
)
    requires
        well_formed(orig),
        0 < base,
        base + orig.len() + DIRENT_SIZE <= u64::MAX,
        scan_inv(orig, scan, mem, base, blocks, at),
        at < orig.len(),
    ensures
        ({
            let (next, mem_next, more) = iterate(scan, mem, base, blocks);
            &&& more
            &&& scan_inv(orig, next, mem_next, base, blocks, at + reclen_at(orig, at))
            &&& reclen_at(orig, at) >= DIRENT_SIZE
        }),
{
    let len = orig.len() as int;
    let before = reader_finds(orig, 0, at);
    let reclen = reclen_at(orig, at);
    let next_at = at + reclen;
    lemma_tiles_order(orig, at, len);
    lemma_tiles_order(orig, next_at, len);
    assert(reclen_at(mem, at) == reclen);
    assert(mem.subrange(at, len) =~= orig.subrange(at, len));
    let key = key_at(orig, at);
    assert(key_at(mem, at) == key);
    // The record is one of those that a reader of the whole listing finds.
    lemma_tiles_join(orig, 0, at, len);
    let all = reader_finds(orig, 0, len);
    assert(all[before.len() as int] == at);
    assert(reclen <= RECLEN_MAX);
    assert(valid_reclen(reclen));
    // The untouched listing up to the next record.
    assert(tiles(orig, next_at, next_at));
    assert(tiles(orig, at, next_at));
    assert(reader_finds(orig, next_at, next_at) =~= Seq::empty());
    assert(reader_finds(orig, at, next_at) =~= seq![at]);
    lemma_tiles_join(orig, 0, at, next_at);
    let after = reader_finds(orig, 0, next_at);
    assert(after =~= before.push(at));
    assert(after.drop_last() =~= before);
    let known = everything_read(scan, mem, base, blocks);
    assert(scan_step(scan, known) == scan_record(scan, known.header->Read_0, known));
    let (next, mem_next, more) = iterate(scan, mem, base, blocks);
    let hidden = blocks(key) && scan.prev_ptr != 0;
    assert(refused_at(orig, blocks, at) == blocks(key));
    if !hidden {
        assert(mem_next == mem);
        // The record stays where a reader finds it.
        assert(tiles(mem, next_at, next_at));
        assert(tiles(mem, at, next_at));
        assert(reader_finds(mem, next_at, next_at) =~= Seq::empty());
        assert(reader_finds(mem, at, next_at) =~= seq![at]);
        lemma_tiles_join(mem, 0, at, next_at);
        assert(reader_finds(mem, 0, next_at) =~= reader_finds(mem, 0, at).push(at));
        assert(visible(orig, blocks, after) == visible(orig, blocks, before).push(at));
        if blocks(key) {
            assert(next.prev_ptr == 0);
            assert forall|i: int| 0 <= i < after.len() implies refused_at(
                orig,
                blocks,
                #[trigger] after[i],
            ) by {
                if i < before.len() {
                    assert(after[i] == before[i]);
                }
            }
        } else {
            assert(next == past_visible(scan, reclen));
            assert(!refused_at(orig, blocks, after[before.len() as int]));
            assert(!all_refused(orig, blocks, after));
        }
    } else {
        let prev = scan.prev_ptr - base;
        assert(prev + RECLEN_OFFSET < len);
        let joined = merged_reclen(scan, reclen);
        assert(scan.prev_reclen + reclen <= len);
        assert(joined == scan.prev_reclen + reclen);
        assert(wrap64(scan.prev_ptr as int, RECLEN_OFFSET as int) == base + prev + RECLEN_OFFSET);
        assert(mem_next == write_reclen(mem, prev + RECLEN_OFFSET, joined));
        lemma_write_reclen(mem, prev, joined);
        lemma_reader_local(mem, mem_next, 0, prev);
        // Before: the records up to the previous one, and the previous one.
        assert(tiles(mem, at, at));
        assert(tiles(mem, prev, at));
        assert(reader_finds(mem, at, at) =~= Seq::empty());
        assert(reader_finds(mem, prev, at) =~= seq![prev]);
        lemma_tiles_join(mem, 0, prev, at);
        // After: the same records, the last of which now reaches over the hidden one.
        assert(tiles(mem_next, next_at, next_at));
        assert(tiles(mem_next, prev, next_at));
        assert(reader_finds(mem_next, next_at, next_at) =~= Seq::empty());
        assert(reader_finds(mem_next, prev, next_at) =~= seq![prev]);
        lemma_tiles_join(mem_next, 0, prev, next_at);
        assert(reader_finds(mem_next, 0, next_at) == reader_finds(mem, 0, at));
        assert(visible(orig, blocks, after) == visible(orig, blocks, before));
        assert(!all_refused(orig, blocks, after)) by {
            let i = choose|i: int|
                0 <= i < before.len() && !refused_at(orig, blocks, #[trigger] before[i]);
            assert(after[i] == before[i]);
        }
    }
}

proof fn lemma_scan_from(
    orig: Seq<u8>,
    scan: ScanCtx,
    mem: Seq<u8>,
    base: u64,
    blocks: spec_fn(InodeKey) -> bool,
    at: int,
    bound: nat,
)
    requires
        well_formed(orig),
        0 < base,
        base + orig.len() + DIRENT_SIZE <= u64::MAX,
        scan_inv(orig, scan, mem, base, blocks, at),
        bound * DIRENT_SIZE > orig.len() - at,
    ensures
        ({
            let (next, mem_next, finished) = scan_all(scan, mem, base, blocks, bound);
            &&& finished
            &&& scan_inv(orig, next, mem_next, base, blocks, orig.len() as int)
        }),
    decreases bound,
{
    if at == orig.len() {
        let (next, mem_next, more) = iterate(scan, mem, base, blocks);
        assert(!more);
        assert(bound > 0);
    } else {
        lemma_scan_inv_step(orig, scan, mem, base, blocks, at);
        let (next, mem_next, more) = iterate(scan, mem, base, blocks);
        let next_at = at + reclen_at(orig, at);
        assert(bound > 0);
        assert((bound - 1) * DIRENT_SIZE == bound * DIRENT_SIZE - DIRENT_SIZE) by (nonlinear_arith);
        lemma_scan_from(orig, next, mem_next, base, blocks, next_at, (bound - 1) as nat);
    }
}

/// A scan of a listing, with memory that can be read and written, comes to its end within
/// [`MAX_DIRENTS`] iterations, and leaves a listing of the same length in which a reader finds
/// exactly the entries that are not refused, and the refused ones that come before the first
/// entry that is not.
pub proof fn law_scan_hides_refused_entries(
    mem: Seq<u8>,
    base: u64,
    blocks: spec_fn(InodeKey) -> bool,
)
    requires
        well_formed(mem),
        0 < base,
        base + mem.len() + DIRENT_SIZE <= u64::MAX,
    ensures
        ({
            let len = mem.len() as int;
            let (scan, listing, finished) = scan_all(
                scan_start(base, mem.len()),
                mem,
                base,
                blocks,
                MAX_DIRENTS as nat,
            );
            &&& finished
            &&& scan.status == SCAN_OK
            &&& listing.len() == len
            &&& tiles(listing, 0, len)
            &&& reader_finds(listing, 0, len) == visible(mem, blocks, reader_finds(mem, 0, len))
        }),
{
    let scan = scan_start(base, mem.len());
    assert(reader_finds(mem, 0, 0) =~= Seq::empty());
    assert(visible(mem, blocks, reader_finds(mem, 0, 0)) =~= Seq::empty());
    assert(scan_inv(mem, scan, mem, base, blocks, 0));
    lemma_scan_from(mem, scan, mem, base, blocks, 0, MAX_DIRENTS as nat);
}

proof fn lemma_scan_part(
    orig: Seq<u8>,
    scan: ScanCtx,
    mem: Seq<u8>,
    base: u64,
    blocks: spec_fn(InodeKey) -> bool,
    at: int,
    bound: nat,
) -> (reached: int)
    requires
        well_formed(orig),
        0 < base,
        base + orig.len() + DIRENT_SIZE <= u64::MAX,
        scan_inv(orig, scan, mem, base, blocks, at),
    ensures
        ({
            let (next, mem_next, finished) = scan_all(scan, mem, base, blocks, bound);
            scan_inv(orig, next, mem_next, base, blocks, reached)
        }),
    decreases bound,
{
    if bound == 0 {
        at
    } else if at == orig.len() {
        let (next, mem_next, more) = iterate(scan, mem, base, blocks);
        assert(!more);
        at
    } else {
        lemma_scan_inv_step(orig, scan, mem, base, blocks, at);
        let (next, mem_next, more) = iterate(scan, mem, base, blocks);
        let next_at = at + reclen_at(orig, at);
        lemma_scan_part(orig, next, mem_next, base, blocks, next_at, (bound - 1) as nat)
    }
}

/// A reader of `listing` finds what it should up to offset `at`, and everything from there on.
pub open spec fn scanned_up_to(
    mem: Seq<u8>,
    listing: Seq<u8>,
    blocks: spec_fn(InodeKey) -> bool,
    at: int,
) -> bool {
    let len = mem.len() as int;
    &&& 0 <= at <= len
    &&& tiles(mem, 0, at)
    &&& tiles(mem, at, len)
    &&& tiles(listing, 0, len)
    &&& reader_finds(listing, 0, len) == visible(mem, blocks, reader_finds(mem, 0, at))
        + reader_finds(mem, at, len)
}

/// A scan that is broken off after `n` iterations, because memory can no longer be read or
/// written, leaves a sound listing too: up to some record only refused entries are missing, and
/// from there on none.
pub proof fn law_broken_off_scan_hides_only_refused_entries(
    mem: Seq<u8>,
    base: u64,
    blocks: spec_fn(InodeKey) -> bool,
    n: nat,
)
    requires
        well_formed(mem),
        0 < base,
        base + mem.len() + DIRENT_SIZE <= u64::MAX,
    ensures
        exists|at: int|
            scanned_up_to(
                mem,
                scan_all(scan_start(base, mem.len()), mem, base, blocks, n).1,
                blocks,
                at,
            ),
{
    let len = mem.len() as int;
    let scan = scan_start(base, mem.len());
    assert(reader_finds(mem, 0, 0) =~= Seq::empty());
    assert(visible(mem, blocks, reader_finds(mem, 0, 0)) =~= Seq::empty());
    assert(scan_inv(mem, scan, mem, base, blocks, 0));
    let at = lemma_scan_part(mem, scan, mem, base, blocks, 0, n);
    let listing = scan_all(scan, mem, base, blocks, n).1;
    lemma_reader_local(mem, listing, at, len);
    lemma_tiles_join(listing, 0, at, len);
    assert(scanned_up_to(mem, listing, blocks, at));
}

/// A step that fails asks for no write: the listing stays as it is.
pub proof fn law_failed_reads_write_nothing(scan: ScanCtx, known: DirentProbes)
    requires
        known.header is Failed || (known.name is Failed && !(known.header is Pending)),
    ensures
        scan_step(scan, known).1 is Stop,
{
}

/// The steps of one iteration, asked for one after the other, are those that [`iterate`] takes
/// together: a read of the header, a read of the name, a verdict, and a write where the entry is
/// merged into the one before it.
pub proof fn law_iteration_asks_step_by_step(
    scan: ScanCtx,
    mem: Seq<u8>,
    base: u64,
    blocks: spec_fn(InodeKey) -> bool,
)
    requires
        wrap64(scan.dirent_ptr as int, DIRENT_SIZE as int) <= scan.end,
        valid_reclen(reclen_at(mem, scan.dirent_ptr - base)),
    ensures
        ({
            let all = everything_read(scan, mem, base, blocks);
            let header = DirentProbes { header: all.header, ..nothing_read() };
            let named = DirentProbes { name: all.name, ..header };
            let judged = DirentProbes { blocked: all.blocked, ..named };
            let key = key_at(mem, scan.dirent_ptr - base);
            &&& scan_step(scan, nothing_read()) == (
                scan,
                ScanStep::ReadHeader { address: scan.dirent_ptr },
            )
            &&& scan_step(scan, header) == (
                scan,
                ScanStep::ReadName { address: wrap64(scan.dirent_ptr as int, NAME_OFFSET as int) },
            )
            &&& scan_step(scan, named) == (scan, ScanStep::Judge { key })
            &&& if blocks(key) && scan.prev_ptr != 0 {
                &&& scan_step(scan, judged).1 is WriteReclen
                &&& scan_step(scan, judged).0 == scan
                &&& scan_step(scan, all).1 is Continue
            } else {
                &&& scan_step(scan, judged) == scan_step(scan, all)
                &&& scan_step(scan, judged).1 is Continue
            }
        }),
{
}

/// One iteration of a scan never touches the end of the listing. It goes on exactly past a record
/// that was read, judged and, where it has to be merged, written; the cursor then moves by the
/// length of that record, and the status stays.
pub proof fn law_scan_moves_record_by_record(
    before: ScanCtx,
    after: ScanCtx,
    known: DirentProbes,
    step: ScanStep,
)
    requires
        exists|scan: &mut ScanCtx|
            *scan == before && *final(scan) == after && #[trigger] call_ensures(
                scan_dirent,
                (scan, &known),
                step,
            ),
    ensures
        after.end == before.end,
        step is Continue ==> {
            &&& known.header matches Probe::Read(header)
            &&& 24 <= header.reclen <= 512
            &&& after.dirent_ptr == (before.dirent_ptr + header.reclen) % 0x1_0000_0000_0000_0000
            &&& known.name is Read
            &&& known.blocked is Some
            &&& after.status == before.status && after.errno == before.errno
        },
        !(step is Continue) ==> after.dirent_ptr == before.dirent_ptr && after.prev_ptr
            == before.prev_ptr && after.prev_reclen == before.prev_reclen,
        !(step is Continue) && !(step is Stop) ==> after == before,
{
}

/// Past a visible record, that record is the one to merge hidden ones into. Past a hidden one the
/// record before it stays so, and has grown by the hidden one if there is any.
pub proof fn law_hidden_record_is_merged_into_the_one_before(
    before: ScanCtx,
    after: ScanCtx,
    known: DirentProbes,
    step: ScanStep,
)
    requires
        exists|scan: &mut ScanCtx|
            *scan == before && *final(scan) == after && #[trigger] call_ensures(
                scan_dirent,
                (scan, &known),
                step,
            ),
    ensures
        step is Continue && known.blocked == Some(false) ==> after.prev_ptr == before.dirent_ptr
            && after.prev_reclen == known.header->Read_0.reclen,
        step is Continue && known.blocked == Some(true) ==> after.prev_ptr == before.prev_ptr,
        step is Continue && known.blocked == Some(true) && before.prev_ptr == 0
            ==> after.prev_reclen == before.prev_reclen,
        step is Continue && known.blocked == Some(true) && before.prev_ptr != 0
            ==> after.prev_reclen == (before.prev_reclen + known.header->Read_0.reclen) % 0x1_0000
            && (known.write matches Some(Ok(_))),
        step matches ScanStep::WriteReclen { address, reclen } ==> {
            &&& known.blocked == Some(true)
            &&& before.prev_ptr != 0
            &&& known.write is None
            &&& address == (before.prev_ptr + 16) % 0x1_0000_0000_0000_0000
            &&& reclen == (before.prev_reclen + known.header->Read_0.reclen) % 0x1_0000
        },
{
}

/// A scan stops for one of five reasons. Past the end of the listing, and at a record that cannot be
/// one, the status stays; a header or a name that cannot be read sets it to a failed read, and a
/// write that fails to a failed write, with its error code.
pub proof fn law_scan_stops_with_a_status(
    before: ScanCtx,
    after: ScanCtx,
    known: DirentProbes,
    step: ScanStep,
)
    requires
        exists|scan: &mut ScanCtx|
            *scan == before && *final(scan) == after && #[trigger] call_ensures(
                scan_dirent,
                (scan, &known),
                step,
            ),
        before.dirent_ptr + 24 <= u64::MAX,
    ensures
        before.dirent_ptr + 24 > before.end ==> step is Stop && after == before,
        before.dirent_ptr + 24 <= before.end ==> {
            &&& known.header is Failed ==> step is Stop && after == (ScanCtx {
                status: SCAN_READ_FAILED,
                ..before
            })
            &&& known.header matches Probe::Read(header) ==> (header.reclen < 24 || header.reclen
                > 512 ==> step is Stop && after == before)
            &&& known.header matches Probe::Read(header) ==> (24 <= header.reclen <= 512
                && known.name is Failed ==> step is Stop && after == (ScanCtx {
                status: SCAN_READ_FAILED,
                ..before
            }))
            &&& known.header matches Probe::Read(header) ==> (24 <= header.reclen <= 512
                && known.name is Read && known.blocked == Some(true) && before.prev_ptr != 0 ==> (
            known.write matches Some(Err(errno)) ==> step is Stop && after == (ScanCtx {
                status: SCAN_WRITE_FAILED,
                errno,
                ..before
            })))
            &&& known.header matches Probe::Read(header) ==> (24 <= header.reclen <= 512
                && known.name is Read && known.blocked == Some(false) ==> step is Continue)
        },
        step is Stop && after.status != before.status ==> known.header is Failed || known.name is Failed
            || (known.write matches Some(Err(_))),
{
}

/// A record is read where it stands: its header at the cursor, its name nineteen bytes further. The
/// entry that is judged is the one that was read.
pub proof fn law_scan_judges_what_it_read(
    before: ScanCtx,
    after: ScanCtx,
    known: DirentProbes,
    step: ScanStep,
)
    requires
        exists|scan: &mut ScanCtx|
            *scan == before && *final(scan) == after && #[trigger] call_ensures(
                scan_dirent,
                (scan, &known),
                step,
            ),
    ensures
        step matches ScanStep::ReadHeader { address } ==> address == before.dirent_ptr
            && known.header is Pending,
        step matches ScanStep::ReadName { address } ==> address == (before.dirent_ptr + 19)
            % 0x1_0000_0000_0000_0000 && known.name is Pending && known.header is Read,
        step matches ScanStep::Judge { key } ==> known.blocked is None && known.name == Probe::Read(
            key.name,
        ) && known.header is Read && key.ino == known.header->Read_0.ino,
{
}

} // verus!
