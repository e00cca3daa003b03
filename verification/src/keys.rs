//! Keys and values of the maps that the daemon shares with the kernel.
use vstd::prelude::*;
use vstd::string::StringSliceAdditionalSpecFns;
use vstd::utf8::{decode_utf8, encode_utf8};

verus! {

/// Bytes of an entry name in an [`InodeKey`], the closing NUL included.
pub const NAME_LEN: usize = 64;

/// Bytes of a process name, the closing NUL included.
pub const COMM_LEN: usize = 16;

/// The first `len - 1` bytes of `bytes`, filled up with zeros to `len` bytes.
///
/// The last byte is zero whatever `bytes` holds: it is kept for the closing NUL.
pub open spec fn padded(bytes: Seq<u8>, len: nat) -> Seq<u8> {
    Seq::new(
        len,
        |i: int|
            if i < bytes.len() && i < len - 1 {
                bytes[i]
            } else {
                0u8
            },
    )
}

/// Names an entry that the kernel side looks up: the entry's name and its inode number.
///
/// The kernel hashes the raw bytes of a key, so both sides must build it the same way.
#[derive(Copy, Clone, Debug, Hash)]
pub struct InodeKey {
    /// Entry name, zero-padded to 64 bytes.
    pub name: [u8; 64],
    pub ino: u64,
}

impl PartialEq for InodeKey {
    fn eq(&self, other: &Self) -> (same: bool) {
        let mut i: usize = 0;
        while i < 64
            invariant
                i <= 64,
                forall|j: int| 0 <= j < i ==> self.name@[j] == other.name@[j],
            decreases 64 - i,
        {
            if self.name[i] != other.name[i] {
                return false;
            }
            i = i + 1;
        }
        assert(self.name =~= other.name);
        self.ino == other.ino
    }
}

impl vstd::std_specs::cmp::PartialEqSpecImpl for InodeKey {
    open spec fn obeys_eq_spec() -> bool {
        true
    }

    open spec fn eq_spec(&self, other: &Self) -> bool {
        *self == *other
    }
}

impl Eq for InodeKey {

}

/// `key` is the key of the entry called `name` with inode number `ino`.
pub open spec fn is_key(key: InodeKey, name: Seq<char>, ino: u64) -> bool {
    &&& key.name@ == padded(encode_utf8(name), NAME_LEN as nat)
    &&& key.ino == ino
}

/// The key of the entry called `name` with inode number `ino`.
pub open spec fn key_of(name: Seq<char>, ino: u64) -> InodeKey {
    choose|key: InodeKey| is_key(key, name, ino)
}

/// An entry has one key.
pub proof fn lemma_key_unique(key: InodeKey, name: Seq<char>, ino: u64)
    requires
        is_key(key, name, ino),
    ensures
        key == key_of(name, ino),
{
    let other = key_of(name, ino);
    assert(is_key(other, name, ino));
    assert forall|i: int| 0 <= i < 64 implies key.name[i] == other.name[i] by {
        assert(key.name@[i] == other.name@[i]);
    }
    assert(key.name =~= other.name);
}

impl InodeKey {
    /// Builds a key from an entry's name and inode number.
    ///
    /// The name is cut to 63 bytes: the kernel side reserves the last byte for a NUL.
    pub fn new(name: &str, ino: u64) -> (key: Self)
        ensures
            key.name@ == padded(name.spec_bytes(), NAME_LEN as nat),
            key.ino == ino,
            key == key_of(name@, ino),
    {
        let bytes = name.as_bytes();
        let mut buffer: [u8; 64] = [0u8; 64];
        let mut i: usize = 0;
        while i < bytes.len() && i < 63
            invariant
                i <= bytes@.len(),
                i <= 63,
                forall|j: int| 0 <= j < i ==> buffer@[j] == bytes@[j],
                forall|j: int| i <= j < 64 ==> buffer@[j] == 0,
            decreases 63 - i,
        {
            buffer[i] = bytes[i];
            i = i + 1;
        }
        let key = InodeKey { name: buffer, ino };
        assert(key.name@ =~= padded(name.spec_bytes(), NAME_LEN as nat));
        proof {
            lemma_key_unique(key, name@, ino);
        }
        key
    }
}

/// What the kernel side holds of a tracked entry: the GPU that owns it, and whether it is blocked.
#[derive(Copy, Clone, Debug)]
pub struct InodeState {
    pub gpu_id: u32,
    pub blocked: u8,
    /// Keeps the value aligned to 8 bytes.
    pub _padding: [u8; 3],
}

/// The state of an entry of GPU `gpu_id`.
pub open spec fn state_of(gpu_id: u32, blocked: bool) -> InodeState {
    InodeState {
        gpu_id,
        blocked: if blocked {
            1
        } else {
            0
        },
        _padding: [0u8, 0u8, 0u8],
    }
}

impl InodeState {
    /// The state of an entry of GPU `gpu_id`.
    pub fn new(gpu_id: u32, blocked: bool) -> (state: Self)
        ensures
            state == state_of(gpu_id, blocked),
    {
        InodeState {
            gpu_id,
            blocked: if blocked {
                1
            } else {
                0
            },
            _padding: [0u8, 0u8, 0u8],
        }
    }
}

/// No byte of `bytes` is NUL.
pub open spec fn nul_free(bytes: Seq<u8>) -> bool {
    forall|i: int| 0 <= i < bytes.len() ==> bytes[i] != 0
}

/// Padding keeps apart what fits and holds no NUL.
pub proof fn lemma_padded_injective(a: Seq<u8>, b: Seq<u8>, len: nat)
    requires
        a.len() < len,
        b.len() < len,
        nul_free(a),
        nul_free(b),
        padded(a, len) == padded(b, len),
    ensures
        a == b,
{
    assert forall|i: int| 0 <= i < len implies padded(a, len)[i] == padded(b, len)[i] by {}
    if a.len() < b.len() {
        assert(padded(a, len)[a.len() as int] == 0);
        assert(padded(b, len)[a.len() as int] == b[a.len() as int]);
    } else if b.len() < a.len() {
        assert(padded(b, len)[b.len() as int] == 0);
        assert(padded(a, len)[b.len() as int] == a[b.len() as int]);
    }
    assert forall|i: int| 0 <= i < a.len() implies a[i] == b[i] by {
        assert(padded(a, len)[i] == a[i]);
        assert(padded(b, len)[i] == b[i]);
    }
    assert(a =~= b);
}

/// Entries that share an inode number under different names have different keys, and so have
/// entries with different inode numbers. The names must fit a key uncut and hold no NUL.
pub proof fn law_keys_tell_entries_apart(
    name: Seq<char>,
    ino: u64,
    other_name: Seq<char>,
    other_ino: u64,
    key: InodeKey,
    other: InodeKey,
)
    requires
        is_key(key, name, ino),
        is_key(other, other_name, other_ino),
        encode_utf8(name).len() < NAME_LEN,
        encode_utf8(other_name).len() < NAME_LEN,
        nul_free(encode_utf8(name)),
        nul_free(encode_utf8(other_name)),
    ensures
        key == other <==> (name == other_name && ino == other_ino),
{
    if key == other {
        lemma_padded_injective(encode_utf8(name), encode_utf8(other_name), NAME_LEN as nat);
        vstd::utf8::encode_utf8_decode_utf8(name);
        vstd::utf8::encode_utf8_decode_utf8(other_name);
        assert(decode_utf8(encode_utf8(name)) == decode_utf8(encode_utf8(other_name)));
    }
    if name == other_name && ino == other_ino {
        lemma_key_unique(key, name, ino);
        lemma_key_unique(other, name, ino);
    }
}

} // verus!
