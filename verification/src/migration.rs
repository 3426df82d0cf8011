//! The decisions of the memory store's format migration: which version a
//! store is at, what must be done to bring it up to date, and which stored
//! entries are memories and vectors.
use vstd::prelude::*;
use crate::text::{owned, seq_starts_with, str_starts_with};

verus! {

/// The format version the store is written in now.
pub const CURRENT_VERSION: u32 = 2;

/// Why a store cannot be migrated.
#[derive(Clone, Copy, Debug, PartialEq, Eq, Structural)]
pub enum MigrationError {
    /// The stored version is not four bytes.
    InvalidVersionFormat,
    /// The stored version is older than any known one.
    UnknownVersion(u32),
}

/// The little-endian value of four bytes.
pub open spec fn le_value(b: Seq<u8>) -> int {
    b[0] + 256 * b[1] + 65536 * b[2] + 16777216 * b[3]
}

/// The version a store records: its version entry read as a little-endian
/// `u32`; version 1 where there is none (the first format had none); an
/// error where the entry is not four bytes long.
pub fn stored_version(entry: Option<&Vec<u8>>) -> (r: Result<u32, MigrationError>)
    ensures
        match entry {
            None => r == Ok::<u32, MigrationError>(1),
            Some(b) => if b@.len() == 4 {
                r matches Ok(v) && v == le_value(b@)
            } else {
                r == Err::<u32, MigrationError>(MigrationError::InvalidVersionFormat)
            },
        },
{
    match entry {
        None => Ok(1),
        Some(b) => {
            if b.len() != 4 {
                return Err(MigrationError::InvalidVersionFormat);
            }
            let v: u32 = (b[0] as u32) + 256 * (b[1] as u32) + 65536 * (b[2] as u32) + 16777216 * (b[3] as u32);
            Ok(v)
        },
    }
}

/// The four little-endian bytes of `v`.
pub open spec fn le_bytes(v: u32) -> Seq<u8> {
    seq![(v % 256) as u8, ((v / 256) % 256) as u8, ((v / 65536) % 256) as u8, (v / 16777216) as u8]
}

/// The four little-endian bytes of a version.
pub fn version_bytes(v: u32) -> (r: Vec<u8>)
    ensures
        r@ == le_bytes(v),
{
    let b0: u8 = (v % 256) as u8;
    let b1: u8 = ((v / 256) % 256) as u8;
    let b2: u8 = ((v / 65536) % 256) as u8;
    let b3: u8 = (v / 16777216) as u8;
    let r = vec![b0, b1, b2, b3];
    proof {
        assert(r@ =~= le_bytes(v));
    }
    r
}

/// A version written as bytes reads back as itself.
pub proof fn lemma_version_roundtrip(v: u32)
    ensures
        le_bytes(v).len() == 4,
        le_value(le_bytes(v)) == v,
{
    let b = le_bytes(v);
    assert(b[0] == v % 256 && b[1] == (v / 256) % 256 && b[2] == (v / 65536) % 256 && b[3] == v / 16777216);
    assert(v == (v % 256) + 256 * ((v / 256) % 256) + 65536 * ((v / 65536) % 256) + 16777216 * (v / 16777216))
        by (nonlinear_arith);
}

/// What bringing a store up to date takes.
#[derive(Clone, Copy, Debug, PartialEq, Eq, Structural)]
pub enum MigrationPlan {
    /// The store is current.
    UpToDate,
    /// Rewrite the first format's entries in the current one.
    FromV1,
}

/// What a store at `version` needs: nothing when current (or newer), the
/// rewrite of the first format when at version 1, an error otherwise.
pub fn migration_plan(version: u32) -> (r: Result<MigrationPlan, MigrationError>)
    ensures
        version >= CURRENT_VERSION ==> r == Ok::<MigrationPlan, MigrationError>(MigrationPlan::UpToDate),
        version == 1 ==> r == Ok::<MigrationPlan, MigrationError>(MigrationPlan::FromV1),
        version < 1 ==> r == Err::<MigrationPlan, MigrationError>(MigrationError::UnknownVersion(version)),
{
    if version >= CURRENT_VERSION {
        Ok(MigrationPlan::UpToDate)
    } else if version == 1 {
        Ok(MigrationPlan::FromV1)
    } else {
        Err(MigrationError::UnknownVersion(version))
    }
}

/// A stored entry, by its key.
#[derive(Clone, Debug)]
pub enum EntryKey {
    /// A memory, with its id.
    Memory(String),
    /// A memory's vector, with the memory's id.
    Vector(String),
    /// Anything else (such as the version entry).
    Other,
}

/// What the key of a stored entry names: `mem:` and an id is a memory,
/// `vec:` and an id a vector, anything else neither.
pub fn classify_key(key: &str) -> (r: EntryKey)
    ensures
        seq_starts_with(key@, "mem:"@) ==> (r matches EntryKey::Memory(id) && id@ == key@.skip(4)),
        !seq_starts_with(key@, "mem:"@) && seq_starts_with(key@, "vec:"@) ==> (r matches EntryKey::Vector(id) && id@
            == key@.skip(4)),
        !seq_starts_with(key@, "mem:"@) && !seq_starts_with(key@, "vec:"@) ==> r is Other,
{
    proof {
        reveal_strlit("mem:");
        reveal_strlit("vec:");
    }
    if str_starts_with(key, "mem:") {
        EntryKey::Memory(rest_after(key, 4))
    } else if str_starts_with(key, "vec:") {
        EntryKey::Vector(rest_after(key, 4))
    } else {
        EntryKey::Other
    }
}

/// The characters of `s` after the first `n`.
fn rest_after(s: &str, n: usize) -> (r: String)
    requires
        n <= s@.len(),
    ensures
        r@ == s@.skip(n as int),
{
    let cs = crate::text::chars_of(s);
    let mut r = String::new();
    let mut i: usize = n;
    while i < cs.len()
        invariant
            n <= i <= cs@.len(),
            cs@ == s@,
            r@ == s@.subrange(n as int, i as int),
        decreases cs@.len() - i,
    {
        crate::text::push_char(&mut r, cs[i]);
        proof {
            assert(s@.subrange(n as int, i + 1) =~= s@.subrange(n as int, i as int).push(cs@[i as int]));
        }
        i = i + 1;
    }
    proof {
        assert(s@.subrange(n as int, i as int) =~= s@.skip(n as int));
    }
    r
}

} // verus!
