//! Landlock ABI levels and the filesystem access rights each level knows.

use vstd::prelude::*;

verus! {

/// Right to execute a file.
pub const EXECUTE: u64 = 1;

/// Right to open a file for writing.
pub const WRITE_FILE: u64 = 2;

/// Right to open a file for reading.
pub const READ_FILE: u64 = 4;

/// Right to open or list a directory.
pub const READ_DIR: u64 = 8;

/// Every filesystem right that the `landlock` crate knows, the union of the
/// rights of its newest level.
pub const KNOWN_RIGHTS: u64 = 0x1ffff;

/// `access` holds only rights that the `landlock` crate knows.
pub open spec fn known_rights(access: u64) -> bool {
    access & !KNOWN_RIGHTS == 0
}

/// A Landlock ABI level that this library can target.
///
/// Each level adds filesystem rights to the one before it.
#[derive(Clone, Copy, Debug, PartialEq, Eq, Structural)]
pub enum Abi {
    V1,
    V2,
    V3,
    V4,
    V5,
    V6,
    V7,
    V8,
    V9,
}

/// The level this library asks for: Linux 6.2 and later, which handle truncation.
pub const TARGET_ABI: Abi = Abi::V3;

/// The read-like rights of every level: execute, read a file, read a directory.
pub open spec fn read_rights(abi: Abi) -> u64 {
    EXECUTE | READ_FILE | READ_DIR
}

/// The write-like rights that a level knows.
pub open spec fn write_rights(abi: Abi) -> u64 {
    match abi {
        Abi::V1 => 0x1ff2u64,
        Abi::V2 => 0x3ff2u64,
        Abi::V3 | Abi::V4 => 0x7ff2u64,
        Abi::V5 | Abi::V6 | Abi::V7 | Abi::V8 => 0xfff2u64,
        Abi::V9 => 0x1fff2u64,
    }
}

/// Every right that a level knows: the read-like ones and the write-like ones.
pub open spec fn all_rights(abi: Abi) -> u64 {
    read_rights(abi) | write_rights(abi)
}

/// Relies on `landlock::AccessFs::from_read`: execute, read file and read
/// directory at every known level.
#[verifier::external_body]
pub(crate) fn read_access(abi: Abi) -> (r: u64)
    ensures
        r == read_rights(abi),
{
    let abi = match abi {
        Abi::V1 => landlock::ABI::V1,
        Abi::V2 => landlock::ABI::V2,
        Abi::V3 => landlock::ABI::V3,
        Abi::V4 => landlock::ABI::V4,
        Abi::V5 => landlock::ABI::V5,
        Abi::V6 => landlock::ABI::V6,
        Abi::V7 => landlock::ABI::V7,
        Abi::V8 => landlock::ABI::V8,
        Abi::V9 => landlock::ABI::V9,
    };
    landlock::AccessFs::from_read(abi).bits()
}

/// Relies on `landlock::Access::from_all` for `AccessFs`: the union of the
/// read-like and write-like rights of the level.
#[verifier::external_body]
pub(crate) fn all_access(abi: Abi) -> (r: u64)
    ensures
        r == all_rights(abi),
{
    let abi = match abi {
        Abi::V1 => landlock::ABI::V1,
        Abi::V2 => landlock::ABI::V2,
        Abi::V3 => landlock::ABI::V3,
        Abi::V4 => landlock::ABI::V4,
        Abi::V5 => landlock::ABI::V5,
        Abi::V6 => landlock::ABI::V6,
        Abi::V7 => landlock::ABI::V7,
        Abi::V8 => landlock::ABI::V8,
        Abi::V9 => landlock::ABI::V9,
    };
    <landlock::AccessFs as landlock::Access>::from_all(abi).bits()
}

} // verus!
