use vstd::prelude::*;
use crate::table::{BridgeError, OpenMode};

verus! {

/// How a file is to be opened on the host for a given mode.
#[derive(Clone, Copy, Debug, PartialEq, Eq, Structural)]
pub struct OpenFlags {
    pub read: bool,
    pub write: bool,
    pub append: bool,
    pub create: bool,
    pub truncate: bool,
}

pub open spec fn spec_open_flags(mode: OpenMode) -> OpenFlags {
    match mode {
        OpenMode::Read => OpenFlags { read: true, write: false, append: false, create: false, truncate: false },
        OpenMode::Write => OpenFlags { read: false, write: true, append: false, create: true, truncate: true },
        OpenMode::Append => OpenFlags { read: false, write: false, append: true, create: true, truncate: false },
        OpenMode::ReadWrite => OpenFlags { read: true, write: true, append: false, create: true, truncate: false },
    }
}

/// The host open options for `mode`. Only a read-mode open leaves a missing
/// file missing; the writing modes create it.
pub fn open_flags(mode: OpenMode) -> (f: OpenFlags)
    ensures
        f == spec_open_flags(mode),
{
    match mode {
        OpenMode::Read => OpenFlags { read: true, write: false, append: false, create: false, truncate: false },
        OpenMode::Write => OpenFlags { read: false, write: true, append: false, create: true, truncate: true },
        OpenMode::Append => OpenFlags { read: false, write: false, append: true, create: true, truncate: false },
        OpenMode::ReadWrite => OpenFlags { read: true, write: true, append: false, create: true, truncate: false },
    }
}

/// The host's classification of a failed file operation.
#[derive(Clone, Copy, Debug, PartialEq, Eq, Structural)]
pub enum OsErrorKind {
    NotFound,
    PermissionDenied,
    AlreadyExists,
    Other,
}

pub open spec fn spec_error_from_os(kind: OsErrorKind) -> BridgeError {
    match kind {
        OsErrorKind::NotFound => BridgeError::NotFound,
        OsErrorKind::PermissionDenied => BridgeError::PermissionDenied,
        OsErrorKind::AlreadyExists => BridgeError::AlreadyExists,
        OsErrorKind::Other => BridgeError::IoError,
    }
}

/// The bridge error that a failed host operation is reported as.
pub fn error_from_os(kind: OsErrorKind) -> (e: BridgeError)
    ensures
        e == spec_error_from_os(kind),
{
    match kind {
        OsErrorKind::NotFound => BridgeError::NotFound,
        OsErrorKind::PermissionDenied => BridgeError::PermissionDenied,
        OsErrorKind::AlreadyExists => BridgeError::AlreadyExists,
        OsErrorKind::Other => BridgeError::IoError,
    }
}

/// The negative code that the guest receives for each error (the usual
/// errno numbers, negated).
pub open spec fn spec_error_code(e: BridgeError) -> int {
    match e {
        BridgeError::NotFound => -2,
        BridgeError::PermissionDenied => -13,
        BridgeError::AlreadyExists => -17,
        BridgeError::BadHandle => -9,
        BridgeError::IoError => -5,
        BridgeError::NotSeekable => -29,
    }
}

pub fn error_code(e: BridgeError) -> (c: i32)
    ensures
        c as int == spec_error_code(e),
        c < 0,
{
    match e {
        BridgeError::NotFound => -2,
        BridgeError::PermissionDenied => -13,
        BridgeError::AlreadyExists => -17,
        BridgeError::BadHandle => -9,
        BridgeError::IoError => -5,
        BridgeError::NotSeekable => -29,
    }
}

/// The single integer a bridge call hands back to the guest: the value
/// itself on success, the negative error code on failure. Success and failure
/// never share a value.
pub fn encode_outcome(r: Result<u32, BridgeError>) -> (v: i64)
    ensures
        r is Ok ==> v == r->Ok_0 as i64,
        r is Err ==> v as int == spec_error_code(r->Err_0),
        v < 0 <==> r is Err,
{
    match r {
        Ok(n) => n as i64,
        Err(e) => error_code(e) as i64,
    }
}

/// Where a seek offset is measured from.
#[derive(Clone, Copy, Debug, PartialEq, Eq, Structural)]
pub enum Whence {
    Start,
    Current,
    End,
}

pub open spec fn seek_target(pos: u64, len: u64, offset: i64, whence: Whence) -> int {
    match whence {
        Whence::Start => offset as int,
        Whence::Current => pos as int + offset as int,
        Whence::End => len as int + offset as int,
    }
}

/// The new position of a seek on a file of `len` bytes positioned at `pos`;
/// `IoError` where it would fall before the start or past what a position
/// can hold.
pub fn resolve_seek(pos: u64, len: u64, offset: i64, whence: Whence) -> (r: Result<u64, BridgeError>)
    ensures
        r is Ok <==> 0 <= seek_target(pos, len, offset, whence) <= u64::MAX,
        r is Ok ==> r->Ok_0 == seek_target(pos, len, offset, whence),
        r is Err ==> r->Err_0 == BridgeError::IoError,
{
    let base: u64 = match whence {
        Whence::Start => 0,
        Whence::Current => pos,
        Whence::End => len,
    };
    if offset >= 0 {
        let step = offset as u64;
        if base > u64::MAX - step {
            Err(BridgeError::IoError)
        } else {
            Ok(base + step)
        }
    } else {
        let back: u64 = if offset == i64::MIN {
            (i64::MAX as u64) + 1
        } else {
            (-offset) as u64
        };
        if back > base {
            Err(BridgeError::IoError)
        } else {
            Ok(base - back)
        }
    }
}

pub open spec fn spec_read_len(pos: u64, len: u64, max: u64) -> u64 {
    if pos >= len {
        0
    } else if max < len - pos {
        max
    } else {
        (len - pos) as u64
    }
}

/// How many bytes a read of at most `max` bytes returns on a file of `len`
/// bytes positioned at `pos`: none at or past the end, which is no error.
pub fn read_len(pos: u64, len: u64, max: u64) -> (n: u64)
    ensures
        n == spec_read_len(pos, len, max),
        n <= max,
        pos >= len ==> n == 0,
        pos < len ==> pos + n <= len,
{
    if pos >= len {
        0
    } else if max < len - pos {
        max
    } else {
        len - pos
    }
}

/// The open mode a guest names by its code: 0 read, 1 write, 2 append,
/// 3 read-write.
pub fn mode_from_code(code: i64) -> (m: Option<OpenMode>)
    ensures
        code == 0 ==> m == Some(OpenMode::Read),
        code == 1 ==> m == Some(OpenMode::Write),
        code == 2 ==> m == Some(OpenMode::Append),
        code == 3 ==> m == Some(OpenMode::ReadWrite),
        !(0 <= code <= 3) ==> m is None,
{
    if code == 0 {
        Some(OpenMode::Read)
    } else if code == 1 {
        Some(OpenMode::Write)
    } else if code == 2 {
        Some(OpenMode::Append)
    } else if code == 3 {
        Some(OpenMode::ReadWrite)
    } else {
        None
    }
}

/// The seek origin a guest names by its code: 0 start, 1 current, 2 end.
pub fn whence_from_code(code: i64) -> (w: Option<Whence>)
    ensures
        code == 0 ==> w == Some(Whence::Start),
        code == 1 ==> w == Some(Whence::Current),
        code == 2 ==> w == Some(Whence::End),
        !(0 <= code <= 2) ==> w is None,
{
    if code == 0 {
        Some(Whence::Start)
    } else if code == 1 {
        Some(Whence::Current)
    } else if code == 2 {
        Some(Whence::End)
    } else {
        None
    }
}

/// After the cursor of a file of `n` bytes is moved to its start, a read of
/// at least `n` bytes covers the whole file, and a read at its end covers
/// nothing.
pub proof fn lemma_rewind_reads_all(n: u64, max: u64)
    requires
        max >= n,
    ensures
        seek_target(n, n, 0, Whence::Start) == 0,
        spec_read_len(0, n, max) == n,
        spec_read_len(n, n, max) == 0,
{
}

} // verus!
