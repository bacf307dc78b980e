use wasmoo::bridge::{encode_outcome, error_code, error_from_os, open_flags, read_len, resolve_seek};
use wasmoo::bridge::{mode_from_code, whence_from_code};
use wasmoo::bridge::{OpenFlags, OsErrorKind, Whence};
use wasmoo::table::{BridgeError, OpenMode};

#[test]
fn read_mode_does_not_create() {
    let f = open_flags(OpenMode::Read);
    assert_eq!(f, OpenFlags { read: true, write: false, append: false, create: false, truncate: false });
    assert_eq!(error_from_os(OsErrorKind::NotFound), BridgeError::NotFound);
}

#[test]
fn write_mode_creates() {
    let f = open_flags(OpenMode::Write);
    assert_eq!(f, OpenFlags { read: false, write: true, append: false, create: true, truncate: true });
    let a = open_flags(OpenMode::Append);
    assert!(a.append && a.create && !a.truncate);
    let rw = open_flags(OpenMode::ReadWrite);
    assert!(rw.read && rw.write && rw.create && !rw.truncate);
}

#[test]
fn os_errors_map_to_bridge_errors() {
    assert_eq!(error_from_os(OsErrorKind::PermissionDenied), BridgeError::PermissionDenied);
    assert_eq!(error_from_os(OsErrorKind::AlreadyExists), BridgeError::AlreadyExists);
    assert_eq!(error_from_os(OsErrorKind::Other), BridgeError::IoError);
}

#[test]
fn error_codes_are_negative_errno() {
    assert_eq!(error_code(BridgeError::NotFound), -2);
    assert_eq!(error_code(BridgeError::IoError), -5);
    assert_eq!(error_code(BridgeError::BadHandle), -9);
    assert_eq!(error_code(BridgeError::PermissionDenied), -13);
    assert_eq!(error_code(BridgeError::AlreadyExists), -17);
    assert_eq!(error_code(BridgeError::NotSeekable), -29);
}

#[test]
fn outcomes_encode_to_one_integer() {
    assert_eq!(encode_outcome(Ok(3)), 3);
    assert_eq!(encode_outcome(Ok(0)), 0);
    assert_eq!(encode_outcome(Ok(u32::MAX)), 4294967295);
    assert_eq!(encode_outcome(Err(BridgeError::BadHandle)), -9);
}

#[test]
fn seek_from_each_origin() {
    assert_eq!(resolve_seek(7, 20, 0, Whence::Start), Ok(0));
    assert_eq!(resolve_seek(7, 20, 5, Whence::Start), Ok(5));
    assert_eq!(resolve_seek(7, 20, 3, Whence::Current), Ok(10));
    assert_eq!(resolve_seek(7, 20, -7, Whence::Current), Ok(0));
    assert_eq!(resolve_seek(7, 20, -4, Whence::End), Ok(16));
    assert_eq!(resolve_seek(7, 20, 30, Whence::End), Ok(50));
}

#[test]
fn seek_out_of_range_fails() {
    assert_eq!(resolve_seek(7, 20, -1, Whence::Start), Err(BridgeError::IoError));
    assert_eq!(resolve_seek(7, 20, -8, Whence::Current), Err(BridgeError::IoError));
    assert_eq!(resolve_seek(0, 0, i64::MIN, Whence::End), Err(BridgeError::IoError));
    assert_eq!(resolve_seek(u64::MAX, 0, 1, Whence::Current), Err(BridgeError::IoError));
    assert_eq!(resolve_seek(u64::MAX, 0, -1, Whence::Current), Ok(u64::MAX - 1));
}

#[test]
fn read_at_end_of_file_is_empty() {
    assert_eq!(read_len(10, 10, 4), 0);
    assert_eq!(read_len(12, 10, 4), 0);
    assert_eq!(read_len(0, 0, 4), 0);
}

#[test]
fn read_is_bounded_by_request_and_file() {
    assert_eq!(read_len(2, 10, 4), 4);
    assert_eq!(read_len(8, 10, 4), 2);
    assert_eq!(read_len(0, 10, 0), 0);
}

#[test]
fn rewind_after_write_reads_everything_written() {
    let written: u64 = 11;
    let start = resolve_seek(written, written, 0, Whence::Start).unwrap();
    assert_eq!(start, 0);
    assert_eq!(read_len(start, written, 64), written);
    assert_eq!(read_len(written, written, 64), 0);
}

#[test]
fn guest_codes_decode() {
    assert_eq!(mode_from_code(0), Some(OpenMode::Read));
    assert_eq!(mode_from_code(1), Some(OpenMode::Write));
    assert_eq!(mode_from_code(2), Some(OpenMode::Append));
    assert_eq!(mode_from_code(3), Some(OpenMode::ReadWrite));
    assert_eq!(mode_from_code(4), None);
    assert_eq!(mode_from_code(-1), None);
    assert_eq!(whence_from_code(0), Some(Whence::Start));
    assert_eq!(whence_from_code(1), Some(Whence::Current));
    assert_eq!(whence_from_code(2), Some(Whence::End));
    assert_eq!(whence_from_code(3), None);
}
