use wasmoo::table::{BridgeError, DescriptorTable, OpenMode, Resource, StreamKind, TableOp};
use wasmoo::table::{FIRST_FILE_HANDLE, STDERR_HANDLE, STDIN_HANDLE, STDOUT_HANDLE};

#[test]
fn standard_handles_present_before_any_open() {
    let t = DescriptorTable::new();
    assert_eq!(t.slot_count(), 3);
    assert_eq!(t.lookup(STDIN_HANDLE), Some(Resource::Stream(StreamKind::Stdin)));
    assert_eq!(t.lookup(STDOUT_HANDLE), Some(Resource::Stream(StreamKind::Stdout)));
    assert_eq!(t.lookup(STDERR_HANDLE), Some(Resource::Stream(StreamKind::Stderr)));
    assert_eq!(t.lookup(FIRST_FILE_HANDLE), None);
}

#[test]
fn standard_handles_cannot_be_closed() {
    let mut t = DescriptorTable::new();
    for h in 0..3u32 {
        assert_eq!(t.close(h), Err(BridgeError::BadHandle));
    }
    assert_eq!(t.slot_count(), 3);
    assert_eq!(t.lookup(0), Some(Resource::Stream(StreamKind::Stdin)));
}

#[test]
fn open_hands_out_lowest_free_handle() {
    let mut t = DescriptorTable::new();
    assert_eq!(t.open(OpenMode::Read), Ok(3));
    assert_eq!(t.open(OpenMode::Write), Ok(4));
    assert_eq!(t.open(OpenMode::Append), Ok(5));
    assert_eq!(t.lookup(4), Some(Resource::File(OpenMode::Write)));
}

#[test]
fn handle_reused_only_after_successful_close() {
    let mut t = DescriptorTable::new();
    let a = t.open(OpenMode::Read).unwrap();
    let b = t.open(OpenMode::Read).unwrap();
    assert_ne!(a, b);
    assert_eq!(t.close(9), Err(BridgeError::BadHandle));
    assert_eq!(t.open(OpenMode::Write), Ok(5));
    assert_eq!(t.close(a), Ok(()));
    assert_eq!(t.open(OpenMode::ReadWrite), Ok(a));
    assert_eq!(t.lookup(a), Some(Resource::File(OpenMode::ReadWrite)));
    assert_eq!(t.lookup(b), Some(Resource::File(OpenMode::Read)));
}

#[test]
fn double_close_is_an_error() {
    let mut t = DescriptorTable::new();
    let h = t.open(OpenMode::Write).unwrap();
    assert_eq!(t.close(h), Ok(()));
    assert_eq!(t.close(h), Err(BridgeError::BadHandle));
    assert_eq!(t.lookup(h), None);
}

#[test]
fn many_opens_and_closes_keep_handles_distinct() {
    let mut t = DescriptorTable::new();
    let mut live: Vec<u32> = Vec::new();
    for round in 0..40u32 {
        if round % 3 == 2 {
            let h = live.remove(0);
            assert_eq!(t.close(h), Ok(()));
        } else {
            let h = t.open(OpenMode::ReadWrite).unwrap();
            assert!(!live.contains(&h));
            assert!(h >= FIRST_FILE_HANDLE);
            live.push(h);
        }
    }
    for h in &live {
        assert_eq!(t.lookup(*h), Some(Resource::File(OpenMode::ReadWrite)));
    }
}

#[test]
fn capability_checks() {
    let mut t = DescriptorTable::new();
    let r = t.open(OpenMode::Read).unwrap();
    let w = t.open(OpenMode::Write).unwrap();
    let a = t.open(OpenMode::Append).unwrap();
    let rw = t.open(OpenMode::ReadWrite).unwrap();
    assert_eq!(t.check_read(0), Ok(Resource::Stream(StreamKind::Stdin)));
    assert_eq!(t.check_read(1), Err(BridgeError::IoError));
    assert_eq!(t.check_write(1), Ok(Resource::Stream(StreamKind::Stdout)));
    assert_eq!(t.check_write(2), Ok(Resource::Stream(StreamKind::Stderr)));
    assert_eq!(t.check_write(0), Err(BridgeError::IoError));
    assert_eq!(t.check_read(r), Ok(Resource::File(OpenMode::Read)));
    assert_eq!(t.check_write(r), Err(BridgeError::IoError));
    assert_eq!(t.check_read(w), Err(BridgeError::IoError));
    assert_eq!(t.check_write(w), Ok(Resource::File(OpenMode::Write)));
    assert_eq!(t.check_read(a), Err(BridgeError::IoError));
    assert_eq!(t.check_write(a), Ok(Resource::File(OpenMode::Append)));
    assert_eq!(t.check_read(rw), Ok(Resource::File(OpenMode::ReadWrite)));
    assert_eq!(t.check_write(rw), Ok(Resource::File(OpenMode::ReadWrite)));
}

#[test]
fn unknown_or_closed_handle_is_bad_handle() {
    let mut t = DescriptorTable::new();
    let h = t.open(OpenMode::ReadWrite).unwrap();
    assert_eq!(t.check_read(42), Err(BridgeError::BadHandle));
    assert_eq!(t.check_write(42), Err(BridgeError::BadHandle));
    assert_eq!(t.close(h), Ok(()));
    assert_eq!(t.check_read(h), Err(BridgeError::BadHandle));
    assert_eq!(t.check_write(h), Err(BridgeError::BadHandle));
    assert_eq!(t.check_seek(h), Err(BridgeError::BadHandle));
}

#[test]
fn seek_on_standard_stream_is_not_seekable() {
    let mut t = DescriptorTable::new();
    let h = t.open(OpenMode::Append).unwrap();
    assert_eq!(t.check_seek(0), Err(BridgeError::NotSeekable));
    assert_eq!(t.check_seek(2), Err(BridgeError::NotSeekable));
    assert_eq!(t.check_seek(h), Ok(OpenMode::Append));
    assert_eq!(t.check_seek(h + 1), Err(BridgeError::BadHandle));
}

#[test]
fn close_all_leaves_only_standard_streams() {
    let mut t = DescriptorTable::new();
    let a = t.open(OpenMode::Read).unwrap();
    let b = t.open(OpenMode::Write).unwrap();
    let c = t.open(OpenMode::Write).unwrap();
    assert_eq!(t.close(b), Ok(()));
    assert_eq!(t.close_all(), vec![a, c]);
    assert_eq!(t.slot_count(), 3);
    assert_eq!(t.lookup(a), None);
    assert_eq!(t.lookup(2), Some(Resource::Stream(StreamKind::Stderr)));
    assert_eq!(t.close_all(), Vec::<u32>::new());
}

#[test]
fn table_ops_are_comparable() {
    assert_eq!(TableOp::Close(3), TableOp::Close(3));
    assert_ne!(TableOp::Open(OpenMode::Read), TableOp::Open(OpenMode::Write));
}
