use disk_lock::{FileState, SeekError, SeekFrom};

#[test]
fn read_at_end_of_file_returns_zero() {
    let mut f = FileState::empty();
    f.write(&b"ab".to_vec());
    let mut buf = vec![9u8; 4];
    let n = f.read(&mut buf);
    assert_eq!(n, 0);
    // Bytes past the count keep their old values.
    assert_eq!(buf, vec![9, 9, 9, 9]);
    assert_eq!(f.cursor, 2);
}

#[test]
fn short_read_stops_at_end_of_file() {
    let mut f = FileState::empty();
    f.write(&b"abcde".to_vec());
    f.seek(SeekFrom::Start(3)).unwrap();
    let mut buf = vec![7u8; 4];
    let n = f.read(&mut buf);
    assert_eq!(n, 2);
    assert_eq!(buf, vec![b'd', b'e', 7, 7]);
    assert_eq!(f.cursor, 5);
}

#[test]
fn read_with_cursor_past_end_returns_zero() {
    let mut f = FileState::empty();
    f.write(&b"ab".to_vec());
    f.seek(SeekFrom::Start(50)).unwrap();
    let mut buf = vec![1u8; 3];
    assert_eq!(f.read(&mut buf), 0);
    assert_eq!(buf, vec![1, 1, 1]);
}

#[test]
fn seek_from_end_and_current() {
    let mut f = FileState::empty();
    f.write(&b"abcdef".to_vec());
    assert_eq!(f.seek(SeekFrom::End(-2)).unwrap(), 4);
    assert_eq!(f.seek(SeekFrom::Current(1)).unwrap(), 5);
    assert_eq!(f.seek(SeekFrom::Current(-5)).unwrap(), 0);
    assert_eq!(f.seek(SeekFrom::End(3)).unwrap(), 9);
}

#[test]
fn seek_before_start_fails_and_keeps_cursor() {
    let mut f = FileState::empty();
    f.write(&b"abc".to_vec());
    assert_eq!(f.seek(SeekFrom::Current(-4)), Err(SeekError));
    assert_eq!(f.cursor, 3);
    assert_eq!(f.seek(SeekFrom::End(-4)), Err(SeekError));
    assert_eq!(f.cursor, 3);
}

#[test]
fn seek_past_largest_offset_fails() {
    let mut f = FileState::empty();
    f.seek(SeekFrom::Start(u64::MAX)).unwrap();
    assert_eq!(f.seek(SeekFrom::Current(1)), Err(SeekError));
    assert_eq!(f.cursor, u64::MAX);
    assert_eq!(f.seek(SeekFrom::Current(i64::MIN)).unwrap(), u64::MAX - (1u64 << 63));
}

#[test]
fn sequential_write_after_seek_past_end_zero_fills() {
    let mut f = FileState::empty();
    f.write(&b"abcde".to_vec());
    f.seek(SeekFrom::Start(8)).unwrap();
    assert_eq!(f.write(&b"Z".to_vec()), 1);
    assert_eq!(f.data.len(), 9);
    assert_eq!(&f.data[5..8], &[0, 0, 0]);
    assert_eq!(f.data[8], b'Z');
    assert_eq!(f.cursor, 9);
}

#[test]
fn empty_write_beyond_end_does_not_extend() {
    let mut f = FileState::empty();
    f.write(&b"ab".to_vec());
    assert_eq!(f.write_at(100, &Vec::new()), 0);
    assert_eq!(f.data.len(), 2);
}

#[test]
fn overwrite_in_place_keeps_the_rest() {
    let mut f = FileState::empty();
    f.write(&b"abcdef".to_vec());
    assert_eq!(f.write_at(2, &b"XY".to_vec()), 2);
    assert_eq!(f.data, b"abXYef".to_vec());
    assert_eq!(f.cursor, 6);
}

#[test]
fn write_vectored_concatenates() {
    let mut f = FileState::empty();
    let n = f.write_vectored(&vec![b"ab".to_vec(), b"".to_vec(), b"cde".to_vec()]);
    assert_eq!(n, 5);
    assert_eq!(f.data, b"abcde".to_vec());
    assert_eq!(f.cursor, 5);
}

#[test]
fn read_vectored_fills_buffers_in_order() {
    let mut f = FileState::empty();
    f.write(&b"abcdef".to_vec());
    f.seek(SeekFrom::Start(1)).unwrap();
    let mut bufs = vec![vec![0u8; 2], vec![0u8; 3]];
    let n = f.read_vectored(&mut bufs);
    assert_eq!(n, 5);
    assert_eq!(bufs[0], b"bc".to_vec());
    assert_eq!(bufs[1], b"def".to_vec());
    assert_eq!(f.cursor, 6);
}

#[test]
fn read_vectored_partial_fill_at_end_of_file() {
    let mut f = FileState::empty();
    f.write(&b"abcd".to_vec());
    f.seek(SeekFrom::Start(3)).unwrap();
    let mut bufs = vec![vec![9u8; 2], vec![9u8; 2]];
    let n = f.read_vectored(&mut bufs);
    assert_eq!(n, 1);
    assert_eq!(bufs[0], vec![b'd', 9]);
    assert_eq!(bufs[1], vec![9, 9]);
    assert_eq!(f.cursor, 4);
}

#[test]
fn set_len_leaves_cursor_even_past_end() {
    let mut f = FileState::empty();
    f.write(&b"abcdef".to_vec());
    f.set_len(2);
    assert_eq!(f.cursor, 6);
    assert_eq!(f.data, b"ab".to_vec());
    // Reading with the cursor beyond the shortened file finds nothing.
    let mut buf = vec![5u8; 2];
    assert_eq!(f.read(&mut buf), 0);
}

#[test]
fn metadata_len_method_reports_field() {
    let mut lf = disk_lock::LockedFile::new(FileState::empty());
    lf.write(&b"abc".to_vec());
    let md = lf.metadata();
    assert_eq!(md.len, 3);
    assert_eq!(md.len(), 3);
}
