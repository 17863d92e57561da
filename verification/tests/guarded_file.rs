use disk_lock::{FileState, LockedFile, SeekFrom};

#[test]
fn empty_file_write_seek_read_round_trip() {
    // A handle that participates in the locking policy, over an empty file.
    let mut lf = LockedFile::new_lock(FileState::empty(), false);
    let n = lf.write(&b"hello".to_vec());
    assert_eq!(n, 5);
    assert_eq!(lf.file.cursor, 5);
    let pos = lf.seek(SeekFrom::Start(0)).unwrap();
    assert_eq!(pos, 0);
    let mut buf = vec![0u8; 5];
    let m = lf.read(&mut buf);
    assert_eq!(m, 5);
    assert_eq!(buf, b"hello".to_vec());
}

#[test]
fn positioned_write_extends_with_zero_fill() {
    let mut file = FileState::empty();
    file.write_at(0, &vec![1, 2, 3, 4, 5]);
    let mut lf = LockedFile::new(file);
    let n = lf.write_at(10, &b"X".to_vec());
    assert_eq!(n, 1);
    assert_eq!(lf.metadata().len(), 11);
    assert_eq!(lf.file.data[10], b'X');
    assert_eq!(&lf.file.data[5..10], &[0, 0, 0, 0, 0]);
    assert_eq!(&lf.file.data[0..5], &[1, 2, 3, 4, 5]);
    // Positioned writes never move the sequential cursor.
    assert_eq!(lf.file.cursor, 0);
}

#[test]
fn positioned_round_trip() {
    let mut lf = LockedFile::new(FileState::empty());
    lf.write_at(7, &b"payload".to_vec());
    let mut buf = vec![0u8; 7];
    let m = lf.read_at(7, &mut buf);
    assert_eq!(m, 7);
    assert_eq!(buf, b"payload".to_vec());
}

#[test]
fn positioned_write_visible_to_sequential_read() {
    let mut lf = LockedFile::new(FileState::empty());
    lf.write_at(3, &b"abc".to_vec());
    lf.seek(SeekFrom::Start(3)).unwrap();
    let mut buf = vec![0u8; 3];
    assert_eq!(lf.read(&mut buf), 3);
    assert_eq!(buf, b"abc".to_vec());
}

#[test]
fn sequential_write_visible_to_positioned_read() {
    let mut lf = LockedFile::new(FileState::empty());
    lf.seek(SeekFrom::Start(2)).unwrap();
    lf.write(&b"xyz".to_vec());
    let mut buf = vec![0u8; 3];
    assert_eq!(lf.read_at(2, &mut buf), 3);
    assert_eq!(buf, b"xyz".to_vec());
}

#[test]
fn set_len_reports_exact_length() {
    let mut lf = LockedFile::new(FileState::empty());
    lf.write(&b"abcdef".to_vec());
    lf.set_len(3);
    assert_eq!(lf.metadata().len(), 3);
    assert_eq!(lf.file.data, b"abc".to_vec());
    lf.set_len(9);
    assert_eq!(lf.metadata().len(), 9);
}

#[test]
fn extend_then_truncate_preserves_leading_bytes() {
    let mut lf = LockedFile::new(FileState::empty());
    lf.write(&b"keep".to_vec());
    lf.set_len(100);
    assert_eq!(lf.metadata().len(), 100);
    assert_eq!(lf.file.data[99], 0);
    lf.set_len(4);
    assert_eq!(lf.metadata().len(), 4);
    assert_eq!(lf.file.data, b"keep".to_vec());
    // The cursor never moved with the length changes.
    assert_eq!(lf.file.cursor, 4);
}

#[test]
fn sync_never_alters_content_or_length() {
    let mut lf = LockedFile::new(FileState::empty());
    lf.write(&b"durable".to_vec());
    let before = lf.file.data.clone();
    lf.sync_all();
    lf.sync_data();
    assert_eq!(lf.file.data, before);
    assert_eq!(lf.metadata().len(), 7);
    assert_eq!(lf.file.cursor, 7);
}

#[test]
fn flush_changes_nothing() {
    let mut lf = LockedFile::new_lock(FileState::empty(), true);
    lf.write(&b"ab".to_vec());
    lf.flush();
    assert_eq!(lf.file.data, b"ab".to_vec());
    assert_eq!(lf.file.cursor, 2);
    assert!(lf.no_lock);
}

#[test]
fn new_defaults_to_locking_policy() {
    let lf = LockedFile::new(FileState::empty());
    assert!(!lf.no_lock);
    let bypass = LockedFile::new_lock(FileState::empty(), true);
    assert!(bypass.no_lock);
}

#[test]
fn no_handle_requests_a_guard_at_present() {
    // Handles that bypass the lock never request a hold; with the shared
    // acquisition switched off, neither do the others.
    assert!(!disk_lock::shared_guard_wanted(true));
    assert!(!disk_lock::shared_guard_wanted(false));
}

#[test]
fn operations_on_a_bypassing_handle_proceed() {
    let mut lf = LockedFile::new_lock(FileState::empty(), true);
    assert_eq!(lf.write(&b"free".to_vec()), 4);
    lf.seek(SeekFrom::Start(0)).unwrap();
    let mut buf = vec![0u8; 4];
    assert_eq!(lf.read(&mut buf), 4);
    assert_eq!(buf, b"free".to_vec());
}
