use starry_syscalls::abi::{F_RDLCK, F_UNLCK, F_WRLCK, SEEK_CUR, SEEK_END, SEEK_SET};
use starry_syscalls::error::SysError;
use starry_syscalls::flock::{
    FileLock, Flock, LockTable, lock_range_to_abs, locks_conflict, merge_same_owner_locks, overlap,
    range_extends_past, retain_unlocked_segments,
};

fn req(l_type: i16, start: i64, len: i64) -> Flock {
    Flock { l_type, l_whence: SEEK_SET, l_start: start, l_len: len, l_pid: 0 }
}

fn set(t: &mut LockTable, pid: u64, l_type: i16, start: i64, len: i64) -> Result<Option<FileLock>, SysError> {
    t.set_file_lock(1, pid, &req(l_type, start, len), Ok(0), 1000)
}

fn query(t: &LockTable, pid: u64, l_type: i16, start: i64, len: i64) -> Flock {
    let mut f = req(l_type, start, len);
    t.get_file_lock(1, pid, &mut f, Ok(0), 1000).unwrap();
    f
}

#[test]
fn range_from_seek_set_cur_and_end() {
    assert_eq!(lock_range_to_abs(&req(F_RDLCK, 10, 5), Ok(0), 0), Ok((10, Some(15))));
    assert_eq!(lock_range_to_abs(&req(F_RDLCK, 10, 0), Ok(0), 0), Ok((10, None)));
    let cur = Flock { l_whence: SEEK_CUR, ..req(F_RDLCK, -4, 2) };
    assert_eq!(lock_range_to_abs(&cur, Ok(100), 0), Ok((96, Some(98))));
    assert_eq!(lock_range_to_abs(&cur, Err(SysError::BadFileDescriptor), 0), Err(SysError::BadFileDescriptor));
    let end = Flock { l_whence: SEEK_END, ..req(F_RDLCK, -10, 5) };
    assert_eq!(lock_range_to_abs(&end, Err(SysError::BadFileDescriptor), 100), Ok((90, Some(95))));
}

#[test]
fn bad_ranges_are_rejected() {
    let bad_whence = Flock { l_whence: 3, ..req(F_RDLCK, 0, 1) };
    assert_eq!(lock_range_to_abs(&bad_whence, Ok(0), 0), Err(SysError::InvalidInput));
    assert_eq!(lock_range_to_abs(&req(F_RDLCK, 0, -1), Ok(0), 0), Err(SysError::InvalidInput));
    assert_eq!(lock_range_to_abs(&req(F_RDLCK, -1, 1), Ok(0), 0), Err(SysError::InvalidInput));
    let end = Flock { l_whence: SEEK_END, ..req(F_RDLCK, i64::MAX, i64::MAX) };
    assert_eq!(lock_range_to_abs(&end, Ok(0), u64::MAX), Err(SysError::InvalidInput));
    let cur = Flock { l_whence: SEEK_CUR, ..req(F_RDLCK, i64::MIN, 1) };
    assert_eq!(lock_range_to_abs(&cur, Ok(1u64 << 63), 0), Ok((0, Some(1))));
}

#[test]
fn overlap_and_extent_helpers() {
    assert!(overlap(0, Some(10), 5, Some(15)));
    assert!(!overlap(0, Some(10), 10, Some(15)));
    assert!(overlap(0, None, 100, Some(101)));
    assert!(!overlap(20, None, 0, Some(20)));
    assert!(range_extends_past(None, 5));
    assert!(range_extends_past(Some(6), 5));
    assert!(!range_extends_past(Some(5), 5));
    assert!(locks_conflict(F_WRLCK, F_RDLCK));
    assert!(locks_conflict(F_RDLCK, F_WRLCK));
    assert!(!locks_conflict(F_RDLCK, F_RDLCK));
}

#[test]
fn unlocking_the_middle_splits_a_lock() {
    let lock = FileLock { pid: 1, start: 0, end: Some(100), typ: F_WRLCK };
    let mut out = Vec::new();
    retain_unlocked_segments(lock, 10, Some(20), &mut out);
    assert_eq!(out, vec![
        FileLock { pid: 1, start: 0, end: Some(10), typ: F_WRLCK },
        FileLock { pid: 1, start: 20, end: Some(100), typ: F_WRLCK },
    ]);
    let mut untouched = Vec::new();
    retain_unlocked_segments(lock, 200, None, &mut untouched);
    assert_eq!(untouched, vec![lock]);
    let mut tail = Vec::new();
    retain_unlocked_segments(lock, 50, None, &mut tail);
    assert_eq!(tail, vec![FileLock { pid: 1, start: 0, end: Some(50), typ: F_WRLCK }]);
}

#[test]
fn touching_locks_of_one_owner_merge() {
    let mut locks = vec![
        FileLock { pid: 2, start: 10, end: Some(20), typ: F_RDLCK },
        FileLock { pid: 1, start: 5, end: Some(8), typ: F_WRLCK },
        FileLock { pid: 2, start: 0, end: Some(10), typ: F_RDLCK },
        FileLock { pid: 2, start: 15, end: None, typ: F_RDLCK },
        FileLock { pid: 1, start: 8, end: Some(9), typ: F_RDLCK },
    ];
    merge_same_owner_locks(&mut locks);
    assert_eq!(locks, vec![
        FileLock { pid: 1, start: 8, end: Some(9), typ: F_RDLCK },
        FileLock { pid: 1, start: 5, end: Some(8), typ: F_WRLCK },
        FileLock { pid: 2, start: 0, end: None, typ: F_RDLCK },
    ]);
}

#[test]
fn write_lock_blocks_other_processes() {
    let mut t = LockTable::new();
    assert_eq!(set(&mut t, 1, F_WRLCK, 0, 10), Ok(None));
    let f = query(&t, 2, F_RDLCK, 5, 1);
    assert_eq!((f.l_type, f.l_start, f.l_len, f.l_pid), (F_WRLCK, 0, 10, 1));
    assert_eq!(set(&mut t, 2, F_RDLCK, 9, 5), Ok(Some(FileLock { pid: 1, start: 0, end: Some(10), typ: F_WRLCK })));
    // The owner itself is never blocked by its own lock.
    assert_eq!(query(&t, 1, F_WRLCK, 0, 10).l_type, F_UNLCK);
    // Beyond the lock there is no conflict.
    assert_eq!(query(&t, 2, F_WRLCK, 10, 5).l_type, F_UNLCK);
}

#[test]
fn read_locks_are_shared_between_processes() {
    let mut t = LockTable::new();
    assert_eq!(set(&mut t, 1, F_RDLCK, 0, 10), Ok(None));
    assert_eq!(set(&mut t, 2, F_RDLCK, 0, 10), Ok(None));
    assert_eq!(query(&t, 3, F_RDLCK, 0, 0).l_type, F_UNLCK);
    let f = query(&t, 3, F_WRLCK, 0, 0);
    assert_eq!((f.l_type, f.l_pid), (F_RDLCK, 1));
}

#[test]
fn unlocking_part_of_a_range_frees_only_that_part() {
    let mut t = LockTable::new();
    assert_eq!(set(&mut t, 1, F_WRLCK, 0, 100), Ok(None));
    assert_eq!(set(&mut t, 1, F_UNLCK, 10, 10), Ok(None));
    assert_eq!(query(&t, 2, F_WRLCK, 10, 10).l_type, F_UNLCK);
    let left = query(&t, 2, F_WRLCK, 5, 1);
    assert_eq!((left.l_start, left.l_len), (0, 10));
    let right = query(&t, 2, F_WRLCK, 50, 1);
    assert_eq!((right.l_start, right.l_len), (20, 80));
}

#[test]
fn adjacent_locks_are_reported_as_one() {
    let mut t = LockTable::new();
    assert_eq!(set(&mut t, 1, F_WRLCK, 0, 10), Ok(None));
    assert_eq!(set(&mut t, 1, F_WRLCK, 10, 10), Ok(None));
    let f = query(&t, 2, F_RDLCK, 0, 0);
    assert_eq!((f.l_start, f.l_len), (0, 20));
}

#[test]
fn converting_a_lock_replaces_its_type() {
    let mut t = LockTable::new();
    assert_eq!(set(&mut t, 1, F_WRLCK, 0, 10), Ok(None));
    assert_eq!(set(&mut t, 1, F_RDLCK, 0, 10), Ok(None));
    assert_eq!(set(&mut t, 2, F_RDLCK, 0, 10), Ok(None));
    // Setting the same lock twice changes nothing.
    assert_eq!(set(&mut t, 2, F_RDLCK, 0, 10), Ok(None));
    let f = query(&t, 3, F_WRLCK, 0, 10);
    assert_eq!((f.l_type, f.l_pid, f.l_start, f.l_len), (F_RDLCK, 1, 0, 10));
}

#[test]
fn reported_conflict_is_the_earliest() {
    let mut t = LockTable::new();
    assert_eq!(set(&mut t, 3, F_WRLCK, 50, 10), Ok(None));
    assert_eq!(set(&mut t, 2, F_WRLCK, 20, 10), Ok(None));
    assert_eq!(set(&mut t, 4, F_RDLCK, 20, 5), Ok(Some(FileLock { pid: 2, start: 20, end: Some(30), typ: F_WRLCK })));
    let f = query(&t, 1, F_RDLCK, 0, 0);
    assert_eq!((f.l_pid, f.l_start), (2, 20));
}

#[test]
fn unlock_over_another_write_lock_reports_it() {
    let mut t = LockTable::new();
    assert_eq!(set(&mut t, 1, F_WRLCK, 0, 10), Ok(None));
    assert_eq!(set(&mut t, 2, F_UNLCK, 0, 10), Ok(Some(FileLock { pid: 1, start: 0, end: Some(10), typ: F_WRLCK })));
}

#[test]
fn invalid_lock_type_is_rejected() {
    let mut t = LockTable::new();
    assert_eq!(set(&mut t, 1, 7, 0, 10), Err(SysError::InvalidInput));
    let mut f = Flock { l_whence: 9, ..req(F_WRLCK, 0, 1) };
    assert_eq!(t.get_file_lock(1, 1, &mut f, Ok(0), 0), Err(SysError::InvalidInput));
}

#[test]
fn releasing_a_process_drops_its_locks() {
    let mut t = LockTable::new();
    assert_eq!(set(&mut t, 1, F_WRLCK, 0, 10), Ok(None));
    assert_eq!(t.set_file_lock(2, 1, &req(F_WRLCK, 0, 10), Ok(0), 0), Ok(None));
    assert_eq!(set(&mut t, 2, F_WRLCK, 20, 10), Ok(None));
    t.release_locks_for_pid(1);
    assert_eq!(query(&t, 3, F_WRLCK, 0, 10).l_type, F_UNLCK);
    let mut other_inode = req(F_WRLCK, 0, 10);
    t.get_file_lock(2, 3, &mut other_inode, Ok(0), 0).unwrap();
    assert_eq!(other_inode.l_type, F_UNLCK);
    assert_eq!(query(&t, 3, F_WRLCK, 20, 1).l_pid, 2);
}

#[test]
fn releasing_one_inode_keeps_the_others() {
    let mut t = LockTable::new();
    assert_eq!(set(&mut t, 1, F_WRLCK, 0, 10), Ok(None));
    assert_eq!(t.set_file_lock(2, 1, &req(F_WRLCK, 0, 10), Ok(0), 0), Ok(None));
    t.release_inode_locks(1, 1);
    assert_eq!(query(&t, 3, F_WRLCK, 0, 10).l_type, F_UNLCK);
    let mut other_inode = req(F_WRLCK, 0, 10);
    t.get_file_lock(2, 3, &mut other_inode, Ok(0), 0).unwrap();
    assert_eq!(other_inode.l_pid, 1);
}

#[test]
fn conflicting_lock_names_the_blocker() {
    let mut t = LockTable::new();
    assert_eq!(t.conflicting_lock(1, 2, &req(F_WRLCK, 0, 1), Ok(0), 0), Ok(None));
    assert_eq!(set(&mut t, 1, F_RDLCK, 0, 0), Ok(None));
    assert_eq!(
        t.conflicting_lock(1, 2, &req(F_WRLCK, 500, 1), Ok(0), 0),
        Ok(Some(FileLock { pid: 1, start: 0, end: None, typ: F_RDLCK }))
    );
}

#[test]
fn getlk_predicts_what_setlk_meets() {
    let mut t = LockTable::new();
    assert_eq!(set(&mut t, 1, F_WRLCK, 0, 10), Ok(None));
    assert_eq!(set(&mut t, 2, F_RDLCK, 20, 10), Ok(None));
    for (l_type, start, len) in [(F_RDLCK, 5, 3), (F_WRLCK, 25, 1), (F_RDLCK, 15, 3), (F_WRLCK, 0, 0)] {
        let answer = query(&t, 3, l_type, start, len);
        let mut copy = LockTable::new();
        // Replay the same locks into a scratch table to try the request there.
        assert_eq!(set(&mut copy, 1, F_WRLCK, 0, 10), Ok(None));
        assert_eq!(set(&mut copy, 2, F_RDLCK, 20, 10), Ok(None));
        match set(&mut copy, 3, l_type, start, len) {
            Ok(None) => assert_eq!(answer, Flock { l_type: F_UNLCK, ..req(l_type, start, len) }),
            Ok(Some(c)) => {
                assert_eq!(answer.l_type, c.typ);
                assert_eq!(answer.l_start, c.start as i64);
                assert_eq!(answer.l_pid, c.pid as i32);
            }
            Err(e) => panic!("unexpected error {e:?}"),
        }
    }
}

#[test]
fn the_same_bytes_held_give_the_same_locks() {
    // Two pieces that touch, set one after the other, end up as the one lock
    // that setting the whole range at once gives.
    let mut pieces = LockTable::new();
    assert_eq!(set(&mut pieces, 1, F_WRLCK, 10, 10), Ok(None));
    assert_eq!(set(&mut pieces, 1, F_WRLCK, 0, 10), Ok(None));
    let mut whole = LockTable::new();
    assert_eq!(set(&mut whole, 1, F_WRLCK, 0, 20), Ok(None));
    for t in [&pieces, &whole] {
        let f = query(t, 2, F_RDLCK, 0, 0);
        assert_eq!((f.l_type, f.l_start, f.l_len, f.l_pid), (F_WRLCK, 0, 20, 1));
    }
}

#[test]
fn a_process_never_holds_a_byte_under_two_types() {
    let mut t = LockTable::new();
    assert_eq!(set(&mut t, 1, F_RDLCK, 0, 10), Ok(None));
    assert_eq!(set(&mut t, 1, F_WRLCK, 5, 10), Ok(None));
    // The read lock now ends where the write lock starts.
    let f = query(&t, 2, F_WRLCK, 0, 5);
    assert_eq!((f.l_type, f.l_start, f.l_len, f.l_pid), (F_RDLCK, 0, 5, 1));
    let g = query(&t, 2, F_RDLCK, 0, 0);
    assert_eq!((g.l_type, g.l_start, g.l_len, g.l_pid), (F_WRLCK, 5, 10, 1));
    assert_eq!(query(&t, 2, F_RDLCK, 0, 5).l_type, F_UNLCK);
}
