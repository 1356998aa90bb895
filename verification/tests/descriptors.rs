use starry_syscalls::abi::{
    F_DUPFD, F_DUPFD_CLOEXEC, F_GETFD, F_GETFL, F_GETLK, F_GETPIPE_SZ, F_OFD_SETLK, F_RDLCK, F_SETFD,
    F_SETFL, F_SETLK, F_SETLKW, F_SETPIPE_SZ, F_UNLCK, F_WRLCK, O_APPEND, O_CLOEXEC, O_CREAT,
    O_EXCL, O_NONBLOCK, O_PATH, O_RDWR, O_TRUNC, O_WRONLY, OpenFlagBits, SEEK_CUR, SEEK_SET,
};
use linux_raw_sys::general::{O_DIRECT, O_DIRECTORY, O_NOFOLLOW};
use starry_syscalls::error::SysError;
use starry_syscalls::fd_ops::{
    FcntlOutcome, FileKind, OpenFile, add_to_fd, flags_to_options, getfl, openat_mode,
    release_locks_for_fd, sys_fcntl, sys_flock,
};
use starry_syscalls::fd_table::{
    FdTable, FileDescriptor, dup_fd, dup_fd_at, sys_close, sys_close_range, sys_dup, sys_dup2,
    sys_dup3,
};
use starry_syscalls::flock::{Flock, LockTable};

/// The open-flag bits of the architecture the tests run on.
fn bits() -> OpenFlagBits {
    OpenFlagBits { direct: O_DIRECT, directory: O_DIRECTORY, no_follow: O_NOFOLLOW }
}

fn fd(file: usize) -> FileDescriptor {
    FileDescriptor { file, cloexec: false }
}

fn regular(inode: u64, flags: u32) -> OpenFile {
    OpenFile { kind: FileKind::Regular { inode, flags, position: Ok(0), size: 100 }, nonblocking: false }
}

#[test]
fn add_takes_the_lowest_free_slot() {
    let mut t = FdTable::new(4);
    assert_eq!(t.capacity(), 4);
    assert_eq!(t.add(fd(0)), Ok(0));
    assert_eq!(t.add(fd(1)), Ok(1));
    assert_eq!(t.remove(0), Some(fd(0)));
    assert_eq!(t.add(fd(2)), Ok(0));
    assert_eq!(t.add(fd(3)), Ok(2));
    assert_eq!(t.add(fd(4)), Ok(3));
    assert_eq!(t.add(fd(5)), Err(SysError::TooManyOpenFiles));
    assert_eq!(t.max_index(), Some(3));
    assert_eq!(t.get(-1), None);
    assert_eq!(t.get(9), None);
}

#[test]
fn close_frees_a_descriptor() {
    let mut t = FdTable::new(4);
    t.add(fd(0)).unwrap();
    assert_eq!(sys_close(&mut t, 0), Ok(0));
    assert_eq!(sys_close(&mut t, 0), Err(SysError::BadFileDescriptor));
    assert_eq!(sys_close(&mut t, -3), Err(SysError::BadFileDescriptor));
    assert_eq!(t.max_index(), None);
}

#[test]
fn dup_shares_the_open_file() {
    let mut t = FdTable::new(8);
    t.add(FileDescriptor { file: 7, cloexec: true }).unwrap();
    assert_eq!(sys_dup(&mut t, 0), Ok(1));
    assert_eq!(t.get(1), Some(fd(7)));
    assert_eq!(dup_fd(&mut t, 0, true), Ok(2));
    assert_eq!(t.get(2), Some(FileDescriptor { file: 7, cloexec: true }));
    assert_eq!(sys_dup(&mut t, 5), Err(SysError::BadFileDescriptor));
}

#[test]
fn dup3_replaces_the_target() {
    let mut t = FdTable::new(8);
    t.add(fd(1)).unwrap();
    t.add(fd(2)).unwrap();
    assert_eq!(sys_dup3(&mut t, 0, 1, O_CLOEXEC as i32), Ok(1));
    assert_eq!(t.get(1), Some(FileDescriptor { file: 1, cloexec: true }));
    assert_eq!(sys_dup3(&mut t, 0, 6, 0), Ok(6));
    assert_eq!(t.get(6), Some(fd(1)));
    assert_eq!(sys_dup3(&mut t, 0, 0, 0), Err(SysError::InvalidInput));
    assert_eq!(sys_dup3(&mut t, 0, 3, 1), Err(SysError::InvalidInput));
    assert_eq!(sys_dup3(&mut t, 4, 3, 0), Err(SysError::BadFileDescriptor));
    assert_eq!(sys_dup3(&mut t, 0, 8, 0), Err(SysError::BadFileDescriptor));
    assert_eq!(sys_dup3(&mut t, 0, -1, 0), Err(SysError::BadFileDescriptor));
}

#[test]
fn dup2_onto_itself() {
    let mut t = FdTable::new(8);
    t.add(fd(1)).unwrap();
    assert_eq!(sys_dup2(&mut t, 0, 0), Ok(0));
    assert_eq!(sys_dup2(&mut t, 3, 3), Err(SysError::BadFileDescriptor));
    assert_eq!(sys_dup2(&mut t, 0, 3), Ok(3));
    assert_eq!(t.get(3), Some(fd(1)));
}

#[test]
fn dup_at_searches_upwards_within_the_limit() {
    let mut t = FdTable::new(8);
    for i in 0..4 {
        t.add(fd(i)).unwrap();
    }
    assert_eq!(dup_fd_at(&mut t, 0, 2, false, 100), Ok(4));
    assert_eq!(dup_fd_at(&mut t, 0, 6, true, 100), Ok(6));
    assert_eq!(t.get(6), Some(FileDescriptor { file: 0, cloexec: true }));
    assert_eq!(dup_fd_at(&mut t, 0, 5, false, 6), Ok(5));
    assert_eq!(dup_fd_at(&mut t, 0, 0, false, 6), Err(SysError::TooManyOpenFiles));
    assert_eq!(dup_fd_at(&mut t, 0, 9, false, 100), Err(SysError::TooManyOpenFiles));
    assert_eq!(dup_fd_at(&mut t, 0, -1, false, 100), Err(SysError::InvalidInput));
    assert_eq!(dup_fd_at(&mut t, 7, 0, false, 100), Err(SysError::BadFileDescriptor));
}

#[test]
fn close_range_closes_or_marks() {
    let mut t = FdTable::new(8);
    for i in 0..6 {
        t.add(fd(i)).unwrap();
    }
    assert_eq!(sys_close_range(&mut t, 1, 2, 4), Ok(0));
    assert_eq!(t.get(1), Some(FileDescriptor { file: 1, cloexec: true }));
    assert_eq!(t.get(3), Some(fd(3)));
    assert_eq!(sys_close_range(&mut t, 3, u32::MAX, 2), Ok(0));
    assert_eq!(t.get(3), None);
    assert_eq!(t.get(5), None);
    assert_eq!(t.get(2), Some(FileDescriptor { file: 2, cloexec: true }));
    assert_eq!(sys_close_range(&mut t, 2, 1, 0), Err(SysError::InvalidInput));
    assert_eq!(sys_close_range(&mut t, 0, 1, 1), Err(SysError::InvalidInput));
    assert_eq!(t.get(0), Some(fd(0)));
}

#[test]
fn open_flags_become_options() {
    let o = flags_to_options(0, 0o644, 1, 2, bits());
    assert!(o.read && !o.write);
    let o = flags_to_options(O_WRONLY as i32, 0, 0, 0, bits());
    assert!(!o.read && o.write);
    let o = flags_to_options(O_RDWR as i32, 0, 0, 0, bits());
    assert!(o.read && o.write);
    let o = flags_to_options(3, 0, 0, 0, bits());
    assert!(o.read && o.write);
    let all = O_APPEND | O_TRUNC | O_CREAT | O_PATH | O_EXCL | O_DIRECTORY | O_NOFOLLOW | O_DIRECT;
    let o = flags_to_options(all as i32, 0o600, 5, 6, bits());
    assert!(o.append && o.truncate && o.create && o.path && o.create_new && o.directory && o.no_follow && o.direct);
    assert_eq!((o.mode, o.uid, o.gid), (0o600, 5, 6));
    assert_eq!(openat_mode(0o777, 0o022), 0o755);
}

#[test]
fn open_flags_follow_the_architecture_bits() {
    // The aarch64 layout: O_DIRECTORY, O_NOFOLLOW and O_DIRECT one bit lower each.
    let aarch64 = OpenFlagBits { direct: 0o200000, directory: 0o40000, no_follow: 0o100000 };
    let o = flags_to_options(0o40000, 0, 0, 0, aarch64);
    assert!(o.directory && !o.direct && !o.no_follow);
    let o = flags_to_options(0o200000, 0, 0, 0, aarch64);
    assert!(o.direct && !o.directory);
    let f = OpenFile { kind: FileKind::Regular { inode: 1, flags: 0o200000, position: Ok(0), size: 0 }, nonblocking: false };
    assert_eq!(getfl(&f, aarch64), Ok(0o200000));
}

#[test]
fn opened_files_get_descriptor_and_flags() {
    let mut t = FdTable::new(4);
    let mut files = Vec::new();
    assert_eq!(add_to_fd(&mut t, &mut files, regular(1, 0), O_NONBLOCK | O_CLOEXEC), Ok(0));
    assert!(files[0].nonblocking);
    assert_eq!(t.get(0), Some(FileDescriptor { file: 0, cloexec: true }));
    assert_eq!(add_to_fd(&mut t, &mut files, regular(2, 0), 0), Ok(1));
    assert_eq!(t.get(1), Some(fd(1)));
    assert!(!files[1].nonblocking);
}

#[test]
fn a_full_table_keeps_no_open_file() {
    let mut t = FdTable::new(1);
    let mut files = Vec::new();
    assert_eq!(add_to_fd(&mut t, &mut files, regular(1, 0), 0), Ok(0));
    assert_eq!(add_to_fd(&mut t, &mut files, regular(2, 0), 0), Err(SysError::TooManyOpenFiles));
    assert_eq!(files.len(), 1);
}

#[test]
fn lock_relative_to_an_unreadable_position_fails() {
    let mut table = FdTable::new(4);
    let mut files = Vec::new();
    let f = OpenFile {
        kind: FileKind::Regular { inode: 4, flags: O_RDWR, position: Err(SysError::Other(29)), size: 0 },
        nonblocking: false,
    };
    add_to_fd(&mut table, &mut files, f, 0).unwrap();
    let mut p = Proc { table, files, locks: LockTable::new() };
    let cur = Ok(Flock { l_type: F_WRLCK, l_whence: SEEK_CUR, l_start: 0, l_len: 10, l_pid: 0 });
    assert_eq!(fcntl(&mut p, 1, 0, F_SETLK, 0, cur), FcntlOutcome::Done(Err(SysError::Other(29))));
    assert_eq!(fcntl(&mut p, 1, 0, F_SETLK, 0, lock(F_WRLCK)), FcntlOutcome::Done(Ok(0)));
}

#[test]
fn getfl_reports_access_mode_and_flags() {
    let f = OpenFile { kind: FileKind::Regular { inode: 1, flags: O_RDWR | O_APPEND | O_CREAT, position: Ok(0), size: 0 }, nonblocking: true };
    assert_eq!(getfl(&f, bits()), Ok(O_RDWR | O_APPEND | O_NONBLOCK));
    let pipe_read = OpenFile { kind: FileKind::Pipe { mode: 0o400 }, nonblocking: false };
    assert_eq!(getfl(&pipe_read, bits()), Ok(0));
    let pipe_write = OpenFile { kind: FileKind::Pipe { mode: 0o200 }, nonblocking: false };
    assert_eq!(getfl(&pipe_write, bits()), Ok(O_WRONLY));
    let dir = OpenFile { kind: FileKind::Other { stat_mode: Ok(0o40755) }, nonblocking: false };
    assert_eq!(getfl(&dir, bits()), Ok(O_RDWR));
    let broken = OpenFile { kind: FileKind::Other { stat_mode: Err(SysError::NotFound) }, nonblocking: false };
    assert_eq!(getfl(&broken, bits()), Err(SysError::NotFound));
}

struct Proc {
    table: FdTable,
    files: Vec<OpenFile>,
    locks: LockTable,
}

fn proc_with_files() -> Proc {
    let mut table = FdTable::new(16);
    let mut files = Vec::new();
    add_to_fd(&mut table, &mut files, regular(10, O_RDWR), 0).unwrap();
    add_to_fd(&mut table, &mut files, OpenFile { kind: FileKind::Pipe { mode: 0o600 }, nonblocking: false }, 0).unwrap();
    Proc { table, files, locks: LockTable::new() }
}

fn fcntl(p: &mut Proc, pid: u64, fd: i32, cmd: u32, arg: usize, fl: Result<Flock, SysError>) -> FcntlOutcome {
    sys_fcntl(&mut p.table, &mut p.files, &mut p.locks, pid, 64, fd, cmd as i32, arg, fl, bits())
}

fn lock(l_type: i16) -> Result<Flock, SysError> {
    Ok(Flock { l_type, l_whence: SEEK_SET, l_start: 0, l_len: 10, l_pid: 0 })
}

#[test]
fn fcntl_descriptor_flags() {
    let mut p = proc_with_files();
    assert_eq!(fcntl(&mut p, 1, 0, F_GETFD, 0, lock(0)), FcntlOutcome::Done(Ok(0)));
    assert_eq!(fcntl(&mut p, 1, 0, F_SETFD, 1, lock(0)), FcntlOutcome::Done(Ok(0)));
    assert_eq!(fcntl(&mut p, 1, 0, F_GETFD, 0, lock(0)), FcntlOutcome::Done(Ok(1)));
    assert_eq!(fcntl(&mut p, 1, 9, F_SETFD, 1, lock(0)), FcntlOutcome::Done(Err(SysError::BadFileDescriptor)));
    assert_eq!(fcntl(&mut p, 1, 9, F_GETFD, 0, lock(0)), FcntlOutcome::Done(Err(SysError::BadFileDescriptor)));
}

#[test]
fn fcntl_status_flags() {
    let mut p = proc_with_files();
    assert_eq!(fcntl(&mut p, 1, 0, F_GETFL, 0, lock(0)), FcntlOutcome::Done(Ok(O_RDWR as isize)));
    assert_eq!(fcntl(&mut p, 1, 0, F_SETFL, O_NONBLOCK as usize, lock(0)), FcntlOutcome::Done(Ok(0)));
    assert_eq!(fcntl(&mut p, 1, 0, F_GETFL, 0, lock(0)), FcntlOutcome::Done(Ok((O_RDWR | O_NONBLOCK) as isize)));
    assert_eq!(fcntl(&mut p, 1, 1, F_GETFL, 0, lock(0)), FcntlOutcome::Done(Ok(O_RDWR as isize)));
    assert_eq!(fcntl(&mut p, 1, 7, F_SETFL, 0, lock(0)), FcntlOutcome::Done(Err(SysError::BadFileDescriptor)));
}

#[test]
fn setfl_then_getfl_changes_only_the_nonblocking_bit() {
    let mut table = FdTable::new(4);
    let mut files = Vec::new();
    add_to_fd(&mut table, &mut files, regular(3, O_WRONLY | O_APPEND | O_DIRECT), 0).unwrap();
    let mut p = Proc { table, files, locks: LockTable::new() };
    let before = O_WRONLY | O_APPEND | O_DIRECT;
    assert_eq!(fcntl(&mut p, 1, 0, F_GETFL, 0, lock(0)), FcntlOutcome::Done(Ok(before as isize)));
    let arg = (O_NONBLOCK | O_RDWR | O_TRUNC) as usize;
    assert_eq!(fcntl(&mut p, 1, 0, F_SETFL, arg, lock(0)), FcntlOutcome::Done(Ok(0)));
    assert_eq!(fcntl(&mut p, 1, 0, F_GETFL, 0, lock(0)), FcntlOutcome::Done(Ok((before | O_NONBLOCK) as isize)));
    assert_eq!(fcntl(&mut p, 1, 0, F_SETFL, O_APPEND as usize, lock(0)), FcntlOutcome::Done(Ok(0)));
    assert_eq!(fcntl(&mut p, 1, 0, F_GETFL, 0, lock(0)), FcntlOutcome::Done(Ok(before as isize)));
}

#[test]
fn fcntl_duplicates() {
    let mut p = proc_with_files();
    assert_eq!(fcntl(&mut p, 1, 0, F_DUPFD, 5, lock(0)), FcntlOutcome::Done(Ok(5)));
    assert_eq!(fcntl(&mut p, 1, 0, F_DUPFD_CLOEXEC, 5, lock(0)), FcntlOutcome::Done(Ok(6)));
    assert_eq!(p.table.get(6), Some(FileDescriptor { file: 0, cloexec: true }));
}

#[test]
fn fcntl_record_locks() {
    let mut p = proc_with_files();
    assert_eq!(fcntl(&mut p, 1, 0, F_SETLK, 0, lock(F_WRLCK)), FcntlOutcome::Done(Ok(0)));
    assert_eq!(fcntl(&mut p, 2, 0, F_SETLK, 0, lock(F_RDLCK)), FcntlOutcome::Done(Err(SysError::WouldBlock)));
    assert_eq!(fcntl(&mut p, 2, 0, F_SETLKW, 0, lock(F_RDLCK)), FcntlOutcome::Retry);
    match fcntl(&mut p, 2, 0, F_GETLK, 0, lock(F_RDLCK)) {
        FcntlOutcome::WriteLock(f) => assert_eq!((f.l_type, f.l_pid, f.l_len), (F_WRLCK, 1, 10)),
        other => panic!("unexpected outcome {:?}", other),
    }
    assert_eq!(fcntl(&mut p, 1, 0, F_SETLK, 0, lock(F_UNLCK)), FcntlOutcome::Done(Ok(0)));
    match fcntl(&mut p, 2, 0, F_GETLK, 0, lock(F_WRLCK)) {
        FcntlOutcome::WriteLock(f) => assert_eq!(f.l_type, F_UNLCK),
        other => panic!("unexpected outcome {:?}", other),
    }
    assert_eq!(fcntl(&mut p, 1, 1, F_SETLK, 0, lock(F_WRLCK)), FcntlOutcome::Done(Err(SysError::InvalidInput)));
    assert_eq!(fcntl(&mut p, 1, 9, F_SETLK, 0, lock(F_WRLCK)), FcntlOutcome::Done(Err(SysError::BadFileDescriptor)));
    assert_eq!(fcntl(&mut p, 1, 0, F_SETLK, 0, Err(SysError::NotFound)), FcntlOutcome::Done(Err(SysError::NotFound)));
    assert_eq!(fcntl(&mut p, 1, 0, F_OFD_SETLK, 0, lock(F_WRLCK)), FcntlOutcome::Done(Err(SysError::InvalidInput)));
}

#[test]
fn fcntl_pipes_and_unknown_commands() {
    let mut p = proc_with_files();
    assert_eq!(fcntl(&mut p, 1, 1, F_GETPIPE_SZ, 0, lock(0)), FcntlOutcome::PipeCapacity { file: 1 });
    assert_eq!(fcntl(&mut p, 1, 1, F_SETPIPE_SZ, 8192, lock(0)), FcntlOutcome::ResizePipe { file: 1, size: 8192 });
    assert_eq!(fcntl(&mut p, 1, 0, F_GETPIPE_SZ, 0, lock(0)), FcntlOutcome::Done(Err(SysError::InvalidInput)));
    assert_eq!(fcntl(&mut p, 1, 0, 999, 0, lock(0)), FcntlOutcome::Done(Err(SysError::InvalidInput)));
    assert_eq!(sys_flock(0, 2), Ok(0));
}

#[test]
fn closing_a_descriptor_releases_its_locks() {
    let mut p = proc_with_files();
    assert_eq!(fcntl(&mut p, 1, 0, F_SETLK, 0, lock(F_WRLCK)), FcntlOutcome::Done(Ok(0)));
    release_locks_for_fd(&p.table, &p.files, &mut p.locks, 1, 0);
    assert_eq!(fcntl(&mut p, 2, 0, F_SETLK, 0, lock(F_WRLCK)), FcntlOutcome::Done(Ok(0)));
}

#[test]
fn close_undoes_dup() {
    let mut t = FdTable::new(4);
    t.add(fd(0)).unwrap();
    t.add(fd(1)).unwrap();
    t.remove(0);
    let before: Vec<_> = (0..4).map(|i| t.get(i)).collect();
    let new_fd = sys_dup(&mut t, 1).unwrap();
    assert_eq!(new_fd, 0);
    assert_eq!(sys_close(&mut t, new_fd as i32), Ok(0));
    let after: Vec<_> = (0..4).map(|i| t.get(i)).collect();
    assert_eq!(before, after);
}
