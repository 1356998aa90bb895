//! Calls on descriptors that reach the open files behind them: `open` flag
//! handling, `fcntl`, and releasing record locks when a descriptor goes away.
use vstd::prelude::*;

use crate::abi::{
    F_DUPFD, F_DUPFD_CLOEXEC, F_GETFD, F_GETFL, F_GETLK, F_GETPIPE_SZ, F_OFD_GETLK, F_OFD_SETLK,
    F_OFD_SETLKW, F_SETFD, F_SETFL, F_SETLK, F_SETLKW, F_SETPIPE_SZ, FD_CLOEXEC, O_APPEND, O_CLOEXEC,
    O_CREAT, O_EXCL, O_NONBLOCK, OpenFlagBits, O_PATH, O_RDONLY, O_RDWR, O_TRUNC,
    O_WRONLY, S_IRUSR, S_IWUSR,
};
use crate::error::SysError;
use crate::fd_table::{
    FdTable, FileDescriptor, dup_at_outcome, dup_fd_at, fd_slot, is_first_free, none_free,
};
use crate::flock::{FileLock, Flock, LockTable, get_lock_outcome, set_lock_outcome, without_pid};

verus! {

/// What kind of object an open file is, with what the calls here read of it.
#[derive(Clone, Copy, Debug, PartialEq, Eq)]
pub enum FileKind {
    /// A regular file: its inode, open flags, current position (or the error
    /// that reading it gave) and size.
    Regular { inode: u64, flags: u32, position: Result<u64, SysError>, size: u64 },
    /// A pipe, with the mode that `stat` reports.
    Pipe { mode: u32 },
    /// Anything else (directories, sockets, devices, ...), with the outcome of `stat`.
    Other { stat_mode: Result<u32, SysError> },
}

/// An open file, shared by every descriptor that refers to it.
#[derive(Clone, Copy, Debug, PartialEq, Eq)]
pub struct OpenFile {
    pub kind: FileKind,
    pub nonblocking: bool,
}

/// What `open` is asked to do, as read from its flags.
#[derive(Clone, Copy, Debug, PartialEq, Eq)]
pub struct OpenOptions {
    pub read: bool,
    pub write: bool,
    pub append: bool,
    pub truncate: bool,
    pub create: bool,
    pub create_new: bool,
    pub path: bool,
    pub directory: bool,
    pub no_follow: bool,
    pub direct: bool,
    pub mode: u32,
    pub uid: u32,
    pub gid: u32,
}

/// Every descriptor of `table` refers to an open file of `files`.
pub open spec fn files_wf(table: Seq<Option<FileDescriptor>>, files: Seq<OpenFile>) -> bool {
    forall|i: int| 0 <= i < table.len() && #[trigger] table[i] is Some ==> table[i]->Some_0.file < files.len()
}

/// The open file behind descriptor `fd`.
pub open spec fn file_of(table: Seq<Option<FileDescriptor>>, files: Seq<OpenFile>, fd: int) -> Option<OpenFile> {
    match fd_slot(table, fd) {
        Some(d) => Some(files[d.file as int]),
        None => None,
    }
}

/// The options that open flags `flags` ask for.
pub open spec fn options_of(flags: u32, mode: u32, uid: u32, gid: u32, bits: OpenFlagBits) -> OpenOptions {
    OpenOptions {
        read: flags & 3 != O_WRONLY,
        write: flags & 3 != O_RDONLY,
        append: flags & O_APPEND != 0,
        truncate: flags & O_TRUNC != 0,
        create: flags & O_CREAT != 0,
        create_new: flags & O_EXCL != 0,
        path: flags & O_PATH != 0,
        directory: flags & bits.directory != 0,
        no_follow: flags & bits.no_follow != 0,
        direct: flags & bits.direct != 0,
        mode,
        uid,
        gid,
    }
}

proof fn lemma_flag_toggle(a: u32, f: u32, g: u32)
    by (bit_vector)
    requires
        f & g == 0 || g & f == 0,
    ensures
        (a | f) & g == (a & !f) & g,
{
}

proof fn lemma_flag_set(a: u32, f: u32)
    by (bit_vector)
    requires
        f != 0,
    ensures
        (a | f) & f != 0,
        (a & !f) & f == 0,
{
}

/// Each of `O_APPEND`, `O_TRUNC`, `O_CREAT`, `O_EXCL` and `O_PATH` turns on
/// its own option and nothing else: adding the flag to any flags sets that
/// one option and leaves every other option (the access mode included) as
/// it is without the flag, and without the flag the option is off. So
/// `O_CREAT` alone never truncates, and only `O_TRUNC` does. This needs the
/// architecture's bits for `O_DIRECTORY`, `O_NOFOLLOW` and `O_DIRECT` to lie
/// apart from these flags and from the access mode, as they do on Linux.
pub proof fn law_open_flags_are_independent(flags: u32, mode: u32, uid: u32, gid: u32, bits: OpenFlagBits)
    requires
        bits.directory & (3u32 | O_APPEND | O_TRUNC | O_CREAT | O_EXCL | O_PATH) == 0,
        bits.no_follow & (3u32 | O_APPEND | O_TRUNC | O_CREAT | O_EXCL | O_PATH) == 0,
        bits.direct & (3u32 | O_APPEND | O_TRUNC | O_CREAT | O_EXCL | O_PATH) == 0,
    ensures
        options_of(flags | O_APPEND, mode, uid, gid, bits) == (OpenOptions { append: true, ..options_of(flags & !O_APPEND, mode, uid, gid, bits) }),
        !options_of(flags & !O_APPEND, mode, uid, gid, bits).append,
        options_of(flags | O_TRUNC, mode, uid, gid, bits) == (OpenOptions { truncate: true, ..options_of(flags & !O_TRUNC, mode, uid, gid, bits) }),
        !options_of(flags & !O_TRUNC, mode, uid, gid, bits).truncate,
        options_of(flags | O_CREAT, mode, uid, gid, bits) == (OpenOptions { create: true, ..options_of(flags & !O_CREAT, mode, uid, gid, bits) }),
        !options_of(flags & !O_CREAT, mode, uid, gid, bits).create,
        options_of(flags | O_EXCL, mode, uid, gid, bits) == (OpenOptions { create_new: true, ..options_of(flags & !O_EXCL, mode, uid, gid, bits) }),
        !options_of(flags & !O_EXCL, mode, uid, gid, bits).create_new,
        options_of(flags | O_PATH, mode, uid, gid, bits) == (OpenOptions { path: true, ..options_of(flags & !O_PATH, mode, uid, gid, bits) }),
        !options_of(flags & !O_PATH, mode, uid, gid, bits).path,
{
    let (d, n, x) = (bits.directory, bits.no_follow, bits.direct);
    assert(d & (3u32 | 0o2000u32 | 0o1000u32 | 0o100u32 | 0o200u32 | 0o10000000u32) == 0 ==> (d & 0o2000u32 == 0
        && d & 0o1000u32 == 0 && d & 0o100u32 == 0 && d & 0o200u32 == 0 && d & 0o10000000u32 == 0)) by (bit_vector);
    assert(n & (3u32 | 0o2000u32 | 0o1000u32 | 0o100u32 | 0o200u32 | 0o10000000u32) == 0 ==> (n & 0o2000u32 == 0
        && n & 0o1000u32 == 0 && n & 0o100u32 == 0 && n & 0o200u32 == 0 && n & 0o10000000u32 == 0)) by (bit_vector);
    assert(x & (3u32 | 0o2000u32 | 0o1000u32 | 0o100u32 | 0o200u32 | 0o10000000u32) == 0 ==> (x & 0o2000u32 == 0
        && x & 0o1000u32 == 0 && x & 0o100u32 == 0 && x & 0o200u32 == 0 && x & 0o10000000u32 == 0)) by (bit_vector);
    assert(0o2000u32 & 3u32 == 0 && 0o1000u32 & 3u32 == 0 && 0o100u32 & 3u32 == 0 && 0o200u32 & 3u32 == 0
        && 0o10000000u32 & 3u32 == 0) by (bit_vector);
    assert(0o2000u32 & 0o1000u32 == 0 && 0o2000u32 & 0o100u32 == 0 && 0o2000u32 & 0o200u32 == 0 && 0o2000u32
        & 0o10000000u32 == 0 && 0o1000u32 & 0o100u32 == 0 && 0o1000u32 & 0o200u32 == 0 && 0o1000u32
        & 0o10000000u32 == 0 && 0o100u32 & 0o200u32 == 0 && 0o100u32 & 0o10000000u32 == 0 && 0o200u32
        & 0o10000000u32 == 0) by (bit_vector);
    assert(0o1000u32 & 0o2000u32 == 0 && 0o100u32 & 0o2000u32 == 0 && 0o200u32 & 0o2000u32 == 0
        && 0o10000000u32 & 0o2000u32 == 0 && 0o100u32 & 0o1000u32 == 0 && 0o200u32 & 0o1000u32 == 0
        && 0o10000000u32 & 0o1000u32 == 0 && 0o200u32 & 0o100u32 == 0 && 0o10000000u32 & 0o100u32 == 0
        && 0o10000000u32 & 0o200u32 == 0) by (bit_vector);
    assert(options_of(flags | O_APPEND, mode, uid, gid, bits) == (OpenOptions { append: true, ..options_of(flags & !O_APPEND, mode, uid, gid, bits) }) && !options_of(flags & !O_APPEND, mode, uid, gid, bits).append) by {
        lemma_flag_toggle(flags, O_APPEND, 3u32);
        lemma_flag_set(flags, O_APPEND);
        lemma_flag_toggle(flags, O_APPEND, O_TRUNC);
        lemma_flag_toggle(flags, O_APPEND, O_CREAT);
        lemma_flag_toggle(flags, O_APPEND, O_EXCL);
        lemma_flag_toggle(flags, O_APPEND, O_PATH);
        lemma_flag_toggle(flags, O_APPEND, bits.directory);
        lemma_flag_toggle(flags, O_APPEND, bits.no_follow);
        lemma_flag_toggle(flags, O_APPEND, bits.direct);
    }
    assert(options_of(flags | O_TRUNC, mode, uid, gid, bits) == (OpenOptions { truncate: true, ..options_of(flags & !O_TRUNC, mode, uid, gid, bits) }) && !options_of(flags & !O_TRUNC, mode, uid, gid, bits).truncate) by {
        lemma_flag_toggle(flags, O_TRUNC, 3u32);
        lemma_flag_toggle(flags, O_TRUNC, O_APPEND);
        lemma_flag_set(flags, O_TRUNC);
        lemma_flag_toggle(flags, O_TRUNC, O_CREAT);
        lemma_flag_toggle(flags, O_TRUNC, O_EXCL);
        lemma_flag_toggle(flags, O_TRUNC, O_PATH);
        lemma_flag_toggle(flags, O_TRUNC, bits.directory);
        lemma_flag_toggle(flags, O_TRUNC, bits.no_follow);
        lemma_flag_toggle(flags, O_TRUNC, bits.direct);
    }
    assert(options_of(flags | O_CREAT, mode, uid, gid, bits) == (OpenOptions { create: true, ..options_of(flags & !O_CREAT, mode, uid, gid, bits) }) && !options_of(flags & !O_CREAT, mode, uid, gid, bits).create) by {
        lemma_flag_toggle(flags, O_CREAT, 3u32);
        lemma_flag_toggle(flags, O_CREAT, O_APPEND);
        lemma_flag_toggle(flags, O_CREAT, O_TRUNC);
        lemma_flag_set(flags, O_CREAT);
        lemma_flag_toggle(flags, O_CREAT, O_EXCL);
        lemma_flag_toggle(flags, O_CREAT, O_PATH);
        lemma_flag_toggle(flags, O_CREAT, bits.directory);
        lemma_flag_toggle(flags, O_CREAT, bits.no_follow);
        lemma_flag_toggle(flags, O_CREAT, bits.direct);
    }
    assert(options_of(flags | O_EXCL, mode, uid, gid, bits) == (OpenOptions { create_new: true, ..options_of(flags & !O_EXCL, mode, uid, gid, bits) }) && !options_of(flags & !O_EXCL, mode, uid, gid, bits).create_new) by {
        lemma_flag_toggle(flags, O_EXCL, 3u32);
        lemma_flag_toggle(flags, O_EXCL, O_APPEND);
        lemma_flag_toggle(flags, O_EXCL, O_TRUNC);
        lemma_flag_toggle(flags, O_EXCL, O_CREAT);
        lemma_flag_set(flags, O_EXCL);
        lemma_flag_toggle(flags, O_EXCL, O_PATH);
        lemma_flag_toggle(flags, O_EXCL, bits.directory);
        lemma_flag_toggle(flags, O_EXCL, bits.no_follow);
        lemma_flag_toggle(flags, O_EXCL, bits.direct);
    }
    assert(options_of(flags | O_PATH, mode, uid, gid, bits) == (OpenOptions { path: true, ..options_of(flags & !O_PATH, mode, uid, gid, bits) }) && !options_of(flags & !O_PATH, mode, uid, gid, bits).path) by {
        lemma_flag_toggle(flags, O_PATH, 3u32);
        lemma_flag_toggle(flags, O_PATH, O_APPEND);
        lemma_flag_toggle(flags, O_PATH, O_TRUNC);
        lemma_flag_toggle(flags, O_PATH, O_CREAT);
        lemma_flag_toggle(flags, O_PATH, O_EXCL);
        lemma_flag_set(flags, O_PATH);
        lemma_flag_toggle(flags, O_PATH, bits.directory);
        lemma_flag_toggle(flags, O_PATH, bits.no_follow);
        lemma_flag_toggle(flags, O_PATH, bits.direct);
    }
}

/// The access mode, the low two bits of the flags, decides what the file is
/// opened for: `O_RDONLY` reading only, `O_WRONLY` writing only, `O_RDWR`
/// (and the unused mode 3) both; an open always reads or writes.
pub proof fn law_access_mode_decides_read_write(flags: u32, mode: u32, uid: u32, gid: u32, bits: OpenFlagBits)
    ensures
        flags & 3 == O_RDONLY ==> options_of(flags, mode, uid, gid, bits).read && !options_of(
            flags,
            mode,
            uid,
            gid,
            bits,
        ).write,
        flags & 3 == O_WRONLY ==> !options_of(flags, mode, uid, gid, bits).read && options_of(
            flags,
            mode,
            uid,
            gid,
            bits,
        ).write,
        flags & 3 == O_RDWR || flags & 3 == 3 ==> options_of(flags, mode, uid, gid, bits).read && options_of(
            flags,
            mode,
            uid,
            gid,
            bits,
        ).write,
        options_of(flags, mode, uid, gid, bits).read || options_of(flags, mode, uid, gid, bits).write,
{
    assert(flags & 3 <= 3) by (bit_vector);
}

/// Converts open flags into the options of an `open` request, with the
/// architecture's bits for `O_DIRECT`, `O_DIRECTORY` and `O_NOFOLLOW`.
pub fn flags_to_options(flags: i32, mode: u32, uid: u32, gid: u32, bits: OpenFlagBits) -> (r: OpenOptions)
    ensures
        r == options_of(flags as u32, mode, uid, gid, bits),
{
    let flags = flags as u32;
    let acc = flags & 3;
    let (read, write) = if acc == O_RDONLY {
        (true, false)
    } else if acc == O_WRONLY {
        (false, true)
    } else {
        (true, true)
    };
    OpenOptions {
        read,
        write,
        append: flags & O_APPEND != 0,
        truncate: flags & O_TRUNC != 0,
        create: flags & O_CREAT != 0,
        create_new: flags & O_EXCL != 0,
        path: flags & O_PATH != 0,
        directory: flags & bits.directory != 0,
        no_follow: flags & bits.no_follow != 0,
        direct: flags & bits.direct != 0,
        mode,
        uid,
        gid,
    }
}

/// The creation mode of `openat`: the requested mode without the umask bits.
pub fn openat_mode(mode: u32, umask: u32) -> (r: u32)
    ensures
        r == mode & !umask,
{
    mode & !umask
}

/// Installs a freshly opened file: applies `O_NONBLOCK`, then gives it the
/// lowest free descriptor, close-on-exec under `O_CLOEXEC`.
pub fn add_to_fd(table: &mut FdTable, files: &mut Vec<OpenFile>, file: OpenFile, flags: u32) -> (r: Result<
    i32,
    SysError,
>)
    requires
        old(table).wf(),
        files_wf(old(table)@, old(files)@),
    ensures
        final(table).wf(),
        files_wf(final(table)@, final(files)@),
        final(files)@ == if r is Ok {
            old(files)@.push(
                OpenFile { nonblocking: if flags & O_NONBLOCK != 0 { true } else { file.nonblocking }, ..file },
            )
        } else {
            old(files)@
        },
        match r {
            Ok(fd) => is_first_free(old(table)@, 0, old(table)@.len() as int, fd as int) && final(table)@
                == old(table)@.update(
                fd as int,
                Some(FileDescriptor { file: old(files)@.len() as usize, cloexec: flags & O_CLOEXEC != 0 }),
            ),
            Err(e) => e == SysError::TooManyOpenFiles && none_free(old(table)@, 0, old(table)@.len() as int)
                && final(table)@ == old(table)@,
        },
{
    let mut f = file;
    if flags & O_NONBLOCK != 0 {
        f.nonblocking = true;
    }
    let id = files.len();
    let r = table.add(FileDescriptor { file: id, cloexec: flags & O_CLOEXEC != 0 });
    if r.is_ok() {
        files.push(f);
    }
    proof {
        assert forall|i: int| 0 <= i < table@.len() && #[trigger] table@[i] is Some implies table@[i]->Some_0.file
            < files@.len() by {
            if r is Err || i != r->Ok_0 {
                assert(table@[i] == old(table)@[i]);
            }
        }
    }
    r
}

/// The flags that `F_GETFL` reports for an open file.
pub open spec fn getfl_bits(f: OpenFile, bits: OpenFlagBits) -> Result<u32, SysError> {
    let nb: u32 = if f.nonblocking {
        O_NONBLOCK
    } else {
        0
    };
    match f.kind {
        FileKind::Regular { flags, .. } => Ok(
            nb | (flags & (O_RDONLY | O_WRONLY | O_RDWR)) | (flags & O_APPEND) | (flags & bits.direct),
        ),
        FileKind::Pipe { mode } => Ok(nb | access_of_mode(mode)),
        FileKind::Other { stat_mode } => match stat_mode {
            Ok(mode) => Ok(nb | access_of_mode(mode)),
            Err(e) => Err(e),
        },
    }
}

/// The access mode that the owner permission bits of `mode` stand for.
pub open spec fn access_of_mode(mode: u32) -> u32 {
    if mode & S_IWUSR != 0 {
        if mode & S_IRUSR != 0 {
            O_RDWR
        } else {
            O_WRONLY
        }
    } else {
        0
    }
}

fn mode_access(mode: u32) -> (r: u32)
    ensures
        r == access_of_mode(mode),
{
    if mode & S_IWUSR != 0 {
        if mode & S_IRUSR != 0 {
            O_RDWR
        } else {
            O_WRONLY
        }
    } else {
        0
    }
}

/// `F_GETFL` for one open file, with the architecture's `O_DIRECT` bit in `bits`.
pub fn getfl(f: &OpenFile, bits: OpenFlagBits) -> (r: Result<u32, SysError>)
    ensures
        r == getfl_bits(*f, bits),
{
    let nb: u32 = if f.nonblocking {
        O_NONBLOCK
    } else {
        0
    };
    match f.kind {
        FileKind::Regular { flags, .. } => Ok(
            nb | (flags & (O_RDONLY | O_WRONLY | O_RDWR)) | (flags & O_APPEND) | (flags & bits.direct),
        ),
        FileKind::Pipe { mode } => Ok(nb | mode_access(mode)),
        FileKind::Other { stat_mode } => match stat_mode {
            Ok(mode) => Ok(nb | mode_access(mode)),
            Err(e) => Err(e),
        },
    }
}


/// What `fcntl` leaves for the caller to do.
#[derive(Clone, Copy, Debug, PartialEq, Eq)]
pub enum FcntlOutcome {
    /// The call is over, with this result.
    Done(Result<isize, SysError>),
    /// `F_SETLKW` met a conflicting lock: yield, then make the call again.
    Retry,
    /// `F_GETLK`: copy this lock description back to user memory; the call returns 0.
    WriteLock(Flock),
    /// `F_GETPIPE_SZ` on the pipe that is open file `file`.
    PipeCapacity { file: usize },
    /// `F_SETPIPE_SZ` to `size` bytes on the pipe that is open file `file`.
    ResizePipe { file: usize, size: usize },
}

/// The regular file that descriptor `fd` refers to: its inode, position and
/// size. A descriptor that is not open is `EBADF`; one of another kind of
/// file is `EINVAL`.
pub open spec fn regular_file_of(table: Seq<Option<FileDescriptor>>, files: Seq<OpenFile>, fd: int) -> Result<
    (u64, Result<u64, SysError>, u64),
    SysError,
> {
    match file_of(table, files, fd) {
        None => Err(SysError::BadFileDescriptor),
        Some(f) => match f.kind {
            FileKind::Regular { inode, position, size, .. } => Ok((inode, position, size)),
            _ => Err(SysError::InvalidInput),
        },
    }
}

fn regular_file(table: &FdTable, files: &Vec<OpenFile>, fd: i32) -> (r: Result<(u64, Result<u64, SysError>, u64), SysError>)
    requires
        files_wf(table@, files@),
    ensures
        r == regular_file_of(table@, files@, fd as int),
{
    match table.get(fd) {
        None => Err(SysError::BadFileDescriptor),
        Some(d) => match files[d.file].kind {
            FileKind::Regular { inode, position, size, .. } => Ok((inode, position, size)),
            _ => Err(SysError::InvalidInput),
        },
    }
}

/// The state that `fcntl` works on is left as it was.
pub open spec fn unchanged(
    t0: Seq<Option<FileDescriptor>>,
    t1: Seq<Option<FileDescriptor>>,
    f0: Seq<OpenFile>,
    f1: Seq<OpenFile>,
    l0: LockTable,
    l1: LockTable,
) -> bool {
    t1 == t0 && f1 == f0 && l1@ == l0@
}

/// `fcntl(fd, cmd, arg)` on behalf of process `pid`. `user_flock` is the lock
/// description read from user memory at `arg`, which only the lock commands use;
/// `bits` holds the architecture's open-flag bits, which `F_GETFL` reports.
pub fn sys_fcntl(
    table: &mut FdTable,
    files: &mut Vec<OpenFile>,
    locks: &mut LockTable,
    pid: u64,
    max_nofile: u64,
    fd: i32,
    cmd: i32,
    arg: usize,
    user_flock: Result<Flock, SysError>,
    bits: OpenFlagBits,
) -> (r: FcntlOutcome)
    requires
        old(table).wf(),
        old(locks).wf(),
        files_wf(old(table)@, old(files)@),
    ensures
        final(table).wf(),
        final(locks).wf(),
        files_wf(final(table)@, final(files)@),
        ({
            let c = cmd as u32;
            let t0 = old(table)@;
            let t1 = final(table)@;
            let f0 = old(files)@;
            let f1 = final(files)@;
            if c == F_DUPFD || c == F_DUPFD_CLOEXEC {
                &&& f1 == f0 && final(locks)@ == old(locks)@
                &&& r matches FcntlOutcome::Done(res) && dup_at_outcome(
                    t0,
                    t1,
                    fd,
                    arg as i32,
                    c == F_DUPFD_CLOEXEC,
                    max_nofile,
                    res,
                )
            } else if c == F_SETLK || c == F_SETLKW {
                &&& t1 == t0 && f1 == f0
                &&& match regular_file_of(t0, f0, fd as int) {
                    Err(e) => r == FcntlOutcome::Done(Err(e)) && final(locks)@ == old(locks)@,
                    Ok((inode, position, size)) => match user_flock {
                        Err(e) => r == FcntlOutcome::Done(Err(e)) && final(locks)@ == old(locks)@,
                        Ok(fl) => exists|res: Result<Option<FileLock>, SysError>|
                            set_lock_outcome(
                                *old(locks),
                                *final(locks),
                                inode,
                                pid,
                                fl,
                                position,
                                size,
                                res,
                            ) && r == match res {
                                Ok(Some(_)) => if c == F_SETLK {
                                    FcntlOutcome::Done(Err(SysError::WouldBlock))
                                } else {
                                    FcntlOutcome::Retry
                                },
                                Ok(None) => FcntlOutcome::Done(Ok(0)),
                                Err(e) => FcntlOutcome::Done(Err(e)),
                            },
                    },
                }
            } else if c == F_OFD_SETLK || c == F_OFD_SETLKW || c == F_OFD_GETLK {
                r == FcntlOutcome::Done(Err(SysError::InvalidInput)) && unchanged(
                    t0,
                    t1,
                    f0,
                    f1,
                    *old(locks),
                    *final(locks),
                )
            } else if c == F_GETLK {
                &&& unchanged(t0, t1, f0, f1, *old(locks), *final(locks))
                &&& match regular_file_of(t0, f0, fd as int) {
                    Err(e) => r == FcntlOutcome::Done(Err(e)),
                    Ok((inode, position, size)) => match user_flock {
                        Err(e) => r == FcntlOutcome::Done(Err(e)),
                        Ok(fl) => exists|res: Result<(), SysError>, out: Flock|
                            get_lock_outcome(*old(locks), inode, pid, fl, out, position, size, res)
                                && r == match res {
                                Ok(_) => FcntlOutcome::WriteLock(out),
                                Err(e) => FcntlOutcome::Done(Err(e)),
                            },
                    },
                }
            } else if c == F_SETFL {
                &&& t1 == t0 && final(locks)@ == old(locks)@
                &&& match fd_slot(t0, fd as int) {
                    None => r == FcntlOutcome::Done(Err(SysError::BadFileDescriptor)) && f1 == f0,
                    Some(d) => r == FcntlOutcome::Done(Ok(0)) && f1 == f0.update(
                        d.file as int,
                        OpenFile { nonblocking: arg & (O_NONBLOCK as usize) != 0, ..f0[d.file as int] },
                    ),
                }
            } else if c == F_GETFL {
                &&& unchanged(t0, t1, f0, f1, *old(locks), *final(locks))
                &&& r == FcntlOutcome::Done(
                    match file_of(t0, f0, fd as int) {
                        None => Err(SysError::BadFileDescriptor),
                        Some(f) => match getfl_bits(f, bits) {
                            Ok(bits) => Ok(bits as isize),
                            Err(e) => Err(e),
                        },
                    },
                )
            } else if c == F_GETFD {
                &&& unchanged(t0, t1, f0, f1, *old(locks), *final(locks))
                &&& r == FcntlOutcome::Done(
                    match fd_slot(t0, fd as int) {
                        None => Err(SysError::BadFileDescriptor),
                        Some(d) => Ok(if d.cloexec { FD_CLOEXEC as isize } else { 0 }),
                    },
                )
            } else if c == F_SETFD {
                &&& f1 == f0 && final(locks)@ == old(locks)@
                &&& match fd_slot(t0, fd as int) {
                    None => r == FcntlOutcome::Done(Err(SysError::BadFileDescriptor)) && t1 == t0,
                    Some(d) => r == FcntlOutcome::Done(Ok(0)) && t1 == t0.update(
                        fd as int,
                        Some(FileDescriptor { cloexec: arg & (FD_CLOEXEC as usize) != 0, ..d }),
                    ),
                }
            } else if c == F_GETPIPE_SZ || c == F_SETPIPE_SZ {
                &&& unchanged(t0, t1, f0, f1, *old(locks), *final(locks))
                &&& r == match fd_slot(t0, fd as int) {
                    None => FcntlOutcome::Done(Err(SysError::BadFileDescriptor)),
                    Some(d) => match f0[d.file as int].kind {
                        FileKind::Pipe { .. } => if c == F_GETPIPE_SZ {
                            FcntlOutcome::PipeCapacity { file: d.file }
                        } else {
                            FcntlOutcome::ResizePipe { file: d.file, size: arg }
                        },
                        _ => FcntlOutcome::Done(Err(SysError::InvalidInput)),
                    },
                }
            } else {
                r == FcntlOutcome::Done(Err(SysError::InvalidInput)) && unchanged(
                    t0,
                    t1,
                    f0,
                    f1,
                    *old(locks),
                    *final(locks),
                )
            }
        }),
{
    let c = cmd as u32;
    if c == F_DUPFD || c == F_DUPFD_CLOEXEC {
        let res = dup_fd_at(table, fd, arg as i32, c == F_DUPFD_CLOEXEC, max_nofile);
        proof {
            assert forall|i: int| 0 <= i < table@.len() && #[trigger] table@[i] is Some implies table@[i]->Some_0.file
                < files@.len() by {
                if res is Err || i != res->Ok_0 {
                    assert(table@[i] == old(table)@[i]);
                }
            }
        }
        return FcntlOutcome::Done(res);
    }
    if c == F_SETLK || c == F_SETLKW {
        let (inode, position, size) = match regular_file(table, files, fd) {
            Ok(v) => v,
            Err(e) => return FcntlOutcome::Done(Err(e)),
        };
        let fl = match user_flock {
            Ok(fl) => fl,
            Err(e) => return FcntlOutcome::Done(Err(e)),
        };
        let res = locks.set_file_lock(inode, pid, &fl, position, size);
        return match res {
            Ok(Some(_)) => if c == F_SETLK {
                FcntlOutcome::Done(Err(SysError::WouldBlock))
            } else {
                FcntlOutcome::Retry
            },
            Ok(None) => FcntlOutcome::Done(Ok(0)),
            Err(e) => FcntlOutcome::Done(Err(e)),
        };
    }
    if c == F_OFD_SETLK || c == F_OFD_SETLKW || c == F_OFD_GETLK {
        return FcntlOutcome::Done(Err(SysError::InvalidInput));
    }
    if c == F_GETLK {
        let (inode, position, size) = match regular_file(table, files, fd) {
            Ok(v) => v,
            Err(e) => return FcntlOutcome::Done(Err(e)),
        };
        let mut fl = match user_flock {
            Ok(fl) => fl,
            Err(e) => return FcntlOutcome::Done(Err(e)),
        };
        let res = locks.get_file_lock(inode, pid, &mut fl, position, size);
        return match res {
            Ok(_) => FcntlOutcome::WriteLock(fl),
            Err(e) => FcntlOutcome::Done(Err(e)),
        };
    }
    if c == F_SETFL {
        return match table.get(fd) {
            None => FcntlOutcome::Done(Err(SysError::BadFileDescriptor)),
            Some(d) => {
                let f = OpenFile { nonblocking: arg & (O_NONBLOCK as usize) != 0, ..files[d.file] };
                files.set(d.file, f);
                FcntlOutcome::Done(Ok(0))
            },
        };
    }
    if c == F_GETFL {
        return match table.get(fd) {
            None => FcntlOutcome::Done(Err(SysError::BadFileDescriptor)),
            Some(d) => match getfl(&files[d.file], bits) {
                Ok(bits) => FcntlOutcome::Done(Ok(bits as isize)),
                Err(e) => FcntlOutcome::Done(Err(e)),
            },
        };
    }
    if c == F_GETFD {
        return match table.get(fd) {
            None => FcntlOutcome::Done(Err(SysError::BadFileDescriptor)),
            Some(d) => FcntlOutcome::Done(Ok(if d.cloexec { FD_CLOEXEC as isize } else { 0 })),
        };
    }
    if c == F_SETFD {
        if table.set_cloexec(fd, arg & (FD_CLOEXEC as usize) != 0) {
            return FcntlOutcome::Done(Ok(0));
        } else {
            return FcntlOutcome::Done(Err(SysError::BadFileDescriptor));
        }
    }
    if c == F_GETPIPE_SZ || c == F_SETPIPE_SZ {
        return match table.get(fd) {
            None => FcntlOutcome::Done(Err(SysError::BadFileDescriptor)),
            Some(d) => match files[d.file].kind {
                FileKind::Pipe { .. } => if c == F_GETPIPE_SZ {
                    FcntlOutcome::PipeCapacity { file: d.file }
                } else {
                    FcntlOutcome::ResizePipe { file: d.file, size: arg }
                },
                _ => FcntlOutcome::Done(Err(SysError::InvalidInput)),
            },
        };
    }
    FcntlOutcome::Done(Err(SysError::InvalidInput))
}

proof fn lemma_nonblock_bit(nb0: u32, nb1: u32, rest: u32)
    by (bit_vector)
    requires
        rest & 0o4000u32 == 0,
        nb0 == 0 || nb0 == 0o4000u32,
        nb1 == 0 || nb1 == 0o4000u32,
    ensures
        ((nb1 | rest) & 0o4000u32 != 0) == (nb1 == 0o4000u32),
        (nb1 | rest) & !0o4000u32 == (nb0 | rest) & !0o4000u32,
{
}

proof fn lemma_nonblock_bit_of_three(nb0: u32, nb1: u32, a: u32, b: u32, c: u32)
    by (bit_vector)
    requires
        a & 0o4000u32 == 0,
        b & 0o4000u32 == 0,
        c & 0o4000u32 == 0,
        nb0 == 0 || nb0 == 0o4000u32,
        nb1 == 0 || nb1 == 0o4000u32,
    ensures
        (((nb1 | a) | b) | c) & 0o4000u32 != 0 <==> nb1 == 0o4000u32,
        (((nb1 | a) | b) | c) & !0o4000u32 == (((nb0 | a) | b) | c) & !0o4000u32,
{
}

/// `F_SETFL` with argument `arg` followed by `F_GETFL` on the same
/// descriptor: the flags read back carry `O_NONBLOCK` exactly when `arg`
/// does, and every other bit (access mode, `O_APPEND`, `O_DIRECT`) is what
/// `F_GETFL` showed before. This needs the architecture's `O_DIRECT` bit to
/// lie apart from `O_NONBLOCK`.
pub proof fn law_setfl_then_getfl(
    table: Seq<Option<FileDescriptor>>,
    files: Seq<OpenFile>,
    fd: int,
    arg: usize,
    bits: OpenFlagBits,
)
    requires
        files_wf(table, files),
        fd_slot(table, fd) is Some,
        bits.direct & O_NONBLOCK == 0,
    ensures
        ({
            let d = fd_slot(table, fd)->Some_0;
            let after = files.update(
                d.file as int,
                OpenFile { nonblocking: arg & (O_NONBLOCK as usize) != 0, ..files[d.file as int] },
            );
            let g0 = getfl_bits(file_of(table, files, fd)->Some_0, bits);
            let g1 = getfl_bits(file_of(table, after, fd)->Some_0, bits);
            &&& file_of(table, after, fd) is Some
            &&& g1 is Ok <==> g0 is Ok
            &&& g0 is Ok ==> {
                &&& (g1->Ok_0 & O_NONBLOCK != 0) == (arg & (O_NONBLOCK as usize) != 0)
                &&& g1->Ok_0 & !O_NONBLOCK == g0->Ok_0 & !O_NONBLOCK
            }
        }),
{
    let d = fd_slot(table, fd)->Some_0;
    let f = files[d.file as int];
    let nb0: u32 = if f.nonblocking { O_NONBLOCK } else { 0 };
    let nb1: u32 = if arg & (O_NONBLOCK as usize) != 0 { O_NONBLOCK } else { 0 };
    assert(0u32 & 0o4000u32 == 0 && 1u32 & 0o4000u32 == 0 && 2u32 & 0o4000u32 == 0) by (bit_vector);
    match f.kind {
        FileKind::Regular { flags, .. } => {
            let direct = bits.direct;
            assert(flags & (0u32 | 1u32 | 2u32) & 0o4000u32 == 0 && flags & 0o2000u32 & 0o4000u32 == 0
                && (direct & 0o4000u32 == 0 ==> flags & direct & 0o4000u32 == 0)) by (bit_vector);
            lemma_nonblock_bit_of_three(
                nb0,
                nb1,
                flags & (O_RDONLY | O_WRONLY | O_RDWR),
                flags & O_APPEND,
                flags & bits.direct,
            );
        },
        FileKind::Pipe { mode } => {
            lemma_nonblock_bit(nb0, nb1, access_of_mode(mode));
        },
        FileKind::Other { stat_mode } => {
            if let Ok(mode) = stat_mode {
                lemma_nonblock_bit(nb0, nb1, access_of_mode(mode));
            }
        },
    }
}

/// `flock(fd, operation)`: accepted and ignored.
pub fn sys_flock(fd: i32, operation: i32) -> (r: Result<isize, SysError>)
    ensures
        r == Ok::<isize, SysError>(0),
{
    Ok(0)
}

/// Drops the record locks that process `pid` holds on the file behind `fd`,
/// when `fd` is an open regular file.
pub fn release_locks_for_fd(table: &FdTable, files: &Vec<OpenFile>, locks: &mut LockTable, pid: u64, fd: i32)
    requires
        old(locks).wf(),
        files_wf(table@, files@),
    ensures
        final(locks).wf(),
        final(locks)@ == match regular_file_of(table@, files@, fd as int) {
            Ok((inode, _, _)) => if old(locks)@.contains_key(inode) {
                old(locks)@.insert(inode, without_pid(old(locks)@[inode], pid))
            } else {
                old(locks)@
            },
            Err(_) => old(locks)@,
        },
{
    if let Ok((inode, _, _)) = regular_file(table, files, fd) {
        locks.release_inode_locks(inode, pid);
    }
}

} // verus!
