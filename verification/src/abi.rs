//! Numbers of the Linux system-call interface that the kernel logic reads,
//! in the generic layout that x86_64, riscv64, loongarch64 and aarch64 share;
//! the few open flags where aarch64 differs come in as `OpenFlagBits`.
use vstd::prelude::*;

verus! {

// Record lock types and seek origins.
pub const F_RDLCK: i16 = 0;
pub const F_WRLCK: i16 = 1;
pub const F_UNLCK: i16 = 2;

pub const SEEK_SET: i16 = 0;
pub const SEEK_CUR: i16 = 1;
pub const SEEK_END: i16 = 2;

// Open flags.
pub const O_RDONLY: u32 = 0;
pub const O_WRONLY: u32 = 1;
pub const O_RDWR: u32 = 2;
pub const O_CREAT: u32 = 0o100;
pub const O_EXCL: u32 = 0o200;
pub const O_TRUNC: u32 = 0o1000;
pub const O_APPEND: u32 = 0o2000;
pub const O_NONBLOCK: u32 = 0o4000;
pub const O_CLOEXEC: u32 = 0o2000000;
pub const O_PATH: u32 = 0o10000000;

// fcntl commands.
pub const F_DUPFD: u32 = 0;
pub const F_GETFD: u32 = 1;
pub const F_SETFD: u32 = 2;
pub const F_GETFL: u32 = 3;
pub const F_SETFL: u32 = 4;
pub const F_GETLK: u32 = 5;
pub const F_SETLK: u32 = 6;
pub const F_SETLKW: u32 = 7;
pub const F_OFD_GETLK: u32 = 36;
pub const F_OFD_SETLK: u32 = 37;
pub const F_OFD_SETLKW: u32 = 38;
pub const F_DUPFD_CLOEXEC: u32 = 1030;
pub const F_SETPIPE_SZ: u32 = 1031;
pub const F_GETPIPE_SZ: u32 = 1032;
pub const FD_CLOEXEC: u32 = 1;

/// The open-flag bits whose values differ between architectures (AArch64
/// has its own): `O_DIRECT`, `O_DIRECTORY` and `O_NOFOLLOW`. The kernel
/// hands in those of the architecture it runs on.
#[derive(Clone, Copy, Debug, PartialEq, Eq)]
pub struct OpenFlagBits {
    pub direct: u32,
    pub directory: u32,
    pub no_follow: u32,
}

// close_range flags.
pub const CLOSE_RANGE_UNSHARE: u32 = 1 << 1;
pub const CLOSE_RANGE_CLOEXEC: u32 = 1 << 2;

// Permission bits of a file mode.
pub const S_IRUSR: u32 = 0o400;
pub const S_IWUSR: u32 = 0o200;

} // verus!
