use axerrno::LinuxError;
use linux_raw_sys::general;
use starry_syscalls::abi;
use starry_syscalls::bpf;
use starry_syscalls::creds;
use starry_syscalls::error::SysError;
use starry_syscalls::mount;
use starry_syscalls::net;
use starry_syscalls::time;
use starry_syscalls::timerfd;

#[test]
fn lock_and_seek_numbers_match_linux() {
    assert_eq!(abi::F_RDLCK as u32, general::F_RDLCK);
    assert_eq!(abi::F_WRLCK as u32, general::F_WRLCK);
    assert_eq!(abi::F_UNLCK as u32, general::F_UNLCK);
    assert_eq!(abi::SEEK_SET as u32, general::SEEK_SET);
    assert_eq!(abi::SEEK_CUR as u32, general::SEEK_CUR);
    assert_eq!(abi::SEEK_END as u32, general::SEEK_END);
}

#[test]
fn open_flags_match_linux() {
    assert_eq!(abi::O_RDONLY, general::O_RDONLY);
    assert_eq!(abi::O_WRONLY, general::O_WRONLY);
    assert_eq!(abi::O_RDWR, general::O_RDWR);
    assert_eq!(abi::O_CREAT, general::O_CREAT);
    assert_eq!(abi::O_EXCL, general::O_EXCL);
    assert_eq!(abi::O_TRUNC, general::O_TRUNC);
    assert_eq!(abi::O_APPEND, general::O_APPEND);
    assert_eq!(abi::O_NONBLOCK, general::O_NONBLOCK);
    assert_eq!(abi::O_CLOEXEC, general::O_CLOEXEC);
    assert_eq!(abi::O_PATH, general::O_PATH);
}

#[test]
fn fcntl_commands_match_linux() {
    assert_eq!(abi::F_DUPFD, general::F_DUPFD);
    assert_eq!(abi::F_GETFD, general::F_GETFD);
    assert_eq!(abi::F_SETFD, general::F_SETFD);
    assert_eq!(abi::F_GETFL, general::F_GETFL);
    assert_eq!(abi::F_SETFL, general::F_SETFL);
    assert_eq!(abi::F_GETLK, general::F_GETLK);
    assert_eq!(abi::F_SETLK, general::F_SETLK);
    assert_eq!(abi::F_SETLKW, general::F_SETLKW);
    assert_eq!(abi::F_OFD_GETLK, general::F_OFD_GETLK);
    assert_eq!(abi::F_OFD_SETLK, general::F_OFD_SETLK);
    assert_eq!(abi::F_OFD_SETLKW, general::F_OFD_SETLKW);
    assert_eq!(abi::F_DUPFD_CLOEXEC, general::F_DUPFD_CLOEXEC);
    assert_eq!(abi::F_SETPIPE_SZ, general::F_SETPIPE_SZ);
    assert_eq!(abi::F_GETPIPE_SZ, general::F_GETPIPE_SZ);
    assert_eq!(abi::FD_CLOEXEC, general::FD_CLOEXEC);
    assert_eq!(abi::CLOSE_RANGE_UNSHARE, 2);
    assert_eq!(abi::CLOSE_RANGE_CLOEXEC, 4);
}

#[test]
fn clock_and_timer_numbers_match_linux() {
    assert_eq!(timerfd::CLOCK_REALTIME as u32, general::CLOCK_REALTIME);
    assert_eq!(timerfd::CLOCK_MONOTONIC as u32, general::CLOCK_MONOTONIC);
    assert_eq!(timerfd::CLOCK_BOOTTIME as u32, general::CLOCK_BOOTTIME);
    assert_eq!(timerfd::TFD_TIMER_ABSTIME, general::TFD_TIMER_ABSTIME);
    assert_eq!(timerfd::TFD_NONBLOCK, general::TFD_NONBLOCK);
    assert_eq!(timerfd::TFD_CLOEXEC, general::TFD_CLOEXEC);
    assert_eq!(time::CLOCK_PROCESS_CPUTIME_ID as u32, general::CLOCK_PROCESS_CPUTIME_ID);
    assert_eq!(time::CLOCK_THREAD_CPUTIME_ID as u32, general::CLOCK_THREAD_CPUTIME_ID);
    assert_eq!(time::CLOCK_MONOTONIC_RAW as u32, general::CLOCK_MONOTONIC_RAW);
    assert_eq!(time::CLOCK_REALTIME_COARSE as u32, general::CLOCK_REALTIME_COARSE);
    assert_eq!(time::CLOCK_MONOTONIC_COARSE as u32, general::CLOCK_MONOTONIC_COARSE);
}

#[test]
fn misc_numbers_match_linux() {
    assert_eq!(mount::MS_RDONLY, general::MS_RDONLY);
    assert_eq!(creds::GRND_NONBLOCK, general::GRND_NONBLOCK);
    assert_eq!(creds::GRND_RANDOM, general::GRND_RANDOM);
    assert_eq!(creds::GRND_INSECURE, general::GRND_INSECURE);
    assert_eq!(creds::PR_SET_NAME, linux_raw_sys::prctl::PR_SET_NAME);
    assert_eq!(creds::PR_GET_NAME, linux_raw_sys::prctl::PR_GET_NAME);
    assert_eq!(creds::PR_SET_SECCOMP, linux_raw_sys::prctl::PR_SET_SECCOMP);
    assert_eq!(creds::PR_CAPBSET_READ, linux_raw_sys::prctl::PR_CAPBSET_READ);
    assert_eq!(creds::PR_CAPBSET_DROP, linux_raw_sys::prctl::PR_CAPBSET_DROP);
    assert_eq!(creds::PR_MCE_KILL, linux_raw_sys::prctl::PR_MCE_KILL);
    assert_eq!(creds::PR_SET_MM, linux_raw_sys::prctl::PR_SET_MM);
    assert_eq!(creds::PR_SET_MM_START_CODE as u32, linux_raw_sys::prctl::PR_SET_MM_START_CODE);
    assert_eq!(creds::PR_SET_MM_END_CODE as u32, linux_raw_sys::prctl::PR_SET_MM_END_CODE);
    assert_eq!(creds::PR_SET_MM_START_DATA as u32, linux_raw_sys::prctl::PR_SET_MM_START_DATA);
    assert_eq!(creds::PR_SET_MM_END_DATA as u32, linux_raw_sys::prctl::PR_SET_MM_END_DATA);
    assert_eq!(creds::PR_SET_MM_START_STACK as u32, linux_raw_sys::prctl::PR_SET_MM_START_STACK);
    assert_eq!(creds::PR_SET_MM_START_BRK as u32, linux_raw_sys::prctl::PR_SET_MM_START_BRK);
    assert_eq!(creds::PR_SET_MM_BRK as u32, linux_raw_sys::prctl::PR_SET_MM_BRK);
    assert_eq!(net::SIOCGIFINDEX, linux_raw_sys::ioctl::SIOCGIFINDEX);
    assert_eq!(net::SIOCSIFFLAGS, linux_raw_sys::ioctl::SIOCSIFFLAGS);
    assert_eq!(net::IPPROTO_ICMPV6, linux_raw_sys::net::IPPROTO_ICMPV6);
    assert_eq!(net::SOCKET_MODE, general::S_IFSOCK | 0o777);
    assert_eq!(abi::S_IRUSR, general::S_IRUSR);
    assert_eq!(abi::S_IWUSR, general::S_IWUSR);
}

#[test]
fn attribute_sizes_match_their_layouts() {
    // map_type, key_size, value_size, max_entries, map_flags
    assert_eq!(bpf::MAP_CREATE_ATTR_SIZE as usize, 5 * std::mem::size_of::<u32>());
    // map_fd, padding, key, value, flags
    assert_eq!(bpf::ELEM_ATTR_SIZE as usize, 2 * std::mem::size_of::<u32>() + 3 * std::mem::size_of::<u64>());
    // prog_type, insn_cnt, insns, license, log_level, log_size, log_buf
    assert_eq!(bpf::PROG_LOAD_ATTR_SIZE as usize, 4 * std::mem::size_of::<u32>() + 3 * std::mem::size_of::<u64>());
    assert_eq!(bpf::REJECT_MESSAGE_LEN, b"minux bpf verifier rejected program\n".len());
}

#[test]
fn error_numbers_match_linux() {
    let pairs = [
        (SysError::InvalidInput, LinuxError::EINVAL),
        (SysError::BadFileDescriptor, LinuxError::EBADF),
        (SysError::TooManyOpenFiles, LinuxError::EMFILE),
        (SysError::NotFound, LinuxError::ENOENT),
        (SysError::NoSuchDevice, LinuxError::ENODEV),
        (SysError::WouldBlock, LinuxError::EAGAIN),
        (SysError::NoMemory, LinuxError::ENOMEM),
        (SysError::OperationNotPermitted, LinuxError::EPERM),
        (SysError::PermissionDenied, LinuxError::EACCES),
        (SysError::NotASocket, LinuxError::ENOTSOCK),
        (SysError::NotATty, LinuxError::ENOTTY),
        (SysError::Unsupported, LinuxError::ENOSYS),
        (SysError::BadAddress, LinuxError::EFAULT),
        (SysError::NoSuchProcess, LinuxError::ESRCH),
        (SysError::Other(LinuxError::EROFS.code() as u16), LinuxError::EROFS),
    ];
    for (e, l) in pairs {
        assert_eq!(e.errno(), l.code());
    }
}

#[test]
fn return_value_negates_the_error_number() {
    assert_eq!(starry_syscalls::syscall_return_value(Ok(7)), 7);
    assert_eq!(starry_syscalls::syscall_return_value(Err(SysError::BadFileDescriptor)), -9);
    assert_eq!(starry_syscalls::syscall_return_value(Err(SysError::WouldBlock)), -11);
    assert_eq!(starry_syscalls::syscall_return_value(Err(SysError::Other(30))), -30);
}

#[test]
fn owner_permission_bits_match_the_vfs() {
    assert_eq!(abi::S_IRUSR as u16, axfs_ng_vfs::NodePermission::OWNER_READ.bits());
    assert_eq!(abi::S_IWUSR as u16, axfs_ng_vfs::NodePermission::OWNER_WRITE.bits());
}
