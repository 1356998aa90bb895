use vstd::prelude::*;

verus! {

/// Error returned by a system call, named after the kernel's error kinds.
#[derive(Clone, Copy, Debug, PartialEq, Eq, Structural)]
pub enum SysError {
    InvalidInput,
    BadFileDescriptor,
    TooManyOpenFiles,
    NotFound,
    NoSuchDevice,
    WouldBlock,
    NoMemory,
    OperationNotPermitted,
    PermissionDenied,
    NotASocket,
    NotATty,
    Unsupported,
    BadAddress,
    NoSuchProcess,
    /// Any other error, by its Linux error number.
    Other(u16),
}

/// The Linux error number of each error kind.
pub open spec fn errno_of(e: SysError) -> i32 {
    match e {
        SysError::InvalidInput => 22,
        SysError::BadFileDescriptor => 9,
        SysError::TooManyOpenFiles => 24,
        SysError::NotFound => 2,
        SysError::NoSuchDevice => 19,
        SysError::WouldBlock => 11,
        SysError::NoMemory => 12,
        SysError::OperationNotPermitted => 1,
        SysError::PermissionDenied => 13,
        SysError::NotASocket => 88,
        SysError::NotATty => 25,
        SysError::Unsupported => 38,
        SysError::BadAddress => 14,
        SysError::NoSuchProcess => 3,
        SysError::Other(code) => code as i32,
    }
}

impl SysError {
    /// The Linux error number (`EINVAL`, `EBADF`, ...) of this error.
    pub fn errno(&self) -> (r: i32)
        ensures
            r == errno_of(*self),
    {
        match self {
            SysError::InvalidInput => 22,
            SysError::BadFileDescriptor => 9,
            SysError::TooManyOpenFiles => 24,
            SysError::NotFound => 2,
            SysError::NoSuchDevice => 19,
            SysError::WouldBlock => 11,
            SysError::NoMemory => 12,
            SysError::OperationNotPermitted => 1,
            SysError::PermissionDenied => 13,
            SysError::NotASocket => 88,
            SysError::NotATty => 25,
            SysError::Unsupported => 38,
            SysError::BadAddress => 14,
            SysError::NoSuchProcess => 3,
            SysError::Other(code) => *code as i32,
        }
    }
}

/// The value a system call hands back to user space: the result itself, or the
/// negated error number.
pub fn syscall_return_value(result: Result<isize, SysError>) -> (r: isize)
    ensures
        match result {
            Ok(v) => r == v,
            Err(e) => r == -errno_of(e),
        },
{
    match result {
        Ok(v) => v,
        Err(e) => {
            let code = e.errno();
            -(code as isize)
        },
    }
}

} // verus!
