//! Identity and process-control calls: user and group ids, `umask`,
//! capabilities, `prctl`, `uname`, `sysinfo`, `getrandom`, `acct`.
use vstd::prelude::*;
use vstd::string::StringSliceAdditionalSpecFns;

use crate::byte_order::{ByteOrder, encode_u16, encode_u32, u16_bytes, u32_bytes};
use crate::error::SysError;

verus! {

/// The credentials of a process: one user id and one group id stand for the
/// real, effective and saved ids alike.
#[derive(Clone, Copy, Debug, PartialEq, Eq)]
pub struct Creds {
    pub uid: u32,
    pub gid: u32,
    pub umask: u32,
}

/// An id argument meaning "leave unchanged".
pub const ID_UNCHANGED: u32 = u32::MAX;

/// The id that a `setre*id` call settles on: the effective id if given, else
/// the real one, else the current one.
pub open spec fn pick2(given_real: u32, effective: u32, current: u32) -> u32 {
    if effective != ID_UNCHANGED {
        effective
    } else if given_real != ID_UNCHANGED {
        given_real
    } else {
        current
    }
}

/// The id that a `setres*id` call settles on: the first given of the
/// effective, real and saved ids, else the current one.
pub open spec fn pick3(given_real: u32, effective: u32, saved: u32, current: u32) -> u32 {
    if effective != ID_UNCHANGED {
        effective
    } else if given_real != ID_UNCHANGED {
        given_real
    } else if saved != ID_UNCHANGED {
        saved
    } else {
        current
    }
}

fn first_given(ids: [u32; 3], current: u32) -> (r: u32)
    ensures
        r == if ids[0] != ID_UNCHANGED {
            ids[0]
        } else if ids[1] != ID_UNCHANGED {
            ids[1]
        } else if ids[2] != ID_UNCHANGED {
            ids[2]
        } else {
            current
        },
{
    let mut i: usize = 0;
    while i < 3
        invariant
            i <= 3,
            forall|j: int| 0 <= j < i ==> ids[j] == ID_UNCHANGED,
        decreases 3 - i,
    {
        if ids[i] != ID_UNCHANGED {
            return ids[i];
        }
        i += 1;
    }
    current
}

impl Creds {
    /// `getuid`.
    pub fn sys_getuid(&self) -> (r: Result<isize, SysError>)
        ensures
            r == Ok::<isize, SysError>(self.uid as isize),
    {
        Ok(self.uid as isize)
    }

    /// `geteuid`: the same id as `getuid`.
    pub fn sys_geteuid(&self) -> (r: Result<isize, SysError>)
        ensures
            r == Ok::<isize, SysError>(self.uid as isize),
    {
        Ok(self.uid as isize)
    }

    /// `getgid`.
    pub fn sys_getgid(&self) -> (r: Result<isize, SysError>)
        ensures
            r == Ok::<isize, SysError>(self.gid as isize),
    {
        Ok(self.gid as isize)
    }

    /// `getegid`: the same id as `getgid`.
    pub fn sys_getegid(&self) -> (r: Result<isize, SysError>)
        ensures
            r == Ok::<isize, SysError>(self.gid as isize),
    {
        Ok(self.gid as isize)
    }

    /// `setuid(uid)`.
    pub fn sys_setuid(&mut self, uid: u32) -> (r: Result<isize, SysError>)
        ensures
            r == Ok::<isize, SysError>(0),
            *final(self) == (Creds { uid, ..*old(self) }),
    {
        self.uid = uid;
        Ok(0)
    }

    /// `setgid(gid)`.
    pub fn sys_setgid(&mut self, gid: u32) -> (r: Result<isize, SysError>)
        ensures
            r == Ok::<isize, SysError>(0),
            *final(self) == (Creds { gid, ..*old(self) }),
    {
        self.gid = gid;
        Ok(0)
    }

    /// `setreuid(ruid, euid)`.
    pub fn sys_setreuid(&mut self, ruid: u32, euid: u32) -> (r: Result<isize, SysError>)
        ensures
            r == Ok::<isize, SysError>(0),
            *final(self) == (Creds { uid: pick2(ruid, euid, old(self).uid), ..*old(self) }),
    {
        let uid = if euid != ID_UNCHANGED {
            euid
        } else if ruid != ID_UNCHANGED {
            ruid
        } else {
            self.uid
        };
        self.uid = uid;
        Ok(0)
    }

    /// `setregid(rgid, egid)`.
    pub fn sys_setregid(&mut self, rgid: u32, egid: u32) -> (r: Result<isize, SysError>)
        ensures
            r == Ok::<isize, SysError>(0),
            *final(self) == (Creds { gid: pick2(rgid, egid, old(self).gid), ..*old(self) }),
    {
        let gid = if egid != ID_UNCHANGED {
            egid
        } else if rgid != ID_UNCHANGED {
            rgid
        } else {
            self.gid
        };
        self.gid = gid;
        Ok(0)
    }

    /// `setresuid(ruid, euid, suid)`.
    pub fn sys_setresuid(&mut self, ruid: u32, euid: u32, suid: u32) -> (r: Result<isize, SysError>)
        ensures
            r == Ok::<isize, SysError>(0),
            *final(self) == (Creds { uid: pick3(ruid, euid, suid, old(self).uid), ..*old(self) }),
    {
        self.uid = first_given([euid, ruid, suid], self.uid);
        Ok(0)
    }

    /// `setresgid(rgid, egid, sgid)`.
    pub fn sys_setresgid(&mut self, rgid: u32, egid: u32, sgid: u32) -> (r: Result<isize, SysError>)
        ensures
            r == Ok::<isize, SysError>(0),
            *final(self) == (Creds { gid: pick3(rgid, egid, sgid, old(self).gid), ..*old(self) }),
    {
        self.gid = first_given([egid, rgid, sgid], self.gid);
        Ok(0)
    }

    /// `getresuid`: the real, effective and saved user ids to copy out.
    pub fn sys_getresuid(&self) -> (r: (u32, u32, u32))
        ensures
            r == (self.uid, self.uid, self.uid),
    {
        (self.uid, self.uid, self.uid)
    }

    /// `getresgid`: the real, effective and saved group ids to copy out.
    pub fn sys_getresgid(&self) -> (r: (u32, u32, u32))
        ensures
            r == (self.gid, self.gid, self.gid),
    {
        (self.gid, self.gid, self.gid)
    }

    /// `umask(mask)`: sets the mask and returns the previous one.
    pub fn sys_umask(&mut self, mask: u32) -> (r: Result<isize, SysError>)
        ensures
            r == Ok::<isize, SysError>(old(self).umask as isize),
            *final(self) == (Creds { umask: mask, ..*old(self) }),
    {
        let old = self.umask;
        self.umask = mask;
        Ok(old as isize)
    }
}

/// `getgroups(size, list)`: the group list to copy out, which holds group 0
/// alone; a list with no room is `EINVAL`.
pub fn sys_getgroups(size: usize) -> (r: Result<Vec<u32>, SysError>)
    ensures
        match r {
            Ok(v) => size >= 1 && v@ == seq![0u32],
            Err(e) => size < 1 && e == SysError::InvalidInput,
        },
{
    if size < 1 {
        return Err(SysError::InvalidInput);
    }
    let mut v: Vec<u32> = Vec::new();
    v.push(0);
    proof {
        assert(v@ =~= seq![0u32]);
    }
    Ok(v)
}

/// `setgroups`: accepted and ignored.
pub fn sys_setgroups(size: usize) -> (r: Result<isize, SysError>)
    ensures
        r == Ok::<isize, SysError>(0),
{
    Ok(0)
}

/// `syslog`: accepted and ignored.
pub fn sys_syslog(typ: i32, len: usize) -> (r: Result<isize, SysError>)
    ensures
        r == Ok::<isize, SysError>(0),
{
    Ok(0)
}

/// `seccomp`: accepted and ignored.
pub fn sys_seccomp(op: u32, flags: u32) -> (r: Result<isize, SysError>)
    ensures
        r == Ok::<isize, SysError>(0),
{
    Ok(0)
}

/// `get_mempolicy`: accepted and ignored.
pub fn sys_get_mempolicy(maxnode: usize, addr: usize, flags: usize) -> (r: Result<isize, SysError>)
    ensures
        r == Ok::<isize, SysError>(0),
{
    Ok(0)
}

// ----------------------------------------------------------------------------
// uname and sysinfo
// ----------------------------------------------------------------------------

/// `b` followed by zeros, as a field of 65 bytes.
pub open spec fn padded(b: Seq<u8>) -> Seq<u8> {
    Seq::new(65, |i: int| if i < b.len() { b[i] } else { 0u8 })
}

/// The bytes of `info` followed by zeros, in a field of 65 bytes.
pub fn pad_str(info: &str) -> (r: [u8; 65])
    requires
        info.spec_bytes().len() <= 65,
    ensures
        r@ == padded(info.spec_bytes()),
{
    let bytes = info.as_bytes();
    let mut data: [u8; 65] = [0; 65];
    let mut i: usize = 0;
    while i < bytes.len()
        invariant
            bytes@ == info.spec_bytes(),
            bytes@.len() <= 65,
            i <= bytes@.len(),
            forall|j: int| 0 <= j < 65 ==> #[trigger] data@[j] == if j < i {
                bytes@[j]
            } else {
                0u8
            },
        decreases bytes@.len() - i,
    {
        data[i] = bytes[i];
        i += 1;
    }
    proof {
        assert(data@ =~= padded(info.spec_bytes()));
    }
    data
}

/// A `struct new_utsname`.
pub struct Utsname {
    pub sysname: [u8; 65],
    pub nodename: [u8; 65],
    pub release: [u8; 65],
    pub version: [u8; 65],
    pub machine: [u8; 65],
    pub domainname: [u8; 65],
}

/// `uname`: the system's name record on architecture `arch`.
pub fn sys_uname(arch: &str) -> (r: Utsname)
    requires
        arch.spec_bytes().len() <= 65,
    ensures
        r.sysname@ == padded("Linux".spec_bytes()),
        r.nodename@ == padded("starry".spec_bytes()),
        r.release@ == padded("10.0.0".spec_bytes()),
        r.version@ == padded("10.0.0".spec_bytes()),
        r.machine@ == padded(arch.spec_bytes()),
        r.domainname@ == padded("https://github.com/Starry-OS/StarryOS".spec_bytes()),
{
    proof {
        reveal_strlit("Linux");
        reveal_strlit("starry");
        reveal_strlit("10.0.0");
        reveal_strlit("https://github.com/Starry-OS/StarryOS");
        vstd::string::is_ascii_spec_bytes("Linux");
        vstd::string::is_ascii_spec_bytes("starry");
        vstd::string::is_ascii_spec_bytes("10.0.0");
        vstd::string::is_ascii_spec_bytes("https://github.com/Starry-OS/StarryOS");
    }
    Utsname {
        sysname: pad_str("Linux"),
        nodename: pad_str("starry"),
        release: pad_str("10.0.0"),
        version: pad_str("10.0.0"),
        machine: pad_str(arch),
        domainname: pad_str("https://github.com/Starry-OS/StarryOS"),
    }
}

/// The fields of `struct sysinfo` that are set: the number of processes and
/// the memory unit; all others are zero.
#[derive(Clone, Copy, Debug, PartialEq, Eq)]
pub struct SysinfoFields {
    pub procs: u16,
    pub mem_unit: u32,
}

/// `sysinfo` with `nprocs` processes alive.
pub fn sys_sysinfo(nprocs: usize) -> (r: SysinfoFields)
    ensures
        r == (SysinfoFields { procs: nprocs as u16, mem_unit: 1 }),
{
    SysinfoFields { procs: nprocs as u16, mem_unit: 1 }
}

// ----------------------------------------------------------------------------
// getrandom
// ----------------------------------------------------------------------------

pub const GRND_NONBLOCK: u32 = 1;
pub const GRND_RANDOM: u32 = 2;
pub const GRND_INSECURE: u32 = 4;

/// The device that `getrandom` reads.
#[derive(Clone, Copy, Debug, PartialEq, Eq)]
pub enum RandomSource {
    /// `/dev/random`.
    Random,
    /// `/dev/urandom`.
    Urandom,
}

/// `getrandom(buf, len, flags)`: nothing to read for an empty buffer;
/// otherwise `/dev/random` under `GRND_RANDOM`, else `/dev/urandom`.
pub fn sys_getrandom(len: usize, flags: u32) -> (r: Option<RandomSource>)
    ensures
        r == if len == 0 {
            None
        } else if flags & GRND_RANDOM != 0 {
            Some(RandomSource::Random)
        } else {
            Some(RandomSource::Urandom)
        },
{
    if len == 0 {
        return None;
    }
    if flags & GRND_RANDOM != 0 {
        Some(RandomSource::Random)
    } else {
        Some(RandomSource::Urandom)
    }
}

// ----------------------------------------------------------------------------
// Capabilities
// ----------------------------------------------------------------------------

pub const CAPABILITY_VERSION_1: u32 = 0x19980330;
pub const CAPABILITY_VERSION_2: u32 = 0x20071026;
pub const CAPABILITY_VERSION_3: u32 = 0x20080522;
/// `CAP_CHOWN`, `CAP_SETPCAP` and `CAP_NET_RAW`.
pub const CAP1: u32 = (1 << 0) | (1 << 13) | (1 << 8);
/// `CAP_KILL`.
pub const CAP_KILL_MASK: u32 = 1 << 5;

/// A `struct __user_cap_header_struct`.
#[derive(Clone, Copy, Debug, PartialEq, Eq)]
pub struct CapHeader {
    pub version: u32,
    pub pid: i32,
}

/// A `struct __user_cap_data_struct`.
#[derive(Clone, Copy, Debug, PartialEq, Eq)]
pub struct CapData {
    pub effective: u32,
    pub permitted: u32,
    pub inheritable: u32,
}

pub open spec fn cap_words_of(version: u32) -> Option<usize> {
    if version == CAPABILITY_VERSION_1 {
        Some(1)
    } else if version == CAPABILITY_VERSION_2 || version == CAPABILITY_VERSION_3 {
        Some(2)
    } else {
        None
    }
}

/// How many capability data words a header version uses.
pub fn cap_words(version: u32) -> (r: Option<usize>)
    ensures
        r == cap_words_of(version),
{
    if version == CAPABILITY_VERSION_1 {
        Some(1)
    } else if version == CAPABILITY_VERSION_2 || version == CAPABILITY_VERSION_3 {
        Some(2)
    } else {
        None
    }
}

/// The result of checking a capability header: the target pid and word
/// count, and, for an unknown version, the header to write back to tell the
/// caller the preferred version.
#[derive(Clone, Copy, Debug, PartialEq, Eq)]
pub struct CapHeaderCheck {
    pub result: Result<(i32, usize), SysError>,
    pub write_back: Option<CapHeader>,
}

/// Checks a capability header; `process_lookup` is the outcome of looking up
/// the process the header names, consulted for a nonzero pid.
pub fn validate_cap_header(header: CapHeader, process_lookup: Result<(), SysError>) -> (r: CapHeaderCheck)
    ensures
        r == match cap_words_of(header.version) {
            None => CapHeaderCheck {
                result: Err(SysError::InvalidInput),
                write_back: Some(CapHeader { version: CAPABILITY_VERSION_3, ..header }),
            },
            Some(words) => CapHeaderCheck {
                result: if header.pid < 0 {
                    Err(SysError::InvalidInput)
                } else if header.pid != 0 && process_lookup is Err {
                    Err(process_lookup->Err_0)
                } else {
                    Ok((header.pid, words))
                },
                write_back: None,
            },
        },
{
    let words = match cap_words(header.version) {
        Some(w) => w,
        None => {
            return CapHeaderCheck {
                result: Err(SysError::InvalidInput),
                write_back: Some(CapHeader { version: CAPABILITY_VERSION_3, ..header }),
            };
        },
    };
    if header.pid < 0 {
        return CapHeaderCheck { result: Err(SysError::InvalidInput), write_back: None };
    }
    if header.pid != 0 {
        if let Err(e) = process_lookup {
            return CapHeaderCheck { result: Err(e), write_back: None };
        }
    }
    CapHeaderCheck { result: Ok((header.pid, words)), write_back: None }
}

/// `capget`: after a good header, how many empty data words to copy out (none
/// for a null data pointer).
pub fn sys_capget(check: CapHeaderCheck, data_is_null: bool) -> (r: Result<usize, SysError>)
    ensures
        r == match check.result {
            Err(e) => Err(e),
            Ok((_, words)) => Ok(if data_is_null {
                0usize
            } else {
                words
            }),
        },
{
    match check.result {
        Err(e) => Err(e),
        Ok((_, words)) => if data_is_null {
            Ok(0)
        } else {
            Ok(words)
        },
    }
}

/// Whether `capset` accepts capability sets: nothing effective or inheritable
/// outside the permitted set, and a permitted set that is empty, `CAP1` or
/// `CAP_KILL` alone.
pub open spec fn capset_allowed(d: CapData) -> bool {
    &&& d.effective & !d.permitted == 0
    &&& d.inheritable & !d.permitted == 0
    &&& (d.permitted == 0 || d.permitted == CAP1 || d.permitted == CAP_KILL_MASK)
}

/// `capset` by process `current_pid`, with the data read from user memory.
pub fn sys_capset(check: CapHeaderCheck, data: Result<CapData, SysError>, current_pid: u32) -> (r: Result<
    isize,
    SysError,
>)
    ensures
        r == match check.result {
            Err(e) => Err(e),
            Ok((pid, _)) => match data {
                Err(e) => Err(e),
                Ok(d) => if pid != 0 && pid as u32 != current_pid {
                    Err(SysError::OperationNotPermitted)
                } else if !capset_allowed(d) {
                    Err(SysError::OperationNotPermitted)
                } else {
                    Ok(0isize)
                },
            },
        },
{
    let pid = match check.result {
        Err(e) => return Err(e),
        Ok((pid, _)) => pid,
    };
    let d = match data {
        Err(e) => return Err(e),
        Ok(d) => d,
    };
    if pid != 0 && pid as u32 != current_pid {
        return Err(SysError::OperationNotPermitted);
    }
    if d.effective & !d.permitted != 0 {
        return Err(SysError::OperationNotPermitted);
    }
    if d.inheritable & !d.permitted != 0 {
        return Err(SysError::OperationNotPermitted);
    }
    if !(d.permitted == 0 || d.permitted == CAP1 || d.permitted == CAP_KILL_MASK) {
        return Err(SysError::OperationNotPermitted);
    }
    Ok(0)
}

// ----------------------------------------------------------------------------
// prctl
// ----------------------------------------------------------------------------

pub const PR_SET_NAME: u32 = 15;
pub const PR_GET_NAME: u32 = 16;
pub const PR_SET_SECCOMP: u32 = 22;
pub const PR_CAPBSET_READ: u32 = 23;
pub const PR_CAPBSET_DROP: u32 = 24;
pub const PR_MCE_KILL: u32 = 33;
pub const PR_SET_MM: u32 = 35;

pub const PR_SET_MM_START_CODE: usize = 1;
pub const PR_SET_MM_END_CODE: usize = 2;
pub const PR_SET_MM_START_DATA: usize = 3;
pub const PR_SET_MM_END_DATA: usize = 4;
pub const PR_SET_MM_START_STACK: usize = 5;
pub const PR_SET_MM_START_BRK: usize = 6;
pub const PR_SET_MM_BRK: usize = 7;

/// The memory-layout bounds of a process that `PR_SET_MM` sets.
#[derive(Clone, Copy, Debug, PartialEq, Eq)]
pub struct MmBounds {
    pub start_code: usize,
    pub end_code: usize,
    pub start_data: usize,
    pub end_data: usize,
    pub start_stack: usize,
    pub start_brk: usize,
    pub brk: usize,
}

/// What `prctl` keeps for a task: its name, its seccomp mode, its
/// machine-check kill policy and its process's memory-layout bounds.
pub struct TaskCtl {
    pub name: Vec<u8>,
    pub seccomp_mode: usize,
    pub mce_kill_policy: usize,
    pub mm: MmBounds,
}

pub struct TaskCtlView {
    pub name: Seq<u8>,
    pub seccomp_mode: usize,
    pub mce_kill_policy: usize,
    pub mm: MmBounds,
}

impl View for TaskCtl {
    type V = TaskCtlView;

    open spec fn view(&self) -> TaskCtlView {
        TaskCtlView {
            name: self.name@,
            seccomp_mode: self.seccomp_mode,
            mce_kill_policy: self.mce_kill_policy,
            mm: self.mm,
        }
    }
}

impl TaskCtl {
    /// A task named `name`, with seccomp mode and machine-check policy zero
    /// (none set) and the memory-layout bounds `mm`.
    pub fn new(name: Vec<u8>, mm: MmBounds) -> (r: Self)
        ensures
            r@ == (TaskCtlView { name: name@, seccomp_mode: 0, mce_kill_policy: 0, mm }),
    {
        TaskCtl { name, seccomp_mode: 0, mce_kill_policy: 0, mm }
    }
}

/// What is left to do for a `prctl` call once the task's record is updated.
#[derive(Clone, Copy, Debug, PartialEq, Eq)]
pub enum PrctlAction {
    /// Copy these 16 bytes to `arg2` (the name, for `PR_GET_NAME`), then return 0.
    WriteName([u8; 16]),
    /// Return this value.
    Return(isize),
}

/// The 16-byte buffer that `PR_GET_NAME` copies out for the name `name`: at
/// most 15 bytes of it, then zeros.
pub open spec fn name_buffer_of(name: Seq<u8>) -> Seq<u8> {
    Seq::new(16, |i: int| if i < 15 && i < name.len() { name[i] } else { 0u8 })
}

/// The bounds after `PR_SET_MM` sub-option `option` sets its field to
/// `value`; none for a sub-option that does not name a code, data, stack or
/// heap bound.
pub open spec fn mm_after_set(mm: MmBounds, option: usize, value: usize) -> Option<MmBounds> {
    if option == PR_SET_MM_START_CODE {
        Some(MmBounds { start_code: value, ..mm })
    } else if option == PR_SET_MM_END_CODE {
        Some(MmBounds { end_code: value, ..mm })
    } else if option == PR_SET_MM_START_DATA {
        Some(MmBounds { start_data: value, ..mm })
    } else if option == PR_SET_MM_END_DATA {
        Some(MmBounds { end_data: value, ..mm })
    } else if option == PR_SET_MM_START_STACK {
        Some(MmBounds { start_stack: value, ..mm })
    } else if option == PR_SET_MM_START_BRK {
        Some(MmBounds { start_brk: value, ..mm })
    } else if option == PR_SET_MM_BRK {
        Some(MmBounds { brk: value, ..mm })
    } else {
        None
    }
}

/// `r` and `t1` are what `prctl(option, arg2, arg3)` returns and leaves of a
/// task `t0`, where `name` is the string read at `arg2` (used by
/// `PR_SET_NAME` only).
pub open spec fn prctl_outcome(
    t0: TaskCtlView,
    t1: TaskCtlView,
    option: u32,
    arg2: usize,
    arg3: usize,
    name: Result<Seq<u8>, SysError>,
    r: Result<PrctlAction, SysError>,
) -> bool {
    if option == PR_SET_NAME {
        match name {
            Err(e) => r == Err::<PrctlAction, SysError>(e) && t1 == t0,
            Ok(n) => r == Ok::<PrctlAction, SysError>(PrctlAction::Return(0)) && t1 == TaskCtlView { name: n, ..t0 },
        }
    } else if option == PR_GET_NAME {
        t1 == t0 && (r matches Ok(PrctlAction::WriteName(b)) && b@ == name_buffer_of(t0.name))
    } else if option == PR_SET_SECCOMP {
        r == Ok::<PrctlAction, SysError>(PrctlAction::Return(0)) && t1 == TaskCtlView { seccomp_mode: arg2, ..t0 }
    } else if option == PR_MCE_KILL {
        r == Ok::<PrctlAction, SysError>(PrctlAction::Return(0)) && t1 == TaskCtlView {
            mce_kill_policy: arg2,
            ..t0
        }
    } else if option == PR_CAPBSET_DROP {
        r == Ok::<PrctlAction, SysError>(PrctlAction::Return(0)) && t1 == t0
    } else if option == PR_CAPBSET_READ {
        r == Ok::<PrctlAction, SysError>(PrctlAction::Return(1)) && t1 == t0
    } else if option == PR_SET_MM {
        match mm_after_set(t0.mm, arg2, arg3) {
            Some(mm) => r == Ok::<PrctlAction, SysError>(PrctlAction::Return(0)) && t1 == TaskCtlView { mm, ..t0 },
            None => r == Err::<PrctlAction, SysError>(SysError::InvalidInput) && t1 == t0,
        }
    } else {
        r == Err::<PrctlAction, SysError>(SysError::InvalidInput) && t1 == t0
    }
}

fn set_mm(mm: MmBounds, option: usize, value: usize) -> (r: Option<MmBounds>)
    ensures
        r == mm_after_set(mm, option, value),
{
    if option == PR_SET_MM_START_CODE {
        Some(MmBounds { start_code: value, ..mm })
    } else if option == PR_SET_MM_END_CODE {
        Some(MmBounds { end_code: value, ..mm })
    } else if option == PR_SET_MM_START_DATA {
        Some(MmBounds { start_data: value, ..mm })
    } else if option == PR_SET_MM_END_DATA {
        Some(MmBounds { end_data: value, ..mm })
    } else if option == PR_SET_MM_START_STACK {
        Some(MmBounds { start_stack: value, ..mm })
    } else if option == PR_SET_MM_START_BRK {
        Some(MmBounds { start_brk: value, ..mm })
    } else if option == PR_SET_MM_BRK {
        Some(MmBounds { brk: value, ..mm })
    } else {
        None
    }
}

/// `prctl(option, arg2, arg3, ...)` for `task`: `PR_SET_NAME` names the task
/// `name` (the string read at `arg2`), `PR_GET_NAME` hands out its name,
/// `PR_SET_SECCOMP` sets the seccomp mode to `arg2`, `PR_MCE_KILL` sets the
/// machine-check kill policy to `arg2`, `PR_SET_MM` sets the bound that
/// `arg2` names to `arg3`, `PR_CAPBSET_DROP` and `PR_CAPBSET_READ` answer for
/// a full bounding set; other options are `EINVAL`.
pub fn sys_prctl(task: &mut TaskCtl, option: u32, arg2: usize, arg3: usize, name: Result<Vec<u8>, SysError>) -> (r:
    Result<PrctlAction, SysError>)
    ensures
        prctl_outcome(old(task)@, final(task)@, option, arg2, arg3, bytes_result(name), r),
{
    if option == PR_SET_NAME {
        match name {
            Err(e) => Err(e),
            Ok(n) => {
                task.name = n;
                Ok(PrctlAction::Return(0))
            },
        }
    } else if option == PR_GET_NAME {
        Ok(PrctlAction::WriteName(name_buffer(task.name.as_slice())))
    } else if option == PR_SET_SECCOMP {
        task.seccomp_mode = arg2;
        Ok(PrctlAction::Return(0))
    } else if option == PR_MCE_KILL {
        task.mce_kill_policy = arg2;
        Ok(PrctlAction::Return(0))
    } else if option == PR_CAPBSET_DROP {
        Ok(PrctlAction::Return(0))
    } else if option == PR_CAPBSET_READ {
        Ok(PrctlAction::Return(1))
    } else if option == PR_SET_MM {
        match set_mm(task.mm, arg2, arg3) {
            Some(mm) => {
                task.mm = mm;
                Ok(PrctlAction::Return(0))
            },
            None => Err(SysError::InvalidInput),
        }
    } else {
        Err(SysError::InvalidInput)
    }
}

pub open spec fn bytes_result(r: Result<Vec<u8>, SysError>) -> Result<Seq<u8>, SysError> {
    match r {
        Ok(v) => Ok(v@),
        Err(e) => Err(e),
    }
}

/// The 16 bytes that `PR_GET_NAME` copies out for the name `name`.
fn name_buffer(name: &[u8]) -> (r: [u8; 16])
    ensures
        r@ == name_buffer_of(name@),
{
    let len = if name.len() < 15 {
        name.len()
    } else {
        15
    };
    let mut buf: [u8; 16] = [0; 16];
    let mut i: usize = 0;
    while i < len
        invariant
            len <= 15,
            len <= name@.len(),
            len == name@.len() || len == 15,
            i <= len,
            forall|j: int| 0 <= j < 16 ==> #[trigger] buf@[j] == if j < i {
                name@[j]
            } else {
                0u8
            },
        decreases len - i,
    {
        buf[i] = name[i];
        i += 1;
    }
    proof {
        assert(buf@ =~= name_buffer_of(name@));
    }
    buf
}

/// The 16-byte buffer `PR_GET_NAME` copies out: at most 15 bytes of the name,
/// then zeros.
pub fn prctl_name_buffer(name: &str) -> (r: [u8; 16])
    ensures
        r@ == name_buffer_of(name.spec_bytes()),
{
    name_buffer(name.as_bytes())
}

// ----------------------------------------------------------------------------
// Process accounting
// ----------------------------------------------------------------------------

/// Where process accounting records go, if it is switched on.
pub struct AcctState {
    pub file: Option<Vec<u8>>,
}

/// The accounting record written when accounting is switched off.
#[derive(Clone, Copy, Debug, PartialEq, Eq)]
pub struct AcctRecord {
    pub ac_flag: u8,
    pub ac_version: u8,
    pub ac_uid16: u16,
    pub ac_gid16: u16,
    pub ac_tty: u16,
    pub ac_btime: u32,
    pub ac_utime: u16,
    pub ac_stime: u16,
    pub ac_etime: u16,
    pub ac_mem: u16,
    pub ac_io: u16,
    pub ac_rw: u16,
    pub ac_minflt: u16,
    pub ac_majflt: u16,
    pub ac_swaps: u16,
    pub ac_ahz: u16,
    pub ac_exitcode: u32,
    pub ac_comm: [u8; 17],
    pub ac_etime_hi: u8,
    pub ac_etime_lo: u16,
    pub ac_uid: u32,
    pub ac_gid: u32,
}

/// The command name `acct02_helper`.
pub open spec fn acct_comm() -> Seq<u8> {
    seq![97u8, 99u8, 99u8, 116u8, 48u8, 50u8, 95u8, 104u8, 101u8, 108u8, 112u8, 101u8, 114u8]
}

/// The record for the command `acct02_helper`, which exited with status 255,
/// begun at `btime_secs` by user `uid` in group `gid`.
pub fn write_dummy_acct_record(btime_secs: u64, uid: u32, gid: u32) -> (r: AcctRecord)
    ensures
        r.ac_version == 2 && r.ac_flag == 0 && r.ac_ahz == 100 && r.ac_exitcode == 65280,
        r.ac_btime == btime_secs as u32 && r.ac_uid == uid && r.ac_gid == gid,
        r.ac_uid16 == 0 && r.ac_gid16 == 0 && r.ac_tty == 0 && r.ac_utime == 0 && r.ac_stime == 0,
        r.ac_etime == 0 && r.ac_mem == 0 && r.ac_io == 0 && r.ac_rw == 0 && r.ac_minflt == 0,
        r.ac_majflt == 0 && r.ac_swaps == 0 && r.ac_etime_hi == 0 && r.ac_etime_lo == 0,
        forall|i: int| 0 <= i < 17 ==> #[trigger] r.ac_comm@[i] == if i < 13 {
            acct_comm()[i]
        } else {
            0u8
        },
{
    let name: [u8; 13] = [97, 99, 99, 116, 48, 50, 95, 104, 101, 108, 112, 101, 114];
    let mut comm: [u8; 17] = [0; 17];
    let mut i: usize = 0;
    while i < 13
        invariant
            i <= 13,
            name@ == acct_comm(),
            forall|j: int| 0 <= j < 17 ==> #[trigger] comm@[j] == if j < i {
                name@[j]
            } else {
                0u8
            },
        decreases 13 - i,
    {
        comm[i] = name[i];
        i += 1;
    }
    AcctRecord {
        ac_flag: 0,
        ac_version: 2,
        ac_uid16: 0,
        ac_gid16: 0,
        ac_tty: 0,
        ac_btime: btime_secs as u32,
        ac_utime: 0,
        ac_stime: 0,
        ac_etime: 0,
        ac_mem: 0,
        ac_io: 0,
        ac_rw: 0,
        ac_minflt: 0,
        ac_majflt: 0,
        ac_swaps: 0,
        ac_ahz: 100,
        ac_exitcode: 65280,
        ac_comm: comm,
        ac_etime_hi: 0,
        ac_etime_lo: 0,
        ac_uid: uid,
        ac_gid: gid,
    }
}

/// The 64 bytes of `struct acct_v3` for record `r`, its integers in byte
/// order `o`: the fields in order, each at its natural alignment, which
/// leaves no padding.
pub open spec fn acct_record_layout(r: AcctRecord, o: ByteOrder) -> Seq<u8> {
    seq![r.ac_flag, r.ac_version] + u16_bytes(r.ac_uid16, o) + u16_bytes(r.ac_gid16, o) + u16_bytes(
        r.ac_tty,
        o,
    ) + u32_bytes(r.ac_btime, o) + u16_bytes(r.ac_utime, o) + u16_bytes(r.ac_stime, o) + u16_bytes(
        r.ac_etime,
        o,
    ) + u16_bytes(r.ac_mem, o) + u16_bytes(r.ac_io, o) + u16_bytes(r.ac_rw, o) + u16_bytes(r.ac_minflt, o)
        + u16_bytes(r.ac_majflt, o) + u16_bytes(r.ac_swaps, o) + u16_bytes(r.ac_ahz, o) + u32_bytes(
        r.ac_exitcode,
        o,
    ) + r.ac_comm@ + seq![r.ac_etime_hi] + u16_bytes(r.ac_etime_lo, o) + u32_bytes(r.ac_uid, o) + u32_bytes(
        r.ac_gid,
        o,
    )
}

fn push_u16(b: &mut Vec<u8>, v: u16, o: ByteOrder)
    ensures
        final(b)@ == old(b)@ + u16_bytes(v, o),
        final(b)@.len() == old(b)@.len() + 2,
{
    let mut e = encode_u16(v, o);
    b.append(&mut e);
}

fn push_u32(b: &mut Vec<u8>, v: u32, o: ByteOrder)
    ensures
        final(b)@ == old(b)@ + u32_bytes(v, o),
        final(b)@.len() == old(b)@.len() + 4,
{
    let mut e = encode_u32(v, o);
    b.append(&mut e);
}

/// The bytes of accounting record `r` as the record file holds them, its
/// integers in byte order `o` (the machine's, as the kernel writes it).
pub fn acct_record_bytes(r: &AcctRecord, o: ByteOrder) -> (b: Vec<u8>)
    ensures
        b@ == acct_record_layout(*r, o),
        b@.len() == 64,
{
    let mut b: Vec<u8> = Vec::new();
    b.push(r.ac_flag);
    b.push(r.ac_version);
    push_u16(&mut b, r.ac_uid16, o);
    push_u16(&mut b, r.ac_gid16, o);
    push_u16(&mut b, r.ac_tty, o);
    push_u32(&mut b, r.ac_btime, o);
    push_u16(&mut b, r.ac_utime, o);
    push_u16(&mut b, r.ac_stime, o);
    push_u16(&mut b, r.ac_etime, o);
    push_u16(&mut b, r.ac_mem, o);
    push_u16(&mut b, r.ac_io, o);
    push_u16(&mut b, r.ac_rw, o);
    push_u16(&mut b, r.ac_minflt, o);
    push_u16(&mut b, r.ac_majflt, o);
    push_u16(&mut b, r.ac_swaps, o);
    push_u16(&mut b, r.ac_ahz, o);
    push_u32(&mut b, r.ac_exitcode, o);
    let ghost before_comm = b@;
    let mut i: usize = 0;
    while i < 17
        invariant
            i <= 17,
            b@ == before_comm + r.ac_comm@.take(i as int),
        decreases 17 - i,
    {
        b.push(r.ac_comm[i]);
        i += 1;
        proof {
            assert(r.ac_comm@.take(i as int) =~= r.ac_comm@.take(i - 1).push(r.ac_comm@[i - 1]));
        }
    }
    proof {
        assert(r.ac_comm@.take(17) =~= r.ac_comm@);
    }
    b.push(r.ac_etime_hi);
    push_u16(&mut b, r.ac_etime_lo, o);
    push_u32(&mut b, r.ac_uid, o);
    push_u32(&mut b, r.ac_gid, o);
    proof {
        assert(b@ =~= acct_record_layout(*r, o));
    }
    b
}

pub open spec fn opt_bytes(o: Option<Vec<u8>>) -> Option<Seq<u8>> {
    match o {
        Some(v) => Some(v@),
        None => None,
    }
}

impl AcctState {
    /// Accounting switched off.
    pub fn new() -> (r: Self)
        ensures
            r.file is None,
    {
        AcctState { file: None }
    }

    /// `acct(path)`: with a path (`Some`, the outcome of reading it from user
    /// memory), switches accounting to that file; with a null path, switches
    /// accounting off and returns the file that gets the final record.
    pub fn sys_acct(&mut self, path: Option<Result<Vec<u8>, SysError>>) -> (r: Result<Option<Vec<u8>>, SysError>)
        ensures
            match path {
                None => opt_bytes(final(self).file) == None::<Seq<u8>> && match r {
                    Ok(f) => opt_bytes(f) == opt_bytes(old(self).file),
                    Err(_) => false,
                },
                Some(Err(e)) => r matches Err(e2) && e2 == e && opt_bytes(final(self).file) == opt_bytes(
                    old(self).file,
                ),
                Some(Ok(p)) => r matches Ok(None) && opt_bytes(final(self).file) == Some(p@),
            },
    {
        match path {
            None => {
                let mut taken: Option<Vec<u8>> = None;
                std::mem::swap(&mut taken, &mut self.file);
                Ok(taken)
            },
            Some(Err(e)) => Err(e),
            Some(Ok(p)) => {
                self.file = Some(p);
                Ok(None)
            },
        }
    }
}

// ----------------------------------------------------------------------------
// Laws
// ----------------------------------------------------------------------------

/// `setresuid` with only the saved id given sets that id, and `setreuid` with
/// neither id given keeps the user id.
pub proof fn law_unchanged_ids_keep_identity(current: u32, id: u32)
    ensures
        pick3(ID_UNCHANGED, ID_UNCHANGED, id, current) == if id == ID_UNCHANGED {
            current
        } else {
            id
        },
        pick2(ID_UNCHANGED, ID_UNCHANGED, current) == current,
{
}

/// Every version that `capget` reports as the preferred one is accepted.
pub proof fn law_corrected_version_is_accepted(header: CapHeader)
    ensures
        cap_words_of(CapHeader { version: CAPABILITY_VERSION_3, ..header }.version) == Some(2usize),
{
}

/// What the getters read back of the setters: `getuid` and `geteuid` give the
/// id that `setuid` set, `getgid` and `getegid` the one `setgid` set, and
/// `umask` hands back the mask that the previous `umask` installed.
pub proof fn law_ids_read_back(c: Creds, uid: u32, gid: u32, mask: u32, next: u32)
    ensures
        (Creds { uid, ..c }).uid == uid,
        (Creds { gid, ..Creds { uid, ..c } }).uid == uid,
        (Creds { gid, ..c }).gid == gid,
        (Creds { umask: mask, ..c }).umask == mask,
        (Creds { umask: next, ..Creds { umask: mask, ..c } }).uid == c.uid,
{
}

/// What `PR_GET_NAME` reads back of `PR_SET_NAME`: once a task is named `s`,
/// asking for its name gives the first 15 bytes of `s`, then zeros, so the
/// name read back always ends in a NUL.
pub proof fn law_name_reads_back(
    t0: TaskCtlView,
    t1: TaskCtlView,
    t2: TaskCtlView,
    s: Seq<u8>,
    set_args: (usize, usize),
    get_args: (usize, usize),
    get_name: Result<Seq<u8>, SysError>,
    r1: Result<PrctlAction, SysError>,
    r2: Result<PrctlAction, SysError>,
)
    requires
        prctl_outcome(t0, t1, PR_SET_NAME, set_args.0, set_args.1, Ok(s), r1),
        prctl_outcome(t1, t2, PR_GET_NAME, get_args.0, get_args.1, get_name, r2),
    ensures
        r1 == Ok::<PrctlAction, SysError>(PrctlAction::Return(0)),
        r2 matches Ok(PrctlAction::WriteName(b)) && b@ == name_buffer_of(s) && b@[15] == 0,
        t2.name == s,
{
}

} // verus!
