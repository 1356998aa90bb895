//! Decoding system-call numbers: which call a number stands for on this
//! machine, and which calls the kernel answers itself.
use vstd::prelude::*;
use vstd::string::StringSliceAdditionalSpecFns;

use crate::error::SysError;

verus! {

#[verifier::external_type_specification]
#[verifier::external_body]
pub struct ExSysno(syscalls::Sysno);

/// The system calls that this kernel handles, and `Other` for every call
/// that the machine knows but the kernel does not implement.
#[derive(Clone, Copy, Debug, PartialEq, Eq, Structural)]
pub enum Syscall {
    Openat,
    Open,
    Close,
    CloseRange,
    Dup,
    Dup2,
    Dup3,
    Fcntl,
    Flock,
    Mount,
    Umount2,
    TimerfdCreate,
    TimerfdSettime,
    TimerfdGettime,
    TimerCreate,
    TimerGettime,
    TimerSettime,
    Bpf,
    Getuid,
    Geteuid,
    Getgid,
    Getegid,
    Setuid,
    Setgid,
    Setreuid,
    Setregid,
    Setresuid,
    Setresgid,
    Getresuid,
    Getresgid,
    Umask,
    Getgroups,
    Setgroups,
    Uname,
    Sysinfo,
    Syslog,
    Acct,
    Getrandom,
    Seccomp,
    RiscvFlushIcache,
    Capget,
    Capset,
    GetMempolicy,
    Prctl,
    ClockAdjtime,
    Adjtimex,
    ClockGettime,
    Gettimeofday,
    ClockGetres,
    Times,
    Getitimer,
    Setitimer,
    Other,
}

/// The name of call `s` as the machine's system-call table spells it; the
/// empty name for `Other`.
pub open spec fn syscall_name(s: Syscall) -> Seq<u8> {
    match s {
        Syscall::Openat => seq![111u8, 112u8, 101u8, 110u8, 97u8, 116u8],
        Syscall::Open => seq![111u8, 112u8, 101u8, 110u8],
        Syscall::Close => seq![99u8, 108u8, 111u8, 115u8, 101u8],
        Syscall::CloseRange => seq![99u8, 108u8, 111u8, 115u8, 101u8, 95u8, 114u8, 97u8, 110u8, 103u8, 101u8],
        Syscall::Dup => seq![100u8, 117u8, 112u8],
        Syscall::Dup2 => seq![100u8, 117u8, 112u8, 50u8],
        Syscall::Dup3 => seq![100u8, 117u8, 112u8, 51u8],
        Syscall::Fcntl => seq![102u8, 99u8, 110u8, 116u8, 108u8],
        Syscall::Flock => seq![102u8, 108u8, 111u8, 99u8, 107u8],
        Syscall::Mount => seq![109u8, 111u8, 117u8, 110u8, 116u8],
        Syscall::Umount2 => seq![117u8, 109u8, 111u8, 117u8, 110u8, 116u8, 50u8],
        Syscall::TimerfdCreate => seq![116u8, 105u8, 109u8, 101u8, 114u8, 102u8, 100u8, 95u8, 99u8, 114u8, 101u8, 97u8, 116u8, 101u8],
        Syscall::TimerfdSettime => seq![116u8, 105u8, 109u8, 101u8, 114u8, 102u8, 100u8, 95u8, 115u8, 101u8, 116u8, 116u8, 105u8, 109u8, 101u8],
        Syscall::TimerfdGettime => seq![116u8, 105u8, 109u8, 101u8, 114u8, 102u8, 100u8, 95u8, 103u8, 101u8, 116u8, 116u8, 105u8, 109u8, 101u8],
        Syscall::TimerCreate => seq![116u8, 105u8, 109u8, 101u8, 114u8, 95u8, 99u8, 114u8, 101u8, 97u8, 116u8, 101u8],
        Syscall::TimerGettime => seq![116u8, 105u8, 109u8, 101u8, 114u8, 95u8, 103u8, 101u8, 116u8, 116u8, 105u8, 109u8, 101u8],
        Syscall::TimerSettime => seq![116u8, 105u8, 109u8, 101u8, 114u8, 95u8, 115u8, 101u8, 116u8, 116u8, 105u8, 109u8, 101u8],
        Syscall::Bpf => seq![98u8, 112u8, 102u8],
        Syscall::Getuid => seq![103u8, 101u8, 116u8, 117u8, 105u8, 100u8],
        Syscall::Geteuid => seq![103u8, 101u8, 116u8, 101u8, 117u8, 105u8, 100u8],
        Syscall::Getgid => seq![103u8, 101u8, 116u8, 103u8, 105u8, 100u8],
        Syscall::Getegid => seq![103u8, 101u8, 116u8, 101u8, 103u8, 105u8, 100u8],
        Syscall::Setuid => seq![115u8, 101u8, 116u8, 117u8, 105u8, 100u8],
        Syscall::Setgid => seq![115u8, 101u8, 116u8, 103u8, 105u8, 100u8],
        Syscall::Setreuid => seq![115u8, 101u8, 116u8, 114u8, 101u8, 117u8, 105u8, 100u8],
        Syscall::Setregid => seq![115u8, 101u8, 116u8, 114u8, 101u8, 103u8, 105u8, 100u8],
        Syscall::Setresuid => seq![115u8, 101u8, 116u8, 114u8, 101u8, 115u8, 117u8, 105u8, 100u8],
        Syscall::Setresgid => seq![115u8, 101u8, 116u8, 114u8, 101u8, 115u8, 103u8, 105u8, 100u8],
        Syscall::Getresuid => seq![103u8, 101u8, 116u8, 114u8, 101u8, 115u8, 117u8, 105u8, 100u8],
        Syscall::Getresgid => seq![103u8, 101u8, 116u8, 114u8, 101u8, 115u8, 103u8, 105u8, 100u8],
        Syscall::Umask => seq![117u8, 109u8, 97u8, 115u8, 107u8],
        Syscall::Getgroups => seq![103u8, 101u8, 116u8, 103u8, 114u8, 111u8, 117u8, 112u8, 115u8],
        Syscall::Setgroups => seq![115u8, 101u8, 116u8, 103u8, 114u8, 111u8, 117u8, 112u8, 115u8],
        Syscall::Uname => seq![117u8, 110u8, 97u8, 109u8, 101u8],
        Syscall::Sysinfo => seq![115u8, 121u8, 115u8, 105u8, 110u8, 102u8, 111u8],
        Syscall::Syslog => seq![115u8, 121u8, 115u8, 108u8, 111u8, 103u8],
        Syscall::Acct => seq![97u8, 99u8, 99u8, 116u8],
        Syscall::Getrandom => seq![103u8, 101u8, 116u8, 114u8, 97u8, 110u8, 100u8, 111u8, 109u8],
        Syscall::Seccomp => seq![115u8, 101u8, 99u8, 99u8, 111u8, 109u8, 112u8],
        Syscall::RiscvFlushIcache => seq![114u8, 105u8, 115u8, 99u8, 118u8, 95u8, 102u8, 108u8, 117u8, 115u8, 104u8, 95u8, 105u8, 99u8, 97u8, 99u8, 104u8, 101u8],
        Syscall::Capget => seq![99u8, 97u8, 112u8, 103u8, 101u8, 116u8],
        Syscall::Capset => seq![99u8, 97u8, 112u8, 115u8, 101u8, 116u8],
        Syscall::GetMempolicy => seq![103u8, 101u8, 116u8, 95u8, 109u8, 101u8, 109u8, 112u8, 111u8, 108u8, 105u8, 99u8, 121u8],
        Syscall::Prctl => seq![112u8, 114u8, 99u8, 116u8, 108u8],
        Syscall::ClockAdjtime => seq![99u8, 108u8, 111u8, 99u8, 107u8, 95u8, 97u8, 100u8, 106u8, 116u8, 105u8, 109u8, 101u8],
        Syscall::Adjtimex => seq![97u8, 100u8, 106u8, 116u8, 105u8, 109u8, 101u8, 120u8],
        Syscall::ClockGettime => seq![99u8, 108u8, 111u8, 99u8, 107u8, 95u8, 103u8, 101u8, 116u8, 116u8, 105u8, 109u8, 101u8],
        Syscall::Gettimeofday => seq![103u8, 101u8, 116u8, 116u8, 105u8, 109u8, 101u8, 111u8, 102u8, 100u8, 97u8, 121u8],
        Syscall::ClockGetres => seq![99u8, 108u8, 111u8, 99u8, 107u8, 95u8, 103u8, 101u8, 116u8, 114u8, 101u8, 115u8],
        Syscall::Times => seq![116u8, 105u8, 109u8, 101u8, 115u8],
        Syscall::Getitimer => seq![103u8, 101u8, 116u8, 105u8, 116u8, 105u8, 109u8, 101u8, 114u8],
        Syscall::Setitimer => seq![115u8, 101u8, 116u8, 105u8, 116u8, 105u8, 109u8, 101u8, 114u8],
        Syscall::Other => Seq::empty(),
    }
}

/// The bytes of the name of `s`.
fn name_bytes(s: Syscall) -> (r: Vec<u8>)
    ensures
        r@ == syscall_name(s),
{
    let r: Vec<u8> = match s {
        Syscall::Openat => vec![111, 112, 101, 110, 97, 116],
        Syscall::Open => vec![111, 112, 101, 110],
        Syscall::Close => vec![99, 108, 111, 115, 101],
        Syscall::CloseRange => vec![99, 108, 111, 115, 101, 95, 114, 97, 110, 103, 101],
        Syscall::Dup => vec![100, 117, 112],
        Syscall::Dup2 => vec![100, 117, 112, 50],
        Syscall::Dup3 => vec![100, 117, 112, 51],
        Syscall::Fcntl => vec![102, 99, 110, 116, 108],
        Syscall::Flock => vec![102, 108, 111, 99, 107],
        Syscall::Mount => vec![109, 111, 117, 110, 116],
        Syscall::Umount2 => vec![117, 109, 111, 117, 110, 116, 50],
        Syscall::TimerfdCreate => vec![116, 105, 109, 101, 114, 102, 100, 95, 99, 114, 101, 97, 116, 101],
        Syscall::TimerfdSettime => vec![116, 105, 109, 101, 114, 102, 100, 95, 115, 101, 116, 116, 105, 109, 101],
        Syscall::TimerfdGettime => vec![116, 105, 109, 101, 114, 102, 100, 95, 103, 101, 116, 116, 105, 109, 101],
        Syscall::TimerCreate => vec![116, 105, 109, 101, 114, 95, 99, 114, 101, 97, 116, 101],
        Syscall::TimerGettime => vec![116, 105, 109, 101, 114, 95, 103, 101, 116, 116, 105, 109, 101],
        Syscall::TimerSettime => vec![116, 105, 109, 101, 114, 95, 115, 101, 116, 116, 105, 109, 101],
        Syscall::Bpf => vec![98, 112, 102],
        Syscall::Getuid => vec![103, 101, 116, 117, 105, 100],
        Syscall::Geteuid => vec![103, 101, 116, 101, 117, 105, 100],
        Syscall::Getgid => vec![103, 101, 116, 103, 105, 100],
        Syscall::Getegid => vec![103, 101, 116, 101, 103, 105, 100],
        Syscall::Setuid => vec![115, 101, 116, 117, 105, 100],
        Syscall::Setgid => vec![115, 101, 116, 103, 105, 100],
        Syscall::Setreuid => vec![115, 101, 116, 114, 101, 117, 105, 100],
        Syscall::Setregid => vec![115, 101, 116, 114, 101, 103, 105, 100],
        Syscall::Setresuid => vec![115, 101, 116, 114, 101, 115, 117, 105, 100],
        Syscall::Setresgid => vec![115, 101, 116, 114, 101, 115, 103, 105, 100],
        Syscall::Getresuid => vec![103, 101, 116, 114, 101, 115, 117, 105, 100],
        Syscall::Getresgid => vec![103, 101, 116, 114, 101, 115, 103, 105, 100],
        Syscall::Umask => vec![117, 109, 97, 115, 107],
        Syscall::Getgroups => vec![103, 101, 116, 103, 114, 111, 117, 112, 115],
        Syscall::Setgroups => vec![115, 101, 116, 103, 114, 111, 117, 112, 115],
        Syscall::Uname => vec![117, 110, 97, 109, 101],
        Syscall::Sysinfo => vec![115, 121, 115, 105, 110, 102, 111],
        Syscall::Syslog => vec![115, 121, 115, 108, 111, 103],
        Syscall::Acct => vec![97, 99, 99, 116],
        Syscall::Getrandom => vec![103, 101, 116, 114, 97, 110, 100, 111, 109],
        Syscall::Seccomp => vec![115, 101, 99, 99, 111, 109, 112],
        Syscall::RiscvFlushIcache => vec![114, 105, 115, 99, 118, 95, 102, 108, 117, 115, 104, 95, 105, 99, 97, 99, 104, 101],
        Syscall::Capget => vec![99, 97, 112, 103, 101, 116],
        Syscall::Capset => vec![99, 97, 112, 115, 101, 116],
        Syscall::GetMempolicy => vec![103, 101, 116, 95, 109, 101, 109, 112, 111, 108, 105, 99, 121],
        Syscall::Prctl => vec![112, 114, 99, 116, 108],
        Syscall::ClockAdjtime => vec![99, 108, 111, 99, 107, 95, 97, 100, 106, 116, 105, 109, 101],
        Syscall::Adjtimex => vec![97, 100, 106, 116, 105, 109, 101, 120],
        Syscall::ClockGettime => vec![99, 108, 111, 99, 107, 95, 103, 101, 116, 116, 105, 109, 101],
        Syscall::Gettimeofday => vec![103, 101, 116, 116, 105, 109, 101, 111, 102, 100, 97, 121],
        Syscall::ClockGetres => vec![99, 108, 111, 99, 107, 95, 103, 101, 116, 114, 101, 115],
        Syscall::Times => vec![116, 105, 109, 101, 115],
        Syscall::Getitimer => vec![103, 101, 116, 105, 116, 105, 109, 101, 114],
        Syscall::Setitimer => vec![115, 101, 116, 105, 116, 105, 109, 101, 114],
        Syscall::Other => Vec::new(),
    };
    proof {
        assert(r@ =~= syscall_name(s));
    }
    r
}

fn bytes_equal(a: &[u8], b: &[u8]) -> (r: bool)
    ensures
        r == (a@ == b@),
{
    if a.len() != b.len() {
        return false;
    }
    let mut i: usize = 0;
    while i < a.len()
        invariant
            a@.len() == b@.len(),
            i <= a@.len(),
            forall|j: int| 0 <= j < i ==> a@[j] == b@[j],
        decreases a@.len() - i,
    {
        if a[i] != b[i] {
            return false;
        }
        i += 1;
    }
    proof {
        assert(a@ =~= b@);
    }
    true
}

/// Whether `name` is the name of `s`.
fn is_named(name: &[u8], s: Syscall) -> (r: bool)
    ensures
        r == (name@ == syscall_name(s)),
{
    let n = name_bytes(s);
    bytes_equal(name, n.as_slice())
}

/// The handled call whose name is `name`, or `Other` when no handled call
/// bears that name.
pub fn syscall_of_name(name: &str) -> (r: Syscall)
    ensures
        r != Syscall::Other ==> syscall_name(r) == name.spec_bytes(),
        r == Syscall::Other ==> forall|s: Syscall| s != Syscall::Other ==> syscall_name(s) != name.spec_bytes(),
{
    let t = name.as_bytes();
    if is_named(t, Syscall::Openat) {
        return Syscall::Openat;
    }
    if is_named(t, Syscall::Open) {
        return Syscall::Open;
    }
    if is_named(t, Syscall::Close) {
        return Syscall::Close;
    }
    if is_named(t, Syscall::CloseRange) {
        return Syscall::CloseRange;
    }
    if is_named(t, Syscall::Dup) {
        return Syscall::Dup;
    }
    if is_named(t, Syscall::Dup2) {
        return Syscall::Dup2;
    }
    if is_named(t, Syscall::Dup3) {
        return Syscall::Dup3;
    }
    if is_named(t, Syscall::Fcntl) {
        return Syscall::Fcntl;
    }
    if is_named(t, Syscall::Flock) {
        return Syscall::Flock;
    }
    if is_named(t, Syscall::Mount) {
        return Syscall::Mount;
    }
    if is_named(t, Syscall::Umount2) {
        return Syscall::Umount2;
    }
    if is_named(t, Syscall::TimerfdCreate) {
        return Syscall::TimerfdCreate;
    }
    if is_named(t, Syscall::TimerfdSettime) {
        return Syscall::TimerfdSettime;
    }
    if is_named(t, Syscall::TimerfdGettime) {
        return Syscall::TimerfdGettime;
    }
    if is_named(t, Syscall::TimerCreate) {
        return Syscall::TimerCreate;
    }
    if is_named(t, Syscall::TimerGettime) {
        return Syscall::TimerGettime;
    }
    if is_named(t, Syscall::TimerSettime) {
        return Syscall::TimerSettime;
    }
    if is_named(t, Syscall::Bpf) {
        return Syscall::Bpf;
    }
    if is_named(t, Syscall::Getuid) {
        return Syscall::Getuid;
    }
    if is_named(t, Syscall::Geteuid) {
        return Syscall::Geteuid;
    }
    if is_named(t, Syscall::Getgid) {
        return Syscall::Getgid;
    }
    if is_named(t, Syscall::Getegid) {
        return Syscall::Getegid;
    }
    if is_named(t, Syscall::Setuid) {
        return Syscall::Setuid;
    }
    if is_named(t, Syscall::Setgid) {
        return Syscall::Setgid;
    }
    if is_named(t, Syscall::Setreuid) {
        return Syscall::Setreuid;
    }
    if is_named(t, Syscall::Setregid) {
        return Syscall::Setregid;
    }
    if is_named(t, Syscall::Setresuid) {
        return Syscall::Setresuid;
    }
    if is_named(t, Syscall::Setresgid) {
        return Syscall::Setresgid;
    }
    if is_named(t, Syscall::Getresuid) {
        return Syscall::Getresuid;
    }
    if is_named(t, Syscall::Getresgid) {
        return Syscall::Getresgid;
    }
    if is_named(t, Syscall::Umask) {
        return Syscall::Umask;
    }
    if is_named(t, Syscall::Getgroups) {
        return Syscall::Getgroups;
    }
    if is_named(t, Syscall::Setgroups) {
        return Syscall::Setgroups;
    }
    if is_named(t, Syscall::Uname) {
        return Syscall::Uname;
    }
    if is_named(t, Syscall::Sysinfo) {
        return Syscall::Sysinfo;
    }
    if is_named(t, Syscall::Syslog) {
        return Syscall::Syslog;
    }
    if is_named(t, Syscall::Acct) {
        return Syscall::Acct;
    }
    if is_named(t, Syscall::Getrandom) {
        return Syscall::Getrandom;
    }
    if is_named(t, Syscall::Seccomp) {
        return Syscall::Seccomp;
    }
    if is_named(t, Syscall::RiscvFlushIcache) {
        return Syscall::RiscvFlushIcache;
    }
    if is_named(t, Syscall::Capget) {
        return Syscall::Capget;
    }
    if is_named(t, Syscall::Capset) {
        return Syscall::Capset;
    }
    if is_named(t, Syscall::GetMempolicy) {
        return Syscall::GetMempolicy;
    }
    if is_named(t, Syscall::Prctl) {
        return Syscall::Prctl;
    }
    if is_named(t, Syscall::ClockAdjtime) {
        return Syscall::ClockAdjtime;
    }
    if is_named(t, Syscall::Adjtimex) {
        return Syscall::Adjtimex;
    }
    if is_named(t, Syscall::ClockGettime) {
        return Syscall::ClockGettime;
    }
    if is_named(t, Syscall::Gettimeofday) {
        return Syscall::Gettimeofday;
    }
    if is_named(t, Syscall::ClockGetres) {
        return Syscall::ClockGetres;
    }
    if is_named(t, Syscall::Times) {
        return Syscall::Times;
    }
    if is_named(t, Syscall::Getitimer) {
        return Syscall::Getitimer;
    }
    if is_named(t, Syscall::Setitimer) {
        return Syscall::Setitimer;
    }
    proof {
        assert forall|s: Syscall| s != Syscall::Other implies syscall_name(s) != name.spec_bytes() by {
            match s {
                Syscall::Openat => {},
                Syscall::Open => {},
                Syscall::Close => {},
                Syscall::CloseRange => {},
                Syscall::Dup => {},
                Syscall::Dup2 => {},
                Syscall::Dup3 => {},
                Syscall::Fcntl => {},
                Syscall::Flock => {},
                Syscall::Mount => {},
                Syscall::Umount2 => {},
                Syscall::TimerfdCreate => {},
                Syscall::TimerfdSettime => {},
                Syscall::TimerfdGettime => {},
                Syscall::TimerCreate => {},
                Syscall::TimerGettime => {},
                Syscall::TimerSettime => {},
                Syscall::Bpf => {},
                Syscall::Getuid => {},
                Syscall::Geteuid => {},
                Syscall::Getgid => {},
                Syscall::Getegid => {},
                Syscall::Setuid => {},
                Syscall::Setgid => {},
                Syscall::Setreuid => {},
                Syscall::Setregid => {},
                Syscall::Setresuid => {},
                Syscall::Setresgid => {},
                Syscall::Getresuid => {},
                Syscall::Getresgid => {},
                Syscall::Umask => {},
                Syscall::Getgroups => {},
                Syscall::Setgroups => {},
                Syscall::Uname => {},
                Syscall::Sysinfo => {},
                Syscall::Syslog => {},
                Syscall::Acct => {},
                Syscall::Getrandom => {},
                Syscall::Seccomp => {},
                Syscall::RiscvFlushIcache => {},
                Syscall::Capget => {},
                Syscall::Capset => {},
                Syscall::GetMempolicy => {},
                Syscall::Prctl => {},
                Syscall::ClockAdjtime => {},
                Syscall::Adjtimex => {},
                Syscall::ClockGettime => {},
                Syscall::Gettimeofday => {},
                Syscall::ClockGetres => {},
                Syscall::Times => {},
                Syscall::Getitimer => {},
                Syscall::Setitimer => {},
                Syscall::Other => {},
            }
        }
    }
    Syscall::Other
}

/// `Sysno::new` of the `syscalls` crate: the call that number `n` stands for
/// in the system-call table of the architecture the crate is built for, or
/// `None` where the table has no call of that number. The numbering differs
/// from one architecture to another, so nothing is stated of the result.
#[verifier::external_body]
fn sysno_new(n: usize) -> (r: Option<syscalls::Sysno>) {
    syscalls::Sysno::new(n)
}

/// `Sysno::name` of the `syscalls` crate: the name of call `s`, spelled as
/// the variant that the crate declares for it. Nothing is stated of the
/// result: which names exist depends on the architecture.
#[verifier::external_body]
fn sysno_name(s: syscalls::Sysno) -> (r: &'static str) {
    s.name()
}

/// The call that system-call number `n` stands for on this machine: `None`
/// where the machine has no such call, otherwise the handled call of that
/// name or `Other`. Which call a number stands for depends on the machine's
/// table, so the contract says only how a name is decoded.
pub fn decode_sysno(n: usize) -> (r: Option<Syscall>) {
    match sysno_new(n) {
        None => None,
        Some(s) => Some(syscall_of_name(sysno_name(s))),
    }
}

/// Where a decoded call goes next.
#[derive(Clone, Copy, Debug, PartialEq, Eq)]
pub enum Route {
    /// The call is answered at once with this result.
    Done(Result<isize, SysError>),
    /// The handler of this call does the work.
    Handler(Syscall),
}

/// What the dispatcher does with a decoded call: an unknown number and an
/// unimplemented call are `Unsupported` (`ENOSYS`), the POSIX timer calls
/// are accepted and do nothing, and every other call goes to its handler.
pub fn route(s: Option<Syscall>) -> (r: Route)
    ensures
        s is None ==> r == Route::Done(Err(SysError::Unsupported)),
        s == Some(Syscall::Other) ==> r == Route::Done(Err(SysError::Unsupported)),
        s == Some(Syscall::TimerCreate) || s == Some(Syscall::TimerGettime) || s == Some(
            Syscall::TimerSettime,
        ) ==> r == Route::Done(Ok(0)),
        s matches Some(c) ==> (c != Syscall::Other && c != Syscall::TimerCreate && c != Syscall::TimerGettime
            && c != Syscall::TimerSettime ==> r == Route::Handler(c)),
{
    match s {
        None => Route::Done(Err(SysError::Unsupported)),
        Some(Syscall::Other) => Route::Done(Err(SysError::Unsupported)),
        Some(Syscall::TimerCreate) | Some(Syscall::TimerGettime) | Some(Syscall::TimerSettime) => Route::Done(
            Ok(0),
        ),
        Some(c) => Route::Handler(c),
    }
}

/// Each handled call is named by its Linux system-call name, spelled out as
/// text, and `Other` by no name at all.
pub proof fn law_syscall_names()
    ensures
        syscall_name(Syscall::Openat) == "openat"@.map_values(|c: char| c as u8),
        syscall_name(Syscall::Open) == "open"@.map_values(|c: char| c as u8),
        syscall_name(Syscall::Close) == "close"@.map_values(|c: char| c as u8),
        syscall_name(Syscall::CloseRange) == "close_range"@.map_values(|c: char| c as u8),
        syscall_name(Syscall::Dup) == "dup"@.map_values(|c: char| c as u8),
        syscall_name(Syscall::Dup2) == "dup2"@.map_values(|c: char| c as u8),
        syscall_name(Syscall::Dup3) == "dup3"@.map_values(|c: char| c as u8),
        syscall_name(Syscall::Fcntl) == "fcntl"@.map_values(|c: char| c as u8),
        syscall_name(Syscall::Flock) == "flock"@.map_values(|c: char| c as u8),
        syscall_name(Syscall::Mount) == "mount"@.map_values(|c: char| c as u8),
        syscall_name(Syscall::Umount2) == "umount2"@.map_values(|c: char| c as u8),
        syscall_name(Syscall::TimerfdCreate) == "timerfd_create"@.map_values(|c: char| c as u8),
        syscall_name(Syscall::TimerfdSettime) == "timerfd_settime"@.map_values(|c: char| c as u8),
        syscall_name(Syscall::TimerfdGettime) == "timerfd_gettime"@.map_values(|c: char| c as u8),
        syscall_name(Syscall::TimerCreate) == "timer_create"@.map_values(|c: char| c as u8),
        syscall_name(Syscall::TimerGettime) == "timer_gettime"@.map_values(|c: char| c as u8),
        syscall_name(Syscall::TimerSettime) == "timer_settime"@.map_values(|c: char| c as u8),
        syscall_name(Syscall::Bpf) == "bpf"@.map_values(|c: char| c as u8),
        syscall_name(Syscall::Getuid) == "getuid"@.map_values(|c: char| c as u8),
        syscall_name(Syscall::Geteuid) == "geteuid"@.map_values(|c: char| c as u8),
        syscall_name(Syscall::Getgid) == "getgid"@.map_values(|c: char| c as u8),
        syscall_name(Syscall::Getegid) == "getegid"@.map_values(|c: char| c as u8),
        syscall_name(Syscall::Setuid) == "setuid"@.map_values(|c: char| c as u8),
        syscall_name(Syscall::Setgid) == "setgid"@.map_values(|c: char| c as u8),
        syscall_name(Syscall::Setreuid) == "setreuid"@.map_values(|c: char| c as u8),
        syscall_name(Syscall::Setregid) == "setregid"@.map_values(|c: char| c as u8),
        syscall_name(Syscall::Setresuid) == "setresuid"@.map_values(|c: char| c as u8),
        syscall_name(Syscall::Setresgid) == "setresgid"@.map_values(|c: char| c as u8),
        syscall_name(Syscall::Getresuid) == "getresuid"@.map_values(|c: char| c as u8),
        syscall_name(Syscall::Getresgid) == "getresgid"@.map_values(|c: char| c as u8),
        syscall_name(Syscall::Umask) == "umask"@.map_values(|c: char| c as u8),
        syscall_name(Syscall::Getgroups) == "getgroups"@.map_values(|c: char| c as u8),
        syscall_name(Syscall::Setgroups) == "setgroups"@.map_values(|c: char| c as u8),
        syscall_name(Syscall::Uname) == "uname"@.map_values(|c: char| c as u8),
        syscall_name(Syscall::Sysinfo) == "sysinfo"@.map_values(|c: char| c as u8),
        syscall_name(Syscall::Syslog) == "syslog"@.map_values(|c: char| c as u8),
        syscall_name(Syscall::Acct) == "acct"@.map_values(|c: char| c as u8),
        syscall_name(Syscall::Getrandom) == "getrandom"@.map_values(|c: char| c as u8),
        syscall_name(Syscall::Seccomp) == "seccomp"@.map_values(|c: char| c as u8),
        syscall_name(Syscall::RiscvFlushIcache) == "riscv_flush_icache"@.map_values(|c: char| c as u8),
        syscall_name(Syscall::Capget) == "capget"@.map_values(|c: char| c as u8),
        syscall_name(Syscall::Capset) == "capset"@.map_values(|c: char| c as u8),
        syscall_name(Syscall::GetMempolicy) == "get_mempolicy"@.map_values(|c: char| c as u8),
        syscall_name(Syscall::Prctl) == "prctl"@.map_values(|c: char| c as u8),
        syscall_name(Syscall::ClockAdjtime) == "clock_adjtime"@.map_values(|c: char| c as u8),
        syscall_name(Syscall::Adjtimex) == "adjtimex"@.map_values(|c: char| c as u8),
        syscall_name(Syscall::ClockGettime) == "clock_gettime"@.map_values(|c: char| c as u8),
        syscall_name(Syscall::Gettimeofday) == "gettimeofday"@.map_values(|c: char| c as u8),
        syscall_name(Syscall::ClockGetres) == "clock_getres"@.map_values(|c: char| c as u8),
        syscall_name(Syscall::Times) == "times"@.map_values(|c: char| c as u8),
        syscall_name(Syscall::Getitimer) == "getitimer"@.map_values(|c: char| c as u8),
        syscall_name(Syscall::Setitimer) == "setitimer"@.map_values(|c: char| c as u8),
        syscall_name(Syscall::Other).len() == 0,
{
    reveal_strlit("openat");
    reveal_strlit("open");
    reveal_strlit("close");
    reveal_strlit("close_range");
    reveal_strlit("dup");
    reveal_strlit("dup2");
    reveal_strlit("dup3");
    reveal_strlit("fcntl");
    reveal_strlit("flock");
    reveal_strlit("mount");
    reveal_strlit("umount2");
    reveal_strlit("timerfd_create");
    reveal_strlit("timerfd_settime");
    reveal_strlit("timerfd_gettime");
    reveal_strlit("timer_create");
    reveal_strlit("timer_gettime");
    reveal_strlit("timer_settime");
    reveal_strlit("bpf");
    reveal_strlit("getuid");
    reveal_strlit("geteuid");
    reveal_strlit("getgid");
    reveal_strlit("getegid");
    reveal_strlit("setuid");
    reveal_strlit("setgid");
    reveal_strlit("setreuid");
    reveal_strlit("setregid");
    reveal_strlit("setresuid");
    reveal_strlit("setresgid");
    reveal_strlit("getresuid");
    reveal_strlit("getresgid");
    reveal_strlit("umask");
    reveal_strlit("getgroups");
    reveal_strlit("setgroups");
    reveal_strlit("uname");
    reveal_strlit("sysinfo");
    reveal_strlit("syslog");
    reveal_strlit("acct");
    reveal_strlit("getrandom");
    reveal_strlit("seccomp");
    reveal_strlit("riscv_flush_icache");
    reveal_strlit("capget");
    reveal_strlit("capset");
    reveal_strlit("get_mempolicy");
    reveal_strlit("prctl");
    reveal_strlit("clock_adjtime");
    reveal_strlit("adjtimex");
    reveal_strlit("clock_gettime");
    reveal_strlit("gettimeofday");
    reveal_strlit("clock_getres");
    reveal_strlit("times");
    reveal_strlit("getitimer");
    reveal_strlit("setitimer");
    assert(syscall_name(Syscall::Openat) =~= "openat"@.map_values(|c: char| c as u8));
    assert(syscall_name(Syscall::Open) =~= "open"@.map_values(|c: char| c as u8));
    assert(syscall_name(Syscall::Close) =~= "close"@.map_values(|c: char| c as u8));
    assert(syscall_name(Syscall::CloseRange) =~= "close_range"@.map_values(|c: char| c as u8));
    assert(syscall_name(Syscall::Dup) =~= "dup"@.map_values(|c: char| c as u8));
    assert(syscall_name(Syscall::Dup2) =~= "dup2"@.map_values(|c: char| c as u8));
    assert(syscall_name(Syscall::Dup3) =~= "dup3"@.map_values(|c: char| c as u8));
    assert(syscall_name(Syscall::Fcntl) =~= "fcntl"@.map_values(|c: char| c as u8));
    assert(syscall_name(Syscall::Flock) =~= "flock"@.map_values(|c: char| c as u8));
    assert(syscall_name(Syscall::Mount) =~= "mount"@.map_values(|c: char| c as u8));
    assert(syscall_name(Syscall::Umount2) =~= "umount2"@.map_values(|c: char| c as u8));
    assert(syscall_name(Syscall::TimerfdCreate) =~= "timerfd_create"@.map_values(|c: char| c as u8));
    assert(syscall_name(Syscall::TimerfdSettime) =~= "timerfd_settime"@.map_values(|c: char| c as u8));
    assert(syscall_name(Syscall::TimerfdGettime) =~= "timerfd_gettime"@.map_values(|c: char| c as u8));
    assert(syscall_name(Syscall::TimerCreate) =~= "timer_create"@.map_values(|c: char| c as u8));
    assert(syscall_name(Syscall::TimerGettime) =~= "timer_gettime"@.map_values(|c: char| c as u8));
    assert(syscall_name(Syscall::TimerSettime) =~= "timer_settime"@.map_values(|c: char| c as u8));
    assert(syscall_name(Syscall::Bpf) =~= "bpf"@.map_values(|c: char| c as u8));
    assert(syscall_name(Syscall::Getuid) =~= "getuid"@.map_values(|c: char| c as u8));
    assert(syscall_name(Syscall::Geteuid) =~= "geteuid"@.map_values(|c: char| c as u8));
    assert(syscall_name(Syscall::Getgid) =~= "getgid"@.map_values(|c: char| c as u8));
    assert(syscall_name(Syscall::Getegid) =~= "getegid"@.map_values(|c: char| c as u8));
    assert(syscall_name(Syscall::Setuid) =~= "setuid"@.map_values(|c: char| c as u8));
    assert(syscall_name(Syscall::Setgid) =~= "setgid"@.map_values(|c: char| c as u8));
    assert(syscall_name(Syscall::Setreuid) =~= "setreuid"@.map_values(|c: char| c as u8));
    assert(syscall_name(Syscall::Setregid) =~= "setregid"@.map_values(|c: char| c as u8));
    assert(syscall_name(Syscall::Setresuid) =~= "setresuid"@.map_values(|c: char| c as u8));
    assert(syscall_name(Syscall::Setresgid) =~= "setresgid"@.map_values(|c: char| c as u8));
    assert(syscall_name(Syscall::Getresuid) =~= "getresuid"@.map_values(|c: char| c as u8));
    assert(syscall_name(Syscall::Getresgid) =~= "getresgid"@.map_values(|c: char| c as u8));
    assert(syscall_name(Syscall::Umask) =~= "umask"@.map_values(|c: char| c as u8));
    assert(syscall_name(Syscall::Getgroups) =~= "getgroups"@.map_values(|c: char| c as u8));
    assert(syscall_name(Syscall::Setgroups) =~= "setgroups"@.map_values(|c: char| c as u8));
    assert(syscall_name(Syscall::Uname) =~= "uname"@.map_values(|c: char| c as u8));
    assert(syscall_name(Syscall::Sysinfo) =~= "sysinfo"@.map_values(|c: char| c as u8));
    assert(syscall_name(Syscall::Syslog) =~= "syslog"@.map_values(|c: char| c as u8));
    assert(syscall_name(Syscall::Acct) =~= "acct"@.map_values(|c: char| c as u8));
    assert(syscall_name(Syscall::Getrandom) =~= "getrandom"@.map_values(|c: char| c as u8));
    assert(syscall_name(Syscall::Seccomp) =~= "seccomp"@.map_values(|c: char| c as u8));
    assert(syscall_name(Syscall::RiscvFlushIcache) =~= "riscv_flush_icache"@.map_values(|c: char| c as u8));
    assert(syscall_name(Syscall::Capget) =~= "capget"@.map_values(|c: char| c as u8));
    assert(syscall_name(Syscall::Capset) =~= "capset"@.map_values(|c: char| c as u8));
    assert(syscall_name(Syscall::GetMempolicy) =~= "get_mempolicy"@.map_values(|c: char| c as u8));
    assert(syscall_name(Syscall::Prctl) =~= "prctl"@.map_values(|c: char| c as u8));
    assert(syscall_name(Syscall::ClockAdjtime) =~= "clock_adjtime"@.map_values(|c: char| c as u8));
    assert(syscall_name(Syscall::Adjtimex) =~= "adjtimex"@.map_values(|c: char| c as u8));
    assert(syscall_name(Syscall::ClockGettime) =~= "clock_gettime"@.map_values(|c: char| c as u8));
    assert(syscall_name(Syscall::Gettimeofday) =~= "gettimeofday"@.map_values(|c: char| c as u8));
    assert(syscall_name(Syscall::ClockGetres) =~= "clock_getres"@.map_values(|c: char| c as u8));
    assert(syscall_name(Syscall::Times) =~= "times"@.map_values(|c: char| c as u8));
    assert(syscall_name(Syscall::Getitimer) =~= "getitimer"@.map_values(|c: char| c as u8));
    assert(syscall_name(Syscall::Setitimer) =~= "setitimer"@.map_values(|c: char| c as u8));
}

/// The handled call named `n`, or `Other`.
spec fn syscall_named(n: Seq<u8>) -> Syscall {
    if n == syscall_name(Syscall::Openat) {
        Syscall::Openat
    } else if n == syscall_name(Syscall::Open) {
        Syscall::Open
    } else if n == syscall_name(Syscall::Close) {
        Syscall::Close
    } else if n == syscall_name(Syscall::CloseRange) {
        Syscall::CloseRange
    } else if n == syscall_name(Syscall::Dup) {
        Syscall::Dup
    } else if n == syscall_name(Syscall::Dup2) {
        Syscall::Dup2
    } else if n == syscall_name(Syscall::Dup3) {
        Syscall::Dup3
    } else if n == syscall_name(Syscall::Fcntl) {
        Syscall::Fcntl
    } else if n == syscall_name(Syscall::Flock) {
        Syscall::Flock
    } else if n == syscall_name(Syscall::Mount) {
        Syscall::Mount
    } else if n == syscall_name(Syscall::Umount2) {
        Syscall::Umount2
    } else if n == syscall_name(Syscall::TimerfdCreate) {
        Syscall::TimerfdCreate
    } else if n == syscall_name(Syscall::TimerfdSettime) {
        Syscall::TimerfdSettime
    } else if n == syscall_name(Syscall::TimerfdGettime) {
        Syscall::TimerfdGettime
    } else if n == syscall_name(Syscall::TimerCreate) {
        Syscall::TimerCreate
    } else if n == syscall_name(Syscall::TimerGettime) {
        Syscall::TimerGettime
    } else if n == syscall_name(Syscall::TimerSettime) {
        Syscall::TimerSettime
    } else if n == syscall_name(Syscall::Bpf) {
        Syscall::Bpf
    } else if n == syscall_name(Syscall::Getuid) {
        Syscall::Getuid
    } else if n == syscall_name(Syscall::Geteuid) {
        Syscall::Geteuid
    } else if n == syscall_name(Syscall::Getgid) {
        Syscall::Getgid
    } else if n == syscall_name(Syscall::Getegid) {
        Syscall::Getegid
    } else if n == syscall_name(Syscall::Setuid) {
        Syscall::Setuid
    } else if n == syscall_name(Syscall::Setgid) {
        Syscall::Setgid
    } else if n == syscall_name(Syscall::Setreuid) {
        Syscall::Setreuid
    } else if n == syscall_name(Syscall::Setregid) {
        Syscall::Setregid
    } else if n == syscall_name(Syscall::Setresuid) {
        Syscall::Setresuid
    } else if n == syscall_name(Syscall::Setresgid) {
        Syscall::Setresgid
    } else if n == syscall_name(Syscall::Getresuid) {
        Syscall::Getresuid
    } else if n == syscall_name(Syscall::Getresgid) {
        Syscall::Getresgid
    } else if n == syscall_name(Syscall::Umask) {
        Syscall::Umask
    } else if n == syscall_name(Syscall::Getgroups) {
        Syscall::Getgroups
    } else if n == syscall_name(Syscall::Setgroups) {
        Syscall::Setgroups
    } else if n == syscall_name(Syscall::Uname) {
        Syscall::Uname
    } else if n == syscall_name(Syscall::Sysinfo) {
        Syscall::Sysinfo
    } else if n == syscall_name(Syscall::Syslog) {
        Syscall::Syslog
    } else if n == syscall_name(Syscall::Acct) {
        Syscall::Acct
    } else if n == syscall_name(Syscall::Getrandom) {
        Syscall::Getrandom
    } else if n == syscall_name(Syscall::Seccomp) {
        Syscall::Seccomp
    } else if n == syscall_name(Syscall::RiscvFlushIcache) {
        Syscall::RiscvFlushIcache
    } else if n == syscall_name(Syscall::Capget) {
        Syscall::Capget
    } else if n == syscall_name(Syscall::Capset) {
        Syscall::Capset
    } else if n == syscall_name(Syscall::GetMempolicy) {
        Syscall::GetMempolicy
    } else if n == syscall_name(Syscall::Prctl) {
        Syscall::Prctl
    } else if n == syscall_name(Syscall::ClockAdjtime) {
        Syscall::ClockAdjtime
    } else if n == syscall_name(Syscall::Adjtimex) {
        Syscall::Adjtimex
    } else if n == syscall_name(Syscall::ClockGettime) {
        Syscall::ClockGettime
    } else if n == syscall_name(Syscall::Gettimeofday) {
        Syscall::Gettimeofday
    } else if n == syscall_name(Syscall::ClockGetres) {
        Syscall::ClockGetres
    } else if n == syscall_name(Syscall::Times) {
        Syscall::Times
    } else if n == syscall_name(Syscall::Getitimer) {
        Syscall::Getitimer
    } else if n == syscall_name(Syscall::Setitimer) {
        Syscall::Setitimer
    } else {
        Syscall::Other
    }
}

/// No two handled calls share a name, and no handled call has the empty
/// name of `Other`: so the name that `syscall_of_name` matches determines
/// the call it returns.
pub proof fn law_syscall_names_are_distinct(a: Syscall, b: Syscall)
    requires
        a != b,
    ensures
        syscall_name(a) != syscall_name(b),
{
    lemma_named_inverts_name(a);
    lemma_named_inverts_name(b);
}

proof fn lemma_name_lengths()
    ensures
        syscall_name(Syscall::Openat).len() == 6,
        syscall_name(Syscall::Open).len() == 4,
        syscall_name(Syscall::Close).len() == 5,
        syscall_name(Syscall::CloseRange).len() == 11,
        syscall_name(Syscall::Dup).len() == 3,
        syscall_name(Syscall::Dup2).len() == 4,
        syscall_name(Syscall::Dup3).len() == 4,
        syscall_name(Syscall::Fcntl).len() == 5,
        syscall_name(Syscall::Flock).len() == 5,
        syscall_name(Syscall::Mount).len() == 5,
        syscall_name(Syscall::Umount2).len() == 7,
        syscall_name(Syscall::TimerfdCreate).len() == 14,
        syscall_name(Syscall::TimerfdSettime).len() == 15,
        syscall_name(Syscall::TimerfdGettime).len() == 15,
        syscall_name(Syscall::TimerCreate).len() == 12,
        syscall_name(Syscall::TimerGettime).len() == 13,
        syscall_name(Syscall::TimerSettime).len() == 13,
        syscall_name(Syscall::Bpf).len() == 3,
        syscall_name(Syscall::Getuid).len() == 6,
        syscall_name(Syscall::Geteuid).len() == 7,
        syscall_name(Syscall::Getgid).len() == 6,
        syscall_name(Syscall::Getegid).len() == 7,
        syscall_name(Syscall::Setuid).len() == 6,
        syscall_name(Syscall::Setgid).len() == 6,
        syscall_name(Syscall::Setreuid).len() == 8,
        syscall_name(Syscall::Setregid).len() == 8,
        syscall_name(Syscall::Setresuid).len() == 9,
        syscall_name(Syscall::Setresgid).len() == 9,
        syscall_name(Syscall::Getresuid).len() == 9,
        syscall_name(Syscall::Getresgid).len() == 9,
        syscall_name(Syscall::Umask).len() == 5,
        syscall_name(Syscall::Getgroups).len() == 9,
        syscall_name(Syscall::Setgroups).len() == 9,
        syscall_name(Syscall::Uname).len() == 5,
        syscall_name(Syscall::Sysinfo).len() == 7,
        syscall_name(Syscall::Syslog).len() == 6,
        syscall_name(Syscall::Acct).len() == 4,
        syscall_name(Syscall::Getrandom).len() == 9,
        syscall_name(Syscall::Seccomp).len() == 7,
        syscall_name(Syscall::RiscvFlushIcache).len() == 18,
        syscall_name(Syscall::Capget).len() == 6,
        syscall_name(Syscall::Capset).len() == 6,
        syscall_name(Syscall::GetMempolicy).len() == 13,
        syscall_name(Syscall::Prctl).len() == 5,
        syscall_name(Syscall::ClockAdjtime).len() == 13,
        syscall_name(Syscall::Adjtimex).len() == 8,
        syscall_name(Syscall::ClockGettime).len() == 13,
        syscall_name(Syscall::Gettimeofday).len() == 12,
        syscall_name(Syscall::ClockGetres).len() == 12,
        syscall_name(Syscall::Times).len() == 5,
        syscall_name(Syscall::Getitimer).len() == 9,
        syscall_name(Syscall::Setitimer).len() == 9,
        syscall_name(Syscall::Other).len() == 0,
{
}

#[verifier::rlimit(100)]
proof fn lemma_named_inverts_name(s: Syscall)
    ensures
        syscall_named(syscall_name(s)) == s,
{
    lemma_name_lengths();
    match s {
        Syscall::Openat => {},
        Syscall::Open => {},
        Syscall::Close => {},
        Syscall::CloseRange => {},
        Syscall::Dup => {},
        Syscall::Dup2 => {},
        Syscall::Dup3 => {},
        Syscall::Fcntl => {},
        Syscall::Flock => {},
        Syscall::Mount => {},
        Syscall::Umount2 => {},
        Syscall::TimerfdCreate => {},
        Syscall::TimerfdSettime => {},
        Syscall::TimerfdGettime => {},
        Syscall::TimerCreate => {},
        Syscall::TimerGettime => {},
        Syscall::TimerSettime => {},
        Syscall::Bpf => {},
        Syscall::Getuid => {},
        Syscall::Geteuid => {},
        Syscall::Getgid => {},
        Syscall::Getegid => {},
        Syscall::Setuid => {},
        Syscall::Setgid => {},
        Syscall::Setreuid => {},
        Syscall::Setregid => {},
        Syscall::Setresuid => {},
        Syscall::Setresgid => {},
        Syscall::Getresuid => {},
        Syscall::Getresgid => {},
        Syscall::Umask => {},
        Syscall::Getgroups => {},
        Syscall::Setgroups => {},
        Syscall::Uname => {},
        Syscall::Sysinfo => {},
        Syscall::Syslog => {},
        Syscall::Acct => {},
        Syscall::Getrandom => {},
        Syscall::Seccomp => {},
        Syscall::RiscvFlushIcache => {},
        Syscall::Capget => {},
        Syscall::Capset => {},
        Syscall::GetMempolicy => {},
        Syscall::Prctl => {},
        Syscall::ClockAdjtime => {},
        Syscall::Adjtimex => {},
        Syscall::ClockGettime => {},
        Syscall::Gettimeofday => {},
        Syscall::ClockGetres => {},
        Syscall::Times => {},
        Syscall::Getitimer => {},
        Syscall::Setitimer => {},
        Syscall::Other => {},
    }
}

} // verus!
