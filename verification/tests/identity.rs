use starry_syscalls::byte_order::ByteOrder;
use starry_syscalls::creds::{
    cap_words, pad_str, prctl_name_buffer, sys_capget, sys_capset, sys_get_mempolicy,
    sys_getgroups, sys_getrandom, sys_prctl, sys_seccomp, sys_setgroups, sys_syslog, sys_sysinfo,
    sys_uname, validate_cap_header, write_dummy_acct_record, acct_record_bytes, AcctState, CapData, CapHeader,
    CapHeaderCheck, Creds, MmBounds, PrctlAction, TaskCtl, PR_SET_MM_BRK, PR_SET_MM_END_CODE,
    PR_SET_MM_END_DATA, PR_SET_MM_START_BRK, PR_SET_MM_START_CODE, PR_SET_MM_START_DATA,
    PR_SET_MM_START_STACK, RandomSource, SysinfoFields, CAP1, CAPABILITY_VERSION_1,
    CAPABILITY_VERSION_2, CAPABILITY_VERSION_3, CAP_KILL_MASK, GRND_INSECURE, GRND_NONBLOCK,
    GRND_RANDOM, ID_UNCHANGED, PR_CAPBSET_DROP, PR_CAPBSET_READ, PR_GET_NAME, PR_MCE_KILL,
    PR_SET_MM, PR_SET_NAME, PR_SET_SECCOMP,
};
use starry_syscalls::SysError;

fn creds() -> Creds {
    Creds { uid: 1000, gid: 100, umask: 0o022 }
}

#[test]
fn getters_report_one_id_for_real_and_effective() {
    let c = creds();
    assert_eq!(c.sys_getuid(), Ok(1000));
    assert_eq!(c.sys_geteuid(), Ok(1000));
    assert_eq!(c.sys_getgid(), Ok(100));
    assert_eq!(c.sys_getegid(), Ok(100));
    assert_eq!(c.sys_getresuid(), (1000, 1000, 1000));
    assert_eq!(c.sys_getresgid(), (100, 100, 100));
}

#[test]
fn setuid_and_setgid_replace_the_ids() {
    let mut c = creds();
    assert_eq!(c.sys_setuid(0), Ok(0));
    assert_eq!(c.sys_setgid(5), Ok(0));
    assert_eq!(c, Creds { uid: 0, gid: 5, umask: 0o022 });
}

#[test]
fn setreuid_prefers_the_effective_id() {
    let mut c = creds();
    c.sys_setreuid(1, 2).unwrap();
    assert_eq!(c.uid, 2);
    c.sys_setreuid(3, ID_UNCHANGED).unwrap();
    assert_eq!(c.uid, 3);
    c.sys_setreuid(ID_UNCHANGED, ID_UNCHANGED).unwrap();
    assert_eq!(c.uid, 3);
    c.sys_setregid(ID_UNCHANGED, 9).unwrap();
    assert_eq!(c.gid, 9);
    c.sys_setregid(ID_UNCHANGED, ID_UNCHANGED).unwrap();
    assert_eq!(c.gid, 9);
}

#[test]
fn setresuid_takes_the_first_given_id() {
    let mut c = creds();
    c.sys_setresuid(1, 2, 3).unwrap();
    assert_eq!(c.uid, 2);
    c.sys_setresuid(4, ID_UNCHANGED, 5).unwrap();
    assert_eq!(c.uid, 4);
    c.sys_setresuid(ID_UNCHANGED, ID_UNCHANGED, 6).unwrap();
    assert_eq!(c.uid, 6);
    c.sys_setresuid(ID_UNCHANGED, ID_UNCHANGED, ID_UNCHANGED).unwrap();
    assert_eq!(c.uid, 6);
    c.sys_setresgid(ID_UNCHANGED, ID_UNCHANGED, 7).unwrap();
    assert_eq!(c.gid, 7);
    c.sys_setresgid(8, 9, 10).unwrap();
    assert_eq!(c.gid, 9);
    assert_eq!(c.umask, 0o022);
}

#[test]
fn umask_returns_the_previous_mask() {
    let mut c = creds();
    assert_eq!(c.sys_umask(0o077), Ok(0o022));
    assert_eq!(c.sys_umask(0), Ok(0o077));
    assert_eq!(c.umask, 0);
}

#[test]
fn getgroups_reports_group_zero() {
    assert_eq!(sys_getgroups(0), Err(SysError::InvalidInput));
    assert_eq!(sys_getgroups(1), Ok(vec![0]));
    assert_eq!(sys_getgroups(32), Ok(vec![0]));
}

#[test]
fn ignored_calls_succeed() {
    assert_eq!(sys_setgroups(3), Ok(0));
    assert_eq!(sys_syslog(2, 100), Ok(0));
    assert_eq!(sys_seccomp(1, 0), Ok(0));
    assert_eq!(sys_get_mempolicy(64, 0, 0), Ok(0));
}

#[test]
fn uname_pads_every_field() {
    let u = sys_uname("riscv64");
    assert_eq!(&u.sysname[..6], b"Linux\0");
    assert_eq!(&u.nodename[..7], b"starry\0");
    assert_eq!(&u.release[..7], b"10.0.0\0");
    assert_eq!(&u.version[..7], b"10.0.0\0");
    assert_eq!(&u.machine[..8], b"riscv64\0");
    assert!(u.machine[7..].iter().all(|b| *b == 0));
    assert_eq!(&u.domainname[..37], b"https://github.com/Starry-OS/StarryOS");
    assert_eq!(u.domainname[37], 0);
    let full = "x".repeat(65);
    assert!(pad_str(&full).iter().all(|b| *b == b'x'));
    assert_eq!(pad_str(""), [0u8; 65]);
}

#[test]
fn sysinfo_counts_processes() {
    assert_eq!(sys_sysinfo(3), SysinfoFields { procs: 3, mem_unit: 1 });
    assert_eq!(sys_sysinfo(65_537).procs, 1);
}

#[test]
fn getrandom_picks_the_device() {
    assert_eq!(sys_getrandom(0, GRND_RANDOM), None);
    assert_eq!(sys_getrandom(16, GRND_RANDOM), Some(RandomSource::Random));
    assert_eq!(sys_getrandom(16, GRND_RANDOM | GRND_NONBLOCK), Some(RandomSource::Random));
    assert_eq!(sys_getrandom(16, 0), Some(RandomSource::Urandom));
    assert_eq!(sys_getrandom(16, GRND_INSECURE), Some(RandomSource::Urandom));
}

#[test]
fn capability_versions_have_their_word_counts() {
    assert_eq!(cap_words(CAPABILITY_VERSION_1), Some(1));
    assert_eq!(cap_words(CAPABILITY_VERSION_2), Some(2));
    assert_eq!(cap_words(CAPABILITY_VERSION_3), Some(2));
    assert_eq!(cap_words(0), None);
}

#[test]
fn unknown_cap_version_is_corrected_and_rejected() {
    let header = CapHeader { version: 0x1234, pid: 7 };
    let check = validate_cap_header(header, Ok(()));
    assert_eq!(check.result, Err(SysError::InvalidInput));
    let corrected = check.write_back.unwrap();
    assert_eq!(corrected, CapHeader { version: CAPABILITY_VERSION_3, pid: 7 });
    // Trying again with the version written back is accepted.
    let again = validate_cap_header(corrected, Ok(()));
    assert_eq!(again, CapHeaderCheck { result: Ok((7, 2)), write_back: None });
}

#[test]
fn cap_header_checks_the_pid() {
    let v1 = CAPABILITY_VERSION_1;
    assert_eq!(
        validate_cap_header(CapHeader { version: v1, pid: -1 }, Ok(())).result,
        Err(SysError::InvalidInput)
    );
    assert_eq!(
        validate_cap_header(CapHeader { version: v1, pid: 42 }, Err(SysError::NotFound)).result,
        Err(SysError::NotFound)
    );
    // Pid zero is the caller itself: no lookup is consulted.
    assert_eq!(
        validate_cap_header(CapHeader { version: v1, pid: 0 }, Err(SysError::NotFound)).result,
        Ok((0, 1))
    );
}

#[test]
fn capget_copies_empty_words() {
    let ok = CapHeaderCheck { result: Ok((0, 2)), write_back: None };
    assert_eq!(sys_capget(ok, false), Ok(2));
    assert_eq!(sys_capget(ok, true), Ok(0));
    let bad = CapHeaderCheck { result: Err(SysError::InvalidInput), write_back: None };
    assert_eq!(sys_capget(bad, false), Err(SysError::InvalidInput));
}

#[test]
fn capset_accepts_only_known_permitted_sets() {
    let ok = CapHeaderCheck { result: Ok((0, 2)), write_back: None };
    let data = |e: u32, p: u32, i: u32| Ok(CapData { effective: e, permitted: p, inheritable: i });
    assert_eq!(sys_capset(ok, data(0, 0, 0), 10), Ok(0));
    assert_eq!(sys_capset(ok, data(CAP1, CAP1, 1), 10), Ok(0));
    assert_eq!(sys_capset(ok, data(CAP_KILL_MASK, CAP_KILL_MASK, 0), 10), Ok(0));
    assert_eq!(sys_capset(ok, data(1 << 3, CAP1, 0), 10), Err(SysError::OperationNotPermitted));
    assert_eq!(sys_capset(ok, data(0, CAP1, 1 << 20), 10), Err(SysError::OperationNotPermitted));
    assert_eq!(sys_capset(ok, data(0, 0b11, 0), 10), Err(SysError::OperationNotPermitted));
    assert_eq!(sys_capset(ok, Err(SysError::NotFound), 10), Err(SysError::NotFound));
    let other = CapHeaderCheck { result: Ok((11, 2)), write_back: None };
    assert_eq!(sys_capset(other, data(0, 0, 0), 10), Err(SysError::OperationNotPermitted));
    let me = CapHeaderCheck { result: Ok((10, 2)), write_back: None };
    assert_eq!(sys_capset(me, data(0, 0, 0), 10), Ok(0));
}

fn mm() -> MmBounds {
    MmBounds { start_code: 1, end_code: 2, start_data: 3, end_data: 4, start_stack: 5, start_brk: 6, brk: 7 }
}

fn no_name() -> Result<Vec<u8>, SysError> {
    Err(SysError::BadAddress)
}

#[test]
fn prctl_options() {
    let mut t = TaskCtl::new(b"init".to_vec(), mm());
    assert_eq!(sys_prctl(&mut t, PR_SET_SECCOMP, 2, 0, no_name()), Ok(PrctlAction::Return(0)));
    assert_eq!(t.seccomp_mode, 2);
    assert_eq!(sys_prctl(&mut t, PR_MCE_KILL, 1, 0, no_name()), Ok(PrctlAction::Return(0)));
    assert_eq!(t.mce_kill_policy, 1);
    assert_eq!(sys_prctl(&mut t, PR_CAPBSET_DROP, 5, 0, no_name()), Ok(PrctlAction::Return(0)));
    assert_eq!(sys_prctl(&mut t, PR_CAPBSET_READ, 5, 0, no_name()), Ok(PrctlAction::Return(1)));
    assert_eq!(sys_prctl(&mut t, 9999, 0, 0, no_name()), Err(SysError::InvalidInput));
    assert_eq!(sys_prctl(&mut t, PR_SET_NAME, 0, 0, no_name()), Err(SysError::BadAddress));
    assert_eq!(t.name, b"init".to_vec());
}

#[test]
fn prctl_set_mm_sets_the_named_bound() {
    let mut t = TaskCtl::new(Vec::new(), mm());
    assert_eq!(sys_prctl(&mut t, PR_SET_MM, PR_SET_MM_START_CODE, 0x1000, no_name()), Ok(PrctlAction::Return(0)));
    assert_eq!(sys_prctl(&mut t, PR_SET_MM, PR_SET_MM_END_CODE, 0x2000, no_name()), Ok(PrctlAction::Return(0)));
    assert_eq!(sys_prctl(&mut t, PR_SET_MM, PR_SET_MM_START_DATA, 0x3000, no_name()), Ok(PrctlAction::Return(0)));
    assert_eq!(sys_prctl(&mut t, PR_SET_MM, PR_SET_MM_END_DATA, 0x4000, no_name()), Ok(PrctlAction::Return(0)));
    assert_eq!(sys_prctl(&mut t, PR_SET_MM, PR_SET_MM_START_STACK, 0x5000, no_name()), Ok(PrctlAction::Return(0)));
    assert_eq!(sys_prctl(&mut t, PR_SET_MM, PR_SET_MM_START_BRK, 0x6000, no_name()), Ok(PrctlAction::Return(0)));
    assert_eq!(sys_prctl(&mut t, PR_SET_MM, PR_SET_MM_BRK, 0x7000, no_name()), Ok(PrctlAction::Return(0)));
    assert_eq!(
        t.mm,
        MmBounds {
            start_code: 0x1000,
            end_code: 0x2000,
            start_data: 0x3000,
            end_data: 0x4000,
            start_stack: 0x5000,
            start_brk: 0x6000,
            brk: 0x7000,
        }
    );
    assert_eq!(sys_prctl(&mut t, PR_SET_MM, 13, 0x8000, no_name()), Err(SysError::InvalidInput));
    assert_eq!(t.mm.brk, 0x7000);
}

#[test]
fn prctl_name_reads_back() {
    let mut t = TaskCtl::new(b"init".to_vec(), mm());
    assert_eq!(sys_prctl(&mut t, PR_SET_NAME, 0, 0, Ok(b"worker-thread-number-7".to_vec())), Ok(PrctlAction::Return(0)));
    let mut expected = [0u8; 16];
    expected[..15].copy_from_slice(b"worker-thread-n");
    assert_eq!(sys_prctl(&mut t, PR_GET_NAME, 0, 0, no_name()), Ok(PrctlAction::WriteName(expected)));
    sys_prctl(&mut t, PR_SET_NAME, 0, 0, Ok(b"sh".to_vec())).unwrap();
    let mut short = [0u8; 16];
    short[..2].copy_from_slice(b"sh");
    assert_eq!(sys_prctl(&mut t, PR_GET_NAME, 0, 0, no_name()), Ok(PrctlAction::WriteName(short)));
}

#[test]
fn prctl_name_is_cut_to_fifteen_bytes() {
    let mut expected = [0u8; 16];
    expected[..4].copy_from_slice(b"init");
    assert_eq!(prctl_name_buffer("init"), expected);
    let long = prctl_name_buffer("abcdefghijklmnopqrstuvwxyz");
    assert_eq!(&long[..15], b"abcdefghijklmno");
    assert_eq!(long[15], 0);
}

#[test]
fn acct_record_describes_the_helper() {
    let r = write_dummy_acct_record(0x1_0000_0005, 1000, 100);
    assert_eq!(r.ac_version, 2);
    assert_eq!(r.ac_flag, 0);
    assert_eq!(r.ac_ahz, 100);
    assert_eq!(r.ac_exitcode, 65280);
    assert_eq!(r.ac_btime, 5);
    assert_eq!(r.ac_uid, 1000);
    assert_eq!(r.ac_gid, 100);
    assert_eq!(&r.ac_comm[..13], b"acct02_helper");
    assert_eq!(&r.ac_comm[13..], &[0u8; 4]);
}

#[test]
fn acct_record_bytes_follow_the_acct_v3_layout() {
    let r = write_dummy_acct_record(0x0102_0304, 0x0a0b_0c0d, 100);
    let b = acct_record_bytes(&r, ByteOrder::Little);
    assert_eq!(b.len(), 64);
    assert_eq!(&b[..2], &[0, 2]);
    assert_eq!(&b[8..12], &[4, 3, 2, 1]);
    assert_eq!(&b[30..32], &[100, 0]);
    assert_eq!(&b[32..36], &[0, 0xff, 0, 0]);
    assert_eq!(&b[36..49], b"acct02_helper");
    assert_eq!(&b[56..60], &[0x0d, 0x0c, 0x0b, 0x0a]);
    assert_eq!(&b[60..64], &[100, 0, 0, 0]);
    let big = acct_record_bytes(&r, ByteOrder::Big);
    assert_eq!(&big[8..12], &[1, 2, 3, 4]);
    assert_eq!(&big[30..32], &[0, 100]);
    assert_eq!(&b[36..56], &big[36..56]);
}

#[test]
fn acct_switches_on_and_off() {
    let mut a = AcctState::new();
    assert_eq!(a.sys_acct(None), Ok(None));
    assert_eq!(a.sys_acct(Some(Ok(b"/var/acct".to_vec()))), Ok(None));
    assert_eq!(a.file, Some(b"/var/acct".to_vec()));
    assert_eq!(a.sys_acct(Some(Err(SysError::NotFound))), Err(SysError::NotFound));
    assert_eq!(a.file, Some(b"/var/acct".to_vec()));
    assert_eq!(a.sys_acct(None), Ok(Some(b"/var/acct".to_vec())));
    assert_eq!(a.file, None);
    assert_eq!(a.sys_acct(None), Ok(None));
}

#[test]
fn getters_read_back_what_setters_set() {
    let mut c = creds();
    c.sys_setuid(42).unwrap();
    c.sys_setgid(7).unwrap();
    assert_eq!(c.sys_getuid(), Ok(42));
    assert_eq!(c.sys_geteuid(), Ok(42));
    assert_eq!(c.sys_getgid(), Ok(7));
    assert_eq!(c.sys_getegid(), Ok(7));
    c.sys_umask(0o027).unwrap();
    assert_eq!(c.sys_umask(0o002), Ok(0o027));
}
