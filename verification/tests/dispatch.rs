use starry_syscalls::dispatch::{decode_sysno, route, syscall_of_name, Route, Syscall};
use starry_syscalls::{syscall_return_value, SysError};
use syscalls::Sysno;

#[test]
fn names_decode_to_handled_calls() {
    assert_eq!(syscall_of_name("openat"), Syscall::Openat);
    assert_eq!(syscall_of_name("open"), Syscall::Open);
    assert_eq!(syscall_of_name("dup3"), Syscall::Dup3);
    assert_eq!(syscall_of_name("timer_settime"), Syscall::TimerSettime);
    assert_eq!(syscall_of_name("riscv_flush_icache"), Syscall::RiscvFlushIcache);
    assert_eq!(syscall_of_name("opena"), Syscall::Other);
    assert_eq!(syscall_of_name("read"), Syscall::Other);
    assert_eq!(syscall_of_name(""), Syscall::Other);
}

#[test]
fn numbers_decode_through_the_machine_table() {
    assert_eq!(decode_sysno(Sysno::openat as usize), Some(Syscall::Openat));
    assert_eq!(decode_sysno(Sysno::fcntl as usize), Some(Syscall::Fcntl));
    assert_eq!(decode_sysno(Sysno::bpf as usize), Some(Syscall::Bpf));
    assert_eq!(decode_sysno(Sysno::read as usize), Some(Syscall::Other));
    assert_eq!(decode_sysno(100_000), None);
}

#[test]
fn routing_answers_unknown_and_timer_calls() {
    assert_eq!(route(None), Route::Done(Err(SysError::Unsupported)));
    assert_eq!(route(Some(Syscall::Other)), Route::Done(Err(SysError::Unsupported)));
    assert_eq!(route(Some(Syscall::TimerCreate)), Route::Done(Ok(0)));
    assert_eq!(route(Some(Syscall::TimerGettime)), Route::Done(Ok(0)));
    assert_eq!(route(Some(Syscall::TimerSettime)), Route::Done(Ok(0)));
    assert_eq!(route(Some(Syscall::Close)), Route::Handler(Syscall::Close));
    assert_eq!(route(decode_sysno(100_000)), Route::Done(Err(SysError::Unsupported)));
    assert_eq!(syscall_return_value(Err(SysError::Unsupported)), -38);
}
