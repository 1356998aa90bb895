use starry_syscalls::bpf::{
    BPF_MAP_TYPE_ARRAY, BPF_MAP_TYPE_RINGBUF, BpfCommand, BpfElemAttr, BpfInsn, BpfMapCreateAttr,
    BpfProgLoadAttr, BpfState, LogWrite, ProgLoadOutcome, bpf_command, check_size, program_action,
    referenced_map_fd, reject_prog, should_reject_program, write_log, BpfAction, log_bytes,
    reject_message, REJECT_MESSAGE_LEN,
};
use starry_syscalls::byte_order::{decode_u32, encode_u64, machine_byte_order, ByteOrder};
use starry_syscalls::error::SysError;
use starry_syscalls::fd_ops::{FileKind, OpenFile};
use starry_syscalls::fd_table::FdTable;

struct Env {
    bpf: BpfState,
    table: FdTable,
    files: Vec<OpenFile>,
}

fn env() -> Env {
    Env { bpf: BpfState::new(), table: FdTable::new(16), files: Vec::new() }
}

fn anon() -> OpenFile {
    OpenFile { kind: FileKind::Other { stat_mode: Ok(0o600) }, nonblocking: false }
}

fn create(e: &mut Env, map_type: u32, key_size: u32, value_size: u32, max_entries: u32) -> Result<isize, SysError> {
    let attr = BpfMapCreateAttr { map_type, key_size, value_size, max_entries, map_flags: 0 };
    e.bpf.bpf_map_create(&mut e.table, &mut e.files, anon(), 20, Ok(attr))
}

fn elem(fd: isize) -> BpfElemAttr {
    BpfElemAttr { map_fd: fd as u32, key: 0x1000, value: 0x2000, flags: 0 }
}

fn insn(code: u8, dst_src: u8, imm: i32) -> BpfInsn {
    BpfInsn { code, dst_src, off: 0, imm }
}

fn prog_attr(insn_cnt: u32) -> BpfProgLoadAttr {
    BpfProgLoadAttr { prog_type: 1, insn_cnt, insns: 0x3000, license: 0, log_level: 1, log_size: 100, log_buf: 0x4000 }
}

fn load(e: &mut Env, insns: Vec<BpfInsn>) -> ProgLoadOutcome {
    let n = insns.len() as u32;
    e.bpf.bpf_prog_load(&mut e.table, &mut e.files, anon(), 40, Ok(prog_attr(n)), Ok(insns))
}

fn storing_program(map_fd: isize) -> Vec<BpfInsn> {
    let mut v = vec![insn(0x18, 0x10, map_fd as i32)];
    for _ in 0..6 {
        v.push(insn(0xb7, 0, 0));
    }
    v
}

#[test]
fn commands_are_decoded() {
    assert_eq!(bpf_command(0), Ok(BpfCommand::MapCreate));
    assert_eq!(bpf_command(1), Ok(BpfCommand::MapLookupElem));
    assert_eq!(bpf_command(2), Ok(BpfCommand::MapUpdateElem));
    assert_eq!(bpf_command(5), Ok(BpfCommand::ProgLoad));
    assert_eq!(bpf_command(3), Err(SysError::InvalidInput));
    assert_eq!(check_size(19, 20), Err(SysError::InvalidInput));
    assert_eq!(check_size(64, 20), Ok(()));
}

#[test]
fn new_array_map_reads_zeros() {
    let mut e = env();
    let fd = create(&mut e, BPF_MAP_TYPE_ARRAY, 4, 8, 4).unwrap();
    assert_eq!(fd, 0);
    assert_eq!(e.bpf.map_layout(fd as u32), Some((4, 8, BPF_MAP_TYPE_ARRAY)));
    assert_eq!(e.bpf.bpf_map_lookup(32, Ok(elem(fd)), Ok(3), Err(SysError::NotFound)), Ok(vec![0u8; 8]));
    assert_eq!(e.bpf.bpf_map_lookup(32, Ok(elem(fd)), Ok(4), Err(SysError::NotFound)), Err(SysError::InvalidInput));
}

#[test]
fn array_update_then_lookup() {
    let mut e = env();
    let fd = create(&mut e, BPF_MAP_TYPE_ARRAY, 4, 4, 2).unwrap();
    assert_eq!(e.bpf.bpf_map_update(32, Ok(elem(fd)), Ok(1), Err(SysError::NotFound), Ok(vec![1, 2, 3, 4])), Ok(0));
    assert_eq!(e.bpf.bpf_map_lookup(32, Ok(elem(fd)), Ok(1), Err(SysError::NotFound)), Ok(vec![1, 2, 3, 4]));
    assert_eq!(e.bpf.bpf_map_lookup(32, Ok(elem(fd)), Ok(0), Err(SysError::NotFound)), Ok(vec![0, 0, 0, 0]));
    assert_eq!(
        e.bpf.bpf_map_update(32, Ok(elem(fd)), Ok(2), Err(SysError::NotFound), Ok(vec![1, 2, 3, 4])),
        Err(SysError::InvalidInput)
    );
}

#[test]
fn hash_map_update_lookup_and_capacity() {
    let mut e = env();
    let fd = create(&mut e, 1, 2, 3, 2).unwrap();
    let upd = |e: &mut Env, k: Vec<u8>, v: Vec<u8>| e.bpf.bpf_map_update(32, Ok(elem(fd)), Err(SysError::NotFound), Ok(k), Ok(v));
    assert_eq!(upd(&mut e, vec![1, 1], vec![9, 9, 9]), Ok(0));
    assert_eq!(upd(&mut e, vec![2, 2], vec![8, 8, 8]), Ok(0));
    assert_eq!(upd(&mut e, vec![1, 1], vec![7, 7, 7]), Ok(0));
    assert_eq!(upd(&mut e, vec![3, 3], vec![6, 6, 6]), Err(SysError::NoMemory));
    let look = |e: &Env, k: Vec<u8>| e.bpf.bpf_map_lookup(32, Ok(elem(fd)), Err(SysError::NotFound), Ok(k));
    assert_eq!(look(&e, vec![1, 1]), Ok(vec![7, 7, 7]));
    assert_eq!(look(&e, vec![2, 2]), Ok(vec![8, 8, 8]));
    assert_eq!(look(&e, vec![3, 3]), Err(SysError::NotFound));
}

#[test]
fn ring_buffer_maps_hold_nothing() {
    let mut e = env();
    let fd = create(&mut e, BPF_MAP_TYPE_RINGBUF, 0, 0, 4096).unwrap();
    assert_eq!(e.bpf.bpf_map_update(32, Ok(elem(fd)), Ok(0), Ok(vec![]), Ok(vec![])), Ok(0));
    assert_eq!(e.bpf.bpf_map_lookup(32, Ok(elem(fd)), Ok(0), Ok(vec![])), Err(SysError::InvalidInput));
}

#[test]
fn bad_requests_are_refused() {
    let mut e = env();
    assert_eq!(create(&mut e, BPF_MAP_TYPE_ARRAY, 4, 4, 0), Err(SysError::InvalidInput));
    let attr = BpfMapCreateAttr { map_type: 2, key_size: 4, value_size: 4, max_entries: 1, map_flags: 0 };
    assert_eq!(e.bpf.bpf_map_create(&mut e.table, &mut e.files, anon(), 19, Ok(attr)), Err(SysError::InvalidInput));
    assert_eq!(e.bpf.bpf_map_create(&mut e.table, &mut e.files, anon(), 20, Err(SysError::NotFound)), Err(SysError::NotFound));
    assert_eq!(e.bpf.bpf_map_lookup(31, Ok(elem(0)), Ok(0), Ok(vec![])), Err(SysError::InvalidInput));
    assert_eq!(e.bpf.bpf_map_lookup(32, Ok(elem(5)), Ok(0), Ok(vec![])), Err(SysError::BadFileDescriptor));
    assert_eq!(e.bpf.bpf_map_update(32, Ok(elem(5)), Ok(0), Ok(vec![]), Ok(vec![])), Err(SysError::BadFileDescriptor));
    assert_eq!(e.files.len(), 0);
}

#[test]
fn map_creation_needs_a_free_descriptor() {
    let mut e = Env { bpf: BpfState::new(), table: FdTable::new(1), files: Vec::new() };
    assert_eq!(create(&mut e, BPF_MAP_TYPE_ARRAY, 4, 4, 1), Ok(0));
    assert_eq!(create(&mut e, BPF_MAP_TYPE_ARRAY, 4, 4, 1), Err(SysError::TooManyOpenFiles));
}

#[test]
fn programs_are_checked_before_loading() {
    let mut e = env();
    let ring = create(&mut e, BPF_MAP_TYPE_RINGBUF, 0, 0, 16).unwrap();
    let big = create(&mut e, BPF_MAP_TYPE_ARRAY, 4, 8, 32).unwrap();
    let rejected = ProgLoadOutcome {
        result: Err(SysError::PermissionDenied),
        log: Some(LogWrite { addr: 0x4000, len: 37, copy_len: 36 }),
    };
    assert_eq!(load(&mut e, storing_program(ring)), rejected);
    assert_eq!(load(&mut e, storing_program(big)), rejected);
    let shifty = vec![insn(0x67, 1, 31), insn(0x74, 1, 31)];
    assert_eq!(load(&mut e, shifty), rejected);
    assert_eq!(load(&mut e, vec![]), rejected);
    assert_eq!(
        e.bpf.bpf_prog_load(&mut e.table, &mut e.files, anon(), 40, Ok(prog_attr(5000)), Err(SysError::NotFound)),
        rejected
    );
    assert_eq!(
        e.bpf.bpf_prog_load(&mut e.table, &mut e.files, anon(), 40, Ok(prog_attr(1)), Err(SysError::NotFound)),
        ProgLoadOutcome { result: Err(SysError::NotFound), log: None }
    );
    assert_eq!(load(&mut e, vec![insn(0x95, 0, 0)]), ProgLoadOutcome { result: Ok(2), log: None });
}

#[test]
fn rejection_log_fits_the_buffer() {
    assert_eq!(write_log(0, 10, 36), None);
    assert_eq!(write_log(0x10, 0, 36), None);
    assert_eq!(write_log(0x10, 10, 36), Some(LogWrite { addr: 0x10, len: 10, copy_len: 9 }));
    assert_eq!(write_log(0x10, 1000, 36), Some(LogWrite { addr: 0x10, len: 37, copy_len: 36 }));
    let attr = BpfProgLoadAttr { log_buf: 0, ..prog_attr(1) };
    assert_eq!(reject_prog(&attr), ProgLoadOutcome { result: Err(SysError::PermissionDenied), log: None });
}

#[test]
fn map_reference_and_action() {
    let mut e = env();
    let fd = create(&mut e, BPF_MAP_TYPE_ARRAY, 4, 8, 8).unwrap();
    let prog = storing_program(fd);
    assert_eq!(referenced_map_fd(&prog), Some(fd as i32));
    assert_eq!(referenced_map_fd(&vec![insn(0x18, 0x20, 4), insn(0x18, 0x10, 9)]), Some(9));
    assert_eq!(referenced_map_fd(&vec![insn(0x95, 0, 0)]), None);
    assert!(!should_reject_program(&e.bpf, &prog, Some(fd as i32)));
    match program_action(&e.bpf, &prog, Some(fd as i32)) {
        BpfAction::StoreU64 { map_fd, values } => {
            assert_eq!(map_fd, fd as i32);
            assert_eq!(values, vec![(0, 1u64 << 32), (1, 0), (2, 1u64 << 32), (3, u32::MAX as u64)]);
        }
        BpfAction::Noop => panic!("expected a storing action"),
    }
    assert!(matches!(program_action(&e.bpf, &prog[..6].to_vec(), Some(fd as i32)), BpfAction::Noop));
    assert!(matches!(program_action(&e.bpf, &prog, None), BpfAction::Noop));
    assert!(matches!(program_action(&e.bpf, &prog, Some(99)), BpfAction::Noop));
}

#[test]
fn socket_filter_stores_into_the_map() {
    let mut e = env();
    let fd = create(&mut e, BPF_MAP_TYPE_ARRAY, 4, 8, 2).unwrap();
    let prog = match load(&mut e, storing_program(fd)).result {
        Ok(p) => p as i32,
        Err(err) => panic!("load failed: {:?}", err),
    };
    assert_eq!(e.bpf.run_bpf_socket_filter(&e.table, prog), Ok(()));
    let look = |e: &Env, i: u32| e.bpf.bpf_map_lookup(32, Ok(elem(fd)), Ok(i), Err(SysError::NotFound)).unwrap();
    assert_eq!(look(&e, 0), ((1u64 << 60) + 1).to_ne_bytes().to_vec());
    assert_eq!(look(&e, 1), ((1u64 << 60) - 1).to_ne_bytes().to_vec());
    assert_eq!(e.bpf.run_bpf_socket_filter(&e.table, 12), Err(SysError::BadFileDescriptor));
    assert_eq!(e.bpf.run_bpf_socket_filter(&e.table, fd as i32), Err(SysError::BadFileDescriptor));
}

#[test]
fn single_slot_program_stores_one() {
    let mut e = env();
    let fd = create(&mut e, BPF_MAP_TYPE_ARRAY, 4, 12, 1).unwrap();
    let prog = load(&mut e, storing_program(fd)).result.unwrap() as i32;
    assert_eq!(e.bpf.run_bpf_socket_filter(&e.table, prog), Ok(()));
    let v = e.bpf.bpf_map_lookup(32, Ok(elem(fd)), Ok(0), Err(SysError::NotFound)).unwrap();
    let mut expected = 1u64.to_ne_bytes().to_vec();
    expected.extend_from_slice(&[0, 0, 0, 0]);
    assert_eq!(v, expected);
}

#[test]
fn array_index_is_read_in_machine_order() {
    let order = BpfState::new().byte_order;
    assert_eq!(starry_syscalls::bpf::read_array_index(7u32.to_ne_bytes(), order), 7);
    assert_eq!(starry_syscalls::bpf::read_array_index(0x0102_0304u32.to_ne_bytes(), order), 0x0102_0304);
    assert_eq!(starry_syscalls::bpf::read_array_index([1, 0, 0, 0], ByteOrder::Little), 1);
    assert_eq!(starry_syscalls::bpf::read_array_index([1, 0, 0, 0], ByteOrder::Big), 1 << 24);
}

#[test]
fn rejection_message_is_laid_out_with_a_closing_nul() {
    let msg = reject_message();
    assert_eq!(msg, b"minux bpf verifier rejected program\n".to_vec());
    assert_eq!(msg.len(), REJECT_MESSAGE_LEN);
    let short = write_log(0x10, 10, REJECT_MESSAGE_LEN).unwrap();
    assert_eq!(log_bytes(&msg, &short), b"minux bpf\0".to_vec());
    let full = write_log(0x10, 1000, REJECT_MESSAGE_LEN).unwrap();
    let mut expected = msg.clone();
    expected.push(0);
    assert_eq!(log_bytes(&msg, &full), expected);
    assert_eq!(log_bytes(&msg, &LogWrite { addr: 0x10, len: 1, copy_len: 0 }), vec![0]);
}

#[test]
fn second_run_of_a_filter_changes_nothing() {
    let mut e = env();
    let fd = create(&mut e, BPF_MAP_TYPE_ARRAY, 4, 8, 8).unwrap();
    let prog = load(&mut e, storing_program(fd)).result.unwrap() as i32;
    assert_eq!(e.bpf.run_bpf_socket_filter(&e.table, prog), Ok(()));
    let look = |e: &Env, i: u32| e.bpf.bpf_map_lookup(32, Ok(elem(fd)), Ok(i), Err(SysError::NotFound)).unwrap();
    let first: Vec<Vec<u8>> = (0..8).map(|i| look(&e, i)).collect();
    assert_eq!(e.bpf.run_bpf_socket_filter(&e.table, prog), Ok(()));
    let second: Vec<Vec<u8>> = (0..8).map(|i| look(&e, i)).collect();
    assert_eq!(first, second);
    assert_eq!(first[3], (u32::MAX as u64).to_ne_bytes().to_vec());
    assert_eq!(first[5], vec![0; 8]);
}

#[test]
fn byte_order_is_the_machine_order() {
    let expected = if 1u64.to_ne_bytes()[0] == 1 { ByteOrder::Little } else { ByteOrder::Big };
    assert_eq!(machine_byte_order(), expected);
    assert_eq!(BpfState::new().byte_order, expected);
    assert_eq!(encode_u64(0x0102_0304_0506_0708, ByteOrder::Little), vec![8, 7, 6, 5, 4, 3, 2, 1]);
    assert_eq!(encode_u64(0x0102_0304_0506_0708, ByteOrder::Big), vec![1, 2, 3, 4, 5, 6, 7, 8]);
    assert_eq!(encode_u64(0x0102_0304_0506_0708, machine_byte_order()), 0x0102_0304_0506_0708u64.to_ne_bytes().to_vec());
    assert_eq!(decode_u32([1, 2, 3, 4], ByteOrder::Little), 0x0403_0201);
    assert_eq!(decode_u32([1, 2, 3, 4], ByteOrder::Big), 0x0102_0304);
}
