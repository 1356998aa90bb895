//! A small `bpf(2)`: array, hash and ring-buffer maps, and programs whose
//! only effect, when run as a socket filter, is to store fixed values into
//! an array map.
use vstd::prelude::*;

use crate::error::SysError;
use crate::fd_ops::{OpenFile, add_to_fd, files_wf};
use crate::fd_table::{FdTable, FileDescriptor, fd_slot, is_first_free, none_free};
use crate::byte_order::{
    ByteOrder, decode_u32, encode_u64, lemma_u64_bytes_len, machine_byte_order, u32_from_bytes, u64_bytes,
};

verus! {

pub const BPF_MAP_CREATE: u32 = 0;
pub const BPF_MAP_LOOKUP_ELEM: u32 = 1;
pub const BPF_MAP_UPDATE_ELEM: u32 = 2;
pub const BPF_PROG_LOAD: u32 = 5;

pub const BPF_MAP_TYPE_ARRAY: u32 = 2;
pub const BPF_MAP_TYPE_RINGBUF: u32 = 27;

pub const BPF_PSEUDO_MAP_FD: u8 = 1;
pub const BPF_LD_IMM_DW: u8 = 0x18;
pub const BPF_ALU64_LSH_K: u8 = 0x67;
pub const BPF_ALU_RSH_K: u8 = 0x74;

/// Size in bytes of the `bpf_attr` layout for `BPF_MAP_CREATE`.
pub const MAP_CREATE_ATTR_SIZE: u32 = 20;
/// Size in bytes of the `bpf_attr` layout for element lookup and update.
pub const ELEM_ATTR_SIZE: u32 = 32;
/// Size in bytes of the `bpf_attr` layout for `BPF_PROG_LOAD`.
pub const PROG_LOAD_ATTR_SIZE: u32 = 40;
/// The most instructions a program may have.
pub const MAX_INSNS: u32 = 4096;

/// The message written to the log buffer of a rejected program.
pub const REJECT_MESSAGE_LEN: usize = 36;

/// The commands of `bpf(2)` that exist here.
#[derive(Clone, Copy, Debug, PartialEq, Eq)]
pub enum BpfCommand {
    MapCreate,
    MapLookupElem,
    MapUpdateElem,
    ProgLoad,
}

/// Decodes the command number of `bpf(2)`; any other command is `EINVAL`.
pub fn bpf_command(cmd: u32) -> (r: Result<BpfCommand, SysError>)
    ensures
        r == if cmd == BPF_MAP_CREATE {
            Ok(BpfCommand::MapCreate)
        } else if cmd == BPF_MAP_LOOKUP_ELEM {
            Ok(BpfCommand::MapLookupElem)
        } else if cmd == BPF_MAP_UPDATE_ELEM {
            Ok(BpfCommand::MapUpdateElem)
        } else if cmd == BPF_PROG_LOAD {
            Ok(BpfCommand::ProgLoad)
        } else {
            Err::<BpfCommand, SysError>(SysError::InvalidInput)
        },
{
    if cmd == BPF_MAP_CREATE {
        Ok(BpfCommand::MapCreate)
    } else if cmd == BPF_MAP_LOOKUP_ELEM {
        Ok(BpfCommand::MapLookupElem)
    } else if cmd == BPF_MAP_UPDATE_ELEM {
        Ok(BpfCommand::MapUpdateElem)
    } else if cmd == BPF_PROG_LOAD {
        Ok(BpfCommand::ProgLoad)
    } else {
        Err(SysError::InvalidInput)
    }
}

#[derive(Clone, Copy, Debug, PartialEq, Eq)]
pub struct BpfMapCreateAttr {
    pub map_type: u32,
    pub key_size: u32,
    pub value_size: u32,
    pub max_entries: u32,
    pub map_flags: u32,
}

#[derive(Clone, Copy, Debug, PartialEq, Eq)]
pub struct BpfElemAttr {
    pub map_fd: u32,
    pub key: u64,
    pub value: u64,
    pub flags: u64,
}

#[derive(Clone, Copy, Debug, PartialEq, Eq)]
pub struct BpfProgLoadAttr {
    pub prog_type: u32,
    pub insn_cnt: u32,
    pub insns: u64,
    pub license: u64,
    pub log_level: u32,
    pub log_size: u32,
    pub log_buf: u64,
}

#[derive(Clone, Copy, Debug, PartialEq, Eq)]
pub struct BpfInsn {
    pub code: u8,
    pub dst_src: u8,
    pub off: i16,
    pub imm: i32,
}

pub struct BpfEntry {
    pub key: Vec<u8>,
    pub value: Vec<u8>,
}

pub struct BpfMap {
    pub fd: i32,
    pub map_type: u32,
    pub key_size: usize,
    pub value_size: usize,
    pub max_entries: u32,
    pub hash_entries: Vec<BpfEntry>,
    pub array_entries: Vec<Vec<u8>>,
}

pub enum BpfAction {
    Noop,
    StoreU64 { map_fd: i32, values: Vec<(u32, u64)> },
}

pub struct BpfProg {
    pub fd: i32,
    pub action: BpfAction,
}

/// Every map and program, in the order they were created, and the
/// machine's byte order, in which programs store their values.
pub struct BpfState {
    pub maps: Vec<BpfMap>,
    pub progs: Vec<BpfProg>,
    pub byte_order: ByteOrder,
}

// ----------------------------------------------------------------------------
// Models
// ----------------------------------------------------------------------------

pub struct MapView {
    pub fd: i32,
    pub map_type: u32,
    pub key_size: usize,
    pub value_size: usize,
    pub max_entries: u32,
    pub hash: Seq<(Seq<u8>, Seq<u8>)>,
    pub array: Seq<Seq<u8>>,
}

pub enum ActionView {
    Noop,
    StoreU64 { map_fd: i32, values: Seq<(u32, u64)> },
}

pub struct ProgView {
    pub fd: i32,
    pub action: ActionView,
}

pub struct BpfStateView {
    pub maps: Seq<MapView>,
    pub progs: Seq<ProgView>,
    pub byte_order: ByteOrder,
}

impl View for BpfMap {
    type V = MapView;

    open spec fn view(&self) -> MapView {
        MapView {
            fd: self.fd,
            map_type: self.map_type,
            key_size: self.key_size,
            value_size: self.value_size,
            max_entries: self.max_entries,
            hash: self.hash_entries@.map_values(|e: BpfEntry| (e.key@, e.value@)),
            array: self.array_entries@.map_values(|v: Vec<u8>| v@),
        }
    }
}

impl View for BpfAction {
    type V = ActionView;

    open spec fn view(&self) -> ActionView {
        match self {
            BpfAction::Noop => ActionView::Noop,
            BpfAction::StoreU64 { map_fd, values } => ActionView::StoreU64 { map_fd: *map_fd, values: values@ },
        }
    }
}

impl View for BpfProg {
    type V = ProgView;

    open spec fn view(&self) -> ProgView {
        ProgView { fd: self.fd, action: self.action@ }
    }
}

impl View for BpfState {
    type V = BpfStateView;

    open spec fn view(&self) -> BpfStateView {
        BpfStateView {
            maps: view_maps(self.maps@),
            progs: view_progs(self.progs@),
            byte_order: self.byte_order,
        }
    }
}

pub open spec fn view_maps(maps: Seq<BpfMap>) -> Seq<MapView> {
    maps.map_values(|m: BpfMap| m@)
}

pub open spec fn view_progs(progs: Seq<BpfProg>) -> Seq<ProgView> {
    progs.map_values(|p: BpfProg| p@)
}

pub open spec fn map_fds(maps: Seq<MapView>) -> Seq<i32> {
    maps.map_values(|m: MapView| m.fd)
}

pub open spec fn prog_fds(progs: Seq<ProgView>) -> Seq<i32> {
    progs.map_values(|p: ProgView| p.fd)
}

/// The position of the last `fd` in `fds`, or -1.
pub open spec fn last_with_fd(fds: Seq<i32>, fd: i32) -> int
    decreases fds.len(),
{
    if fds.len() == 0 {
        -1
    } else if fds.last() == fd {
        fds.len() - 1
    } else {
        last_with_fd(fds.drop_last(), fd)
    }
}

/// The position of the first entry with key `key`, or -1.
pub open spec fn first_with_key(entries: Seq<(Seq<u8>, Seq<u8>)>, key: Seq<u8>) -> int
    decreases entries.len(),
{
    if entries.len() == 0 {
        -1
    } else if entries[0].0 == key {
        0
    } else {
        let r = first_with_key(entries.drop_first(), key);
        if r < 0 {
            -1
        } else {
            r + 1
        }
    }
}

proof fn lemma_last_with_fd_range(fds: Seq<i32>, fd: i32)
    ensures
        -1 <= last_with_fd(fds, fd) < fds.len(),
        last_with_fd(fds, fd) >= 0 ==> fds[last_with_fd(fds, fd)] == fd,
        forall|j: int| last_with_fd(fds, fd) < j < fds.len() ==> #[trigger] fds[j] != fd,
    decreases fds.len(),
{
    if fds.len() > 0 && fds.last() != fd {
        let rest = fds.drop_last();
        lemma_last_with_fd_range(rest, fd);
        assert forall|j: int| last_with_fd(fds, fd) < j < fds.len() implies #[trigger] fds[j] != fd by {
            if j < fds.len() - 1 {
                assert(fds[j] == rest[j]);
            }
        }
    }
}

proof fn lemma_first_with_key_range(entries: Seq<(Seq<u8>, Seq<u8>)>, key: Seq<u8>)
    ensures
        -1 <= first_with_key(entries, key) < entries.len(),
        first_with_key(entries, key) >= 0 ==> entries[first_with_key(entries, key)].0 == key,
        forall|j: int|
            0 <= j < entries.len() && (first_with_key(entries, key) < 0 || j < first_with_key(entries, key))
                ==> #[trigger] entries[j].0 != key,
    decreases entries.len(),
{
    if entries.len() > 0 && entries[0].0 != key {
        let rest = entries.drop_first();
        lemma_first_with_key_range(rest, key);
        assert forall|j: int|
            0 <= j < entries.len() && (first_with_key(entries, key) < 0 || j < first_with_key(entries, key))
                implies #[trigger] entries[j].0 != key by {
            if j > 0 {
                assert(entries[j] == rest[j - 1]);
            }
        }
    }
}

// ----------------------------------------------------------------------------
// Searches
// ----------------------------------------------------------------------------

/// The most recently created map with descriptor `fd`.
fn find_map(maps: &Vec<BpfMap>, fd: i32) -> (r: Option<usize>)
    ensures
        ({
            let k = last_with_fd(map_fds(view_maps(maps@)), fd);
            match r {
                Some(i) => i as int == k,
                None => k < 0,
            }
        }),
        r matches Some(k) ==> k < maps@.len() && maps@[k as int].fd == fd,
{
    let ghost fds = map_fds(view_maps(maps@));
    proof {
        assert(fds.take(fds.len() as int) =~= fds);
        lemma_last_with_fd_range(fds, fd);
    }
    let mut i = maps.len();
    while i > 0
        invariant
            i <= maps@.len(),
            fds.len() == maps@.len(),
            fds == map_fds(view_maps(maps@)),
            last_with_fd(fds, fd) == last_with_fd(fds.take(i as int), fd),
        decreases i,
    {
        proof {
            assert(fds.take(i as int).last() == maps@[i - 1].fd);
        }
        if maps[i - 1].fd == fd {
            return Some(i - 1);
        }
        proof {
            assert(fds.take(i as int).drop_last() =~= fds.take(i - 1));
        }
        i -= 1;
    }
    None
}

/// The most recently loaded program with descriptor `fd`.
fn find_prog(progs: &Vec<BpfProg>, fd: i32) -> (r: Option<usize>)
    ensures
        ({
            let k = last_with_fd(prog_fds(view_progs(progs@)), fd);
            match r {
                Some(i) => i as int == k,
                None => k < 0,
            }
        }),
        r matches Some(k) ==> k < progs@.len() && progs@[k as int].fd == fd,
{
    let ghost fds = prog_fds(view_progs(progs@));
    proof {
        assert(fds.take(fds.len() as int) =~= fds);
        lemma_last_with_fd_range(fds, fd);
    }
    let mut i = progs.len();
    while i > 0
        invariant
            i <= progs@.len(),
            fds.len() == progs@.len(),
            fds == prog_fds(view_progs(progs@)),
            last_with_fd(fds, fd) == last_with_fd(fds.take(i as int), fd),
        decreases i,
    {
        proof {
            assert(fds.take(i as int).last() == progs@[i - 1].fd);
        }
        if progs[i - 1].fd == fd {
            return Some(i - 1);
        }
        proof {
            assert(fds.take(i as int).drop_last() =~= fds.take(i - 1));
        }
        i -= 1;
    }
    None
}

/// Whether two byte strings are equal.
fn bytes_eq(a: &Vec<u8>, b: &Vec<u8>) -> (r: bool)
    ensures
        r == (a@ == b@),
{
    if a.len() != b.len() {
        return false;
    }
    let mut i: usize = 0;
    while i < a.len()
        invariant
            a@.len() == b@.len(),
            i <= a@.len(),
            forall|j: int| 0 <= j < i ==> a@[j] == b@[j],
        decreases a@.len() - i,
    {
        if a[i] != b[i] {
            return false;
        }
        i += 1;
    }
    proof {
        assert(a@ =~= b@);
    }
    true
}

/// The first entry whose key is `key`.
fn find_entry(entries: &Vec<BpfEntry>, key: &Vec<u8>) -> (r: Option<usize>)
    ensures
        ({
            let k = first_with_key(entries@.map_values(|e: BpfEntry| (e.key@, e.value@)), key@);
            match r {
                Some(i) => i as int == k,
                None => k < 0,
            }
        }),
{
    let ghost es = entries@.map_values(|e: BpfEntry| (e.key@, e.value@));
    proof {
        lemma_first_with_key_range(es, key@);
    }
    let mut i: usize = 0;
    while i < entries.len()
        invariant
            i <= entries@.len(),
            es.len() == entries@.len(),
            es == entries@.map_values(|e: BpfEntry| (e.key@, e.value@)),
            forall|j: int| 0 <= j < i ==> #[trigger] es[j].0 != key@,
            -1 <= first_with_key(es, key@) < es.len(),
            first_with_key(es, key@) >= 0 ==> es[first_with_key(es, key@)].0 == key@,
            forall|j: int|
                0 <= j < es.len() && (first_with_key(es, key@) < 0 || j < first_with_key(es, key@))
                    ==> #[trigger] es[j].0 != key@,
        decreases entries@.len() - i,
    {
        proof {
            assert(es[i as int].0 == entries@[i as int].key@);
        }
        if bytes_eq(&entries[i].key, key) {
            return Some(i);
        }
        i += 1;
    }
    None
}

// ----------------------------------------------------------------------------
// Commands
// ----------------------------------------------------------------------------

/// The index of an array map element, from the four key bytes of the
/// request, read in byte order `order` (the state's, which is the machine's).
pub fn read_array_index(key: [u8; 4], order: ByteOrder) -> (r: u32)
    ensures
        r == u32_from_bytes(key@, order),
{
    decode_u32(key, order)
}

/// Whether an attribute block of `size` bytes is large enough for one of
/// `needed` bytes.
pub fn check_size(size: u32, needed: u32) -> (r: Result<(), SysError>)
    ensures
        r == if size >= needed {
            Ok(())
        } else {
            Err::<(), SysError>(SysError::InvalidInput)
        },
{
    if size >= needed {
        Ok(())
    } else {
        Err(SysError::InvalidInput)
    }
}

/// The model of a freshly created map.
pub open spec fn new_map_view(fd: i32, attr: BpfMapCreateAttr) -> MapView {
    MapView {
        fd,
        map_type: attr.map_type,
        key_size: attr.key_size as usize,
        value_size: attr.value_size as usize,
        max_entries: attr.max_entries,
        hash: Seq::empty(),
        array: if attr.map_type == BPF_MAP_TYPE_ARRAY {
            Seq::new(attr.max_entries as nat, |i: int| Seq::new(attr.value_size as nat, |j: int| 0u8))
        } else {
            Seq::empty()
        },
    }
}

fn zeroed_bytes(n: usize) -> (r: Vec<u8>)
    ensures
        r@ == Seq::new(n as nat, |j: int| 0u8),
{
    let mut v: Vec<u8> = Vec::new();
    let mut i: usize = 0;
    while i < n
        invariant
            i <= n,
            v@ == Seq::new(i as nat, |j: int| 0u8),
        decreases n - i,
    {
        v.push(0);
        i += 1;
        proof {
            assert(v@ =~= Seq::new(i as nat, |j: int| 0u8));
        }
    }
    v
}

proof fn lemma_filter_keeps_maps_wf(maps: Seq<MapView>, fd: i32)
    requires
        maps_wf(maps),
    ensures
        maps_wf(maps.filter(|m: MapView| m.fd != fd)),
{
    let f = |m: MapView| m.fd != fd;
    let r = maps.filter(f);
    assert forall|k: int| 0 <= k < r.len() && r[k].map_type == BPF_MAP_TYPE_ARRAY implies #[trigger] r[k].array.len()
        == r[k].max_entries by {
        maps.lemma_filter_contains_rev(f, r[k]);
        assert(r.contains(r[k]));
        let j = choose|j: int| 0 <= j < maps.len() && maps[j] == r[k];
        assert(maps[j].array.len() == maps[j].max_entries);
    }
    assert forall|k: int, i: int|
        0 <= k < r.len() && r[k].map_type == BPF_MAP_TYPE_ARRAY && 0 <= i < r[k].array.len() implies #[trigger] r[k].array[i].len()
            == r[k].value_size by {
        maps.lemma_filter_contains_rev(f, r[k]);
        assert(r.contains(r[k]));
        let j = choose|j: int| 0 <= j < maps.len() && maps[j] == r[k];
        assert(maps[j].array[i].len() == maps[j].value_size);
    }
}

impl BpfState {
    /// No maps and no programs, with the machine's byte order (which of the
    /// two it is depends on the machine).
    pub fn new() -> (r: Self)
        ensures
            r.wf(),
            r@.maps == Seq::<MapView>::empty(),
            r@.progs == Seq::<ProgView>::empty(),
    {
        let r = BpfState { maps: Vec::new(), progs: Vec::new(), byte_order: machine_byte_order() };
        proof {
            assert(r@.maps =~= Seq::<MapView>::empty());
            assert(r@.progs =~= Seq::<ProgView>::empty());
        }
        r
    }

    /// The key and value sizes and the type of the map that `map_fd`
    /// designates, which say how many bytes of user memory a lookup or an
    /// update reads.
    pub fn map_layout(&self, map_fd: u32) -> (r: Option<(usize, usize, u32)>)
        ensures
            ({
                let k = last_with_fd(map_fds(self@.maps), map_fd as i32);
                r == if k >= 0 {
                    Some((self@.maps[k].key_size, self@.maps[k].value_size, self@.maps[k].map_type))
                } else {
                    None::<(usize, usize, u32)>
                }
            }),
    {
        let fd = map_fd as i32;
        proof {
            assert(fd == map_fd as i32);
            lemma_last_with_fd_range(map_fds(self@.maps), fd);
        }
        match find_map(&self.maps, fd) {
            Some(k) => {
                proof {
                    assert(self@.maps[k as int] == self.maps@[k as int]@);
                }
                Some((self.maps[k].key_size, self.maps[k].value_size, self.maps[k].map_type))
            },
            None => None,
        }
    }

    /// `BPF_MAP_CREATE`: checks the request, takes a descriptor for the new map
    /// (an open file `bpf_file`), drops any older map recorded under that
    /// descriptor, and records the map.
    pub fn bpf_map_create(
        &mut self,
        table: &mut FdTable,
        files: &mut Vec<OpenFile>,
        bpf_file: OpenFile,
        size: u32,
        attr: Result<BpfMapCreateAttr, SysError>,
    ) -> (r: Result<isize, SysError>)
        requires
            old(self).wf(),
            old(table).wf(),
            files_wf(old(table)@, old(files)@),
        ensures
            final(self).wf(),
            final(table).wf(),
            files_wf(final(table)@, final(files)@),
            if size < MAP_CREATE_ATTR_SIZE {
                r == Err::<isize, SysError>(SysError::InvalidInput) && final(self)@ == old(self)@
                    && final(table)@ == old(table)@ && final(files)@ == old(files)@
            } else {
                match attr {
                    Err(e) => r == Err::<isize, SysError>(e) && final(self)@ == old(self)@ && final(table)@
                        == old(table)@ && final(files)@ == old(files)@,
                    Ok(a) => if a.max_entries == 0 {
                        r == Err::<isize, SysError>(SysError::InvalidInput) && final(self)@ == old(self)@
                            && final(table)@ == old(table)@ && final(files)@ == old(files)@
                    } else {
                        match r {
                            Ok(fd) => {
                                &&& final(files)@ == old(files)@.push(bpf_file)
                                &&& is_first_free(old(table)@, 0, old(table)@.len() as int, fd as int)
                                &&& final(table)@ == old(table)@.update(
                                    fd as int,
                                    Some(FileDescriptor { file: old(files)@.len() as usize, cloexec: false }),
                                )
                                &&& final(self)@.progs == old(self)@.progs
                                &&& final(self)@.maps == old(self)@.maps.filter(
                                    |m: MapView| m.fd != fd as i32,
                                ).push(new_map_view(fd as i32, a))
                            },
                            Err(e) => e == SysError::TooManyOpenFiles && none_free(
                                old(table)@,
                                0,
                                old(table)@.len() as int,
                            ) && final(table)@ == old(table)@ && final(self)@ == old(self)@ && final(files)@
                                == old(files)@,
                        }
                    },
                }
            },
    {
        if let Err(e) = check_size(size, MAP_CREATE_ATTR_SIZE) {
            return Err(e);
        }
        let a = match attr {
            Ok(a) => a,
            Err(e) => return Err(e),
        };
        if a.max_entries == 0 {
            return Err(SysError::InvalidInput);
        }
        proof {
            assert(0u32 & 0o4000u32 == 0) by (bit_vector);
            assert(0u32 & 0o2000000u32 == 0) by (bit_vector);
        }
        let fd = match add_to_fd(table, files, bpf_file, 0) {
            Ok(fd) => fd,
            Err(e) => {
                return Err(e);
            },
        };
        proof {
            assert(files@ =~= old(files)@.push(bpf_file));
        }
        let value_size = a.value_size as usize;
        let mut array_entries: Vec<Vec<u8>> = Vec::new();
        if a.map_type == BPF_MAP_TYPE_ARRAY {
            let mut i: u32 = 0;
            while i < a.max_entries
                invariant
                    i <= a.max_entries,
                    value_size == a.value_size as usize,
                    array_entries@.map_values(|v: Vec<u8>| v@) == Seq::new(
                        i as nat,
                        |k: int| Seq::new(a.value_size as nat, |j: int| 0u8),
                    ),
                decreases a.max_entries - i,
            {
                let z = zeroed_bytes(value_size);
                let ghost prev = array_entries@;
                array_entries.push(z);
                i += 1;
                proof {
                    assert(array_entries@.map_values(|v: Vec<u8>| v@) =~= prev.map_values(|v: Vec<u8>| v@).push(
                        z@,
                    ));
                    assert(array_entries@.map_values(|v: Vec<u8>| v@) =~= Seq::new(
                        i as nat,
                        |k: int| Seq::new(a.value_size as nat, |j: int| 0u8),
                    ));
                }
            }
        }
        let map = BpfMap {
            fd,
            map_type: a.map_type,
            key_size: a.key_size as usize,
            value_size,
            max_entries: a.max_entries,
            hash_entries: Vec::new(),
            array_entries,
        };
        proof {
            assert(map@.hash =~= Seq::<(Seq<u8>, Seq<u8>)>::empty());
            if a.map_type != BPF_MAP_TYPE_ARRAY {
                assert(map@.array =~= Seq::<Seq<u8>>::empty());
            }
            assert(map@ == new_map_view(fd, a));
        }
        self.retain_maps_without_fd(fd);
        proof {
            lemma_filter_keeps_maps_wf(old(self)@.maps, fd);
        }
        let ghost kept = self@.maps;
        self.maps.push(map);
        proof {
            assert(self@.maps =~= old(self)@.maps.filter(|m: MapView| m.fd != fd).push(new_map_view(fd, a)));
            assert forall|kk: int, ii: int|
                0 <= kk < self@.maps.len() && self@.maps[kk].map_type == BPF_MAP_TYPE_ARRAY && 0 <= ii
                    < self@.maps[kk].array.len() implies #[trigger] self@.maps[kk].array[ii].len()
                == self@.maps[kk].value_size by {
                if kk < kept.len() {
                    assert(self@.maps[kk] == kept[kk]);
                }
            }
        }
        Ok(fd as isize)
    }

    /// Drops every map recorded under descriptor `fd`.
    fn retain_maps_without_fd(&mut self, fd: i32)
        ensures
            final(self)@.maps == old(self)@.maps.filter(|m: MapView| m.fd != fd),
            final(self)@.progs == old(self)@.progs,
    {
        let ghost pred = |m: MapView| m.fd != fd;
        let mut rest: Vec<BpfMap> = Vec::new();
        std::mem::swap(&mut rest, &mut self.maps);
        let ghost all = view_maps(rest@);
        let mut kept: Vec<BpfMap> = Vec::new();
        let mut i: usize = 0;
        let n = rest.len();
        while i < n
            invariant
                n == all.len(),
                i <= n,
                rest@.len() == n - i,
                forall|j: int| 0 <= j < rest@.len() ==> #[trigger] rest@[j]@ == all[i + j],
                view_maps(kept@) == all.take(i as int).filter(pred),
                self@.progs == old(self)@.progs,
                all == old(self)@.maps,
                pred == (|m: MapView| m.fd != fd),
            decreases n - i,
        {
            let ghost prev = rest@;
            proof {
                assert(prev[0]@ == all[i + 0]);
            }
            let m = rest.remove(0);
            proof {
                assert(m@ == all[i as int]);
                assert(all.take(i + 1) =~= all.take(i as int).push(all[i as int]));
                all.take(i as int).lemma_filter_push(all[i as int], pred);
                assert forall|j: int| 0 <= j < rest@.len() implies #[trigger] rest@[j]@ == all[i + 1 + j] by {
                    assert(rest@[j] == prev[j + 1]);
                    assert(prev[j + 1]@ == all[i + (j + 1)]);
                }
            }
            let ghost before = kept@;
            if m.fd != fd {
                kept.push(m);
                proof {
                    assert(view_maps(kept@) =~= view_maps(before).push(all[i as int]));
                }
            }
            i += 1;
        }
        proof {
            assert(all.take(n as int) =~= all);
        }
        self.maps = kept;
    }
}


// ----------------------------------------------------------------------------
// Lookup and update
// ----------------------------------------------------------------------------

pub open spec fn bytes_of(r: Result<Vec<u8>, SysError>) -> Result<Seq<u8>, SysError> {
    match r {
        Ok(v) => Ok(v@),
        Err(e) => Err(e),
    }
}

/// What `BPF_MAP_LOOKUP_ELEM` answers: the value to copy to user memory.
/// `index` is the array index read at the key address and `key` the
/// `key_size` bytes read there.
pub open spec fn lookup_outcome(
    maps: Seq<MapView>,
    size: u32,
    attr: Result<BpfElemAttr, SysError>,
    index: Result<u32, SysError>,
    key: Result<Seq<u8>, SysError>,
) -> Result<Seq<u8>, SysError> {
    if size < ELEM_ATTR_SIZE {
        Err(SysError::InvalidInput)
    } else {
        match attr {
            Err(e) => Err(e),
            Ok(a) => {
                let k = last_with_fd(map_fds(maps), a.map_fd as i32);
                if k < 0 {
                    Err(SysError::BadFileDescriptor)
                } else {
                    let m = maps[k];
                    if m.map_type == BPF_MAP_TYPE_ARRAY {
                        match index {
                            Err(e) => Err(e),
                            Ok(i) => if i < m.array.len() {
                                Ok(m.array[i as int])
                            } else {
                                Err(SysError::InvalidInput)
                            },
                        }
                    } else if m.map_type == BPF_MAP_TYPE_RINGBUF {
                        Err(SysError::InvalidInput)
                    } else {
                        match key {
                            Err(e) => Err(e),
                            Ok(kb) => {
                                let j = first_with_key(m.hash, kb);
                                if j < 0 {
                                    Err(SysError::NotFound)
                                } else {
                                    Ok(m.hash[j].1)
                                }
                            },
                        }
                    }
                }
            },
        }
    }
}

/// What `BPF_MAP_UPDATE_ELEM` returns, and the maps it leaves.
pub open spec fn update_outcome(
    maps: Seq<MapView>,
    size: u32,
    attr: Result<BpfElemAttr, SysError>,
    index: Result<u32, SysError>,
    key: Result<Seq<u8>, SysError>,
    value: Result<Seq<u8>, SysError>,
) -> (Result<isize, SysError>, Seq<MapView>) {
    if size < ELEM_ATTR_SIZE {
        (Err(SysError::InvalidInput), maps)
    } else {
        match attr {
            Err(e) => (Err(e), maps),
            Ok(a) => {
                let k = last_with_fd(map_fds(maps), a.map_fd as i32);
                if k < 0 {
                    (Err(SysError::BadFileDescriptor), maps)
                } else {
                    let m = maps[k];
                    match value {
                        Err(e) => (Err(e), maps),
                        Ok(v) => if m.map_type == BPF_MAP_TYPE_ARRAY {
                            match index {
                                Err(e) => (Err(e), maps),
                                Ok(i) => if i < m.array.len() {
                                    (Ok(0), maps.update(k, MapView { array: m.array.update(i as int, v), ..m }))
                                } else {
                                    (Err(SysError::InvalidInput), maps)
                                },
                            }
                        } else if m.map_type == BPF_MAP_TYPE_RINGBUF {
                            (Ok(0), maps)
                        } else {
                            match key {
                                Err(e) => (Err(e), maps),
                                Ok(kb) => {
                                    let j = first_with_key(m.hash, kb);
                                    if j >= 0 {
                                        (
                                            Ok(0),
                                            maps.update(
                                                k,
                                                MapView { hash: m.hash.update(j, (m.hash[j].0, v)), ..m },
                                            ),
                                        )
                                    } else if m.hash.len() >= m.max_entries {
                                        (Err(SysError::NoMemory), maps)
                                    } else {
                                        (Ok(0), maps.update(k, MapView { hash: m.hash.push((kb, v)), ..m }))
                                    }
                                },
                            }
                        },
                    }
                }
            },
        }
    }
}

/// Every array map has `max_entries` slots, each of `value_size` bytes.
pub open spec fn maps_wf(maps: Seq<MapView>) -> bool {
    &&& forall|k: int|
        0 <= k < maps.len() && maps[k].map_type == BPF_MAP_TYPE_ARRAY ==> #[trigger] maps[k].array.len()
            == maps[k].max_entries
    &&& forall|k: int, i: int|
        0 <= k < maps.len() && maps[k].map_type == BPF_MAP_TYPE_ARRAY && 0 <= i < maps[k].array.len()
            ==> #[trigger] maps[k].array[i].len() == maps[k].value_size
}

fn copy_bytes(v: &Vec<u8>) -> (r: Vec<u8>)
    ensures
        r@ == v@,
{
    let mut r: Vec<u8> = Vec::new();
    let mut i: usize = 0;
    while i < v.len()
        invariant
            i <= v@.len(),
            r@ == v@.take(i as int),
        decreases v@.len() - i,
    {
        r.push(v[i]);
        i += 1;
        proof {
            assert(r@ =~= v@.take(i as int));
        }
    }
    proof {
        assert(v@.take(v@.len() as int) =~= v@);
    }
    r
}

impl BpfState {
    pub open spec fn wf(&self) -> bool {
        maps_wf(self@.maps)
    }

    /// `BPF_MAP_LOOKUP_ELEM`: the value stored under the key, which the caller
    /// copies to the value address of the request.
    pub fn bpf_map_lookup(
        &self,
        size: u32,
        attr: Result<BpfElemAttr, SysError>,
        index: Result<u32, SysError>,
        key: Result<Vec<u8>, SysError>,
    ) -> (r: Result<Vec<u8>, SysError>)
        ensures
            bytes_of(r) == lookup_outcome(self@.maps, size, attr, index, bytes_of(key)),
    {
        if let Err(e) = check_size(size, ELEM_ATTR_SIZE) {
            return Err(e);
        }
        let a = match attr {
            Ok(a) => a,
            Err(e) => return Err(e),
        };
        proof {
            lemma_last_with_fd_range(map_fds(self@.maps), a.map_fd as i32);
        }
        let k = match find_map(&self.maps, a.map_fd as i32) {
            Some(k) => k,
            None => return Err(SysError::BadFileDescriptor),
        };
        let map = &self.maps[k];
        proof {
            assert(self@.maps[k as int] == map@);
        }
        if map.map_type == BPF_MAP_TYPE_ARRAY {
            let i = match index {
                Ok(i) => i,
                Err(e) => return Err(e),
            };
            if (i as usize) < map.array_entries.len() {
                proof {
                    assert(map@.array[i as int] == map.array_entries@[i as int]@);
                }
                Ok(copy_bytes(&map.array_entries[i as usize]))
            } else {
                Err(SysError::InvalidInput)
            }
        } else if map.map_type == BPF_MAP_TYPE_RINGBUF {
            Err(SysError::InvalidInput)
        } else {
            let kb = match key {
                Ok(kb) => kb,
                Err(e) => return Err(e),
            };
            proof {
                lemma_first_with_key_range(map@.hash, kb@);
            }
            match find_entry(&map.hash_entries, &kb) {
                Some(j) => {
                    proof {
                        assert(map@.hash[j as int] == (
                            map.hash_entries@[j as int].key@,
                            map.hash_entries@[j as int].value@,
                        ));
                    }
                    Ok(copy_bytes(&map.hash_entries[j].value))
                },
                None => Err(SysError::NotFound),
            }
        }
    }

    /// `BPF_MAP_UPDATE_ELEM`: stores `value` under the key. `value` holds the
    /// `value_size` bytes read at the value address of the request.
    pub fn bpf_map_update(
        &mut self,
        size: u32,
        attr: Result<BpfElemAttr, SysError>,
        index: Result<u32, SysError>,
        key: Result<Vec<u8>, SysError>,
        value: Result<Vec<u8>, SysError>,
    ) -> (r: Result<isize, SysError>)
        requires
            old(self).wf(),
            match (attr, value) {
                (Ok(a), Ok(v)) => {
                    let k = last_with_fd(map_fds(old(self)@.maps), a.map_fd as i32);
                    k >= 0 ==> v@.len() == old(self)@.maps[k].value_size
                },
                _ => true,
            },
        ensures
            final(self).wf(),
            final(self)@.progs == old(self)@.progs,
            (r, final(self)@.maps) == update_outcome(
                old(self)@.maps,
                size,
                attr,
                index,
                bytes_of(key),
                bytes_of(value),
            ),
    {
        if let Err(e) = check_size(size, ELEM_ATTR_SIZE) {
            return Err(e);
        }
        let a = match attr {
            Ok(a) => a,
            Err(e) => return Err(e),
        };
        proof {
            lemma_last_with_fd_range(map_fds(self@.maps), a.map_fd as i32);
        }
        let k = match find_map(&self.maps, a.map_fd as i32) {
            Some(k) => k,
            None => return Err(SysError::BadFileDescriptor),
        };
        let v = match value {
            Ok(v) => v,
            Err(e) => return Err(e),
        };
        proof {
            assert(self@.maps[k as int] == self.maps@[k as int]@);
        }
        let ghost m0 = self@.maps[k as int];
        let ghost maps0 = self@.maps;
        if self.maps[k].map_type == BPF_MAP_TYPE_ARRAY {
            let i = match index {
                Ok(i) => i,
                Err(e) => return Err(e),
            };
            if (i as usize) >= self.maps[k].array_entries.len() {
                return Err(SysError::InvalidInput);
            }
            let ghost vv = v@;
            let mut map = self.maps.remove(k);
            map.array_entries.set(i as usize, v);
            proof {
                assert(map@.array =~= m0.array.update(i as int, vv));
                assert(map@ == MapView { array: m0.array.update(i as int, vv), ..m0 });
            }
            self.maps.insert(k, map);
            proof {
                assert(self@.maps =~= maps0.update(k as int, MapView { array: m0.array.update(i as int, vv), ..m0 }));
                assert forall|kk: int, ii: int|
                    0 <= kk < self@.maps.len() && self@.maps[kk].map_type == BPF_MAP_TYPE_ARRAY && 0 <= ii
                        < self@.maps[kk].array.len() implies #[trigger] self@.maps[kk].array[ii].len()
                    == self@.maps[kk].value_size by {
                    if kk != k {
                        assert(self@.maps[kk] == maps0[kk]);
                    } else if ii != i {
                        assert(self@.maps[kk].array[ii] == m0.array[ii]);
                    }
                }
            }
            Ok(0)
        } else if self.maps[k].map_type == BPF_MAP_TYPE_RINGBUF {
            Ok(0)
        } else {
            let kb = match key {
                Ok(kb) => kb,
                Err(e) => return Err(e),
            };
            proof {
                lemma_first_with_key_range(m0.hash, kb@);
            }
            let ghost vv = v@;
            let ghost kv = kb@;
            match find_entry(&self.maps[k].hash_entries, &kb) {
                Some(j) => {
                    proof {
                        assert(m0.hash[j as int] == (
                            self.maps@[k as int].hash_entries@[j as int].key@,
                            self.maps@[k as int].hash_entries@[j as int].value@,
                        ));
                    }
                    let mut map = self.maps.remove(k);
                    map.hash_entries.set(j, BpfEntry { key: kb, value: v });
                    proof {
                        assert(map@.hash =~= m0.hash.update(j as int, (m0.hash[j as int].0, vv)));
                        assert(map@ == MapView { hash: m0.hash.update(j as int, (m0.hash[j as int].0, vv)), ..m0 });
                    }
                    self.maps.insert(k, map);
                    proof {
                        assert(self@.maps =~= maps0.update(
                            k as int,
                            MapView { hash: m0.hash.update(j as int, (m0.hash[j as int].0, vv)), ..m0 },
                        ));
                        assert forall|kk: int, ii: int|
                            0 <= kk < self@.maps.len() && self@.maps[kk].map_type == BPF_MAP_TYPE_ARRAY && 0
                                <= ii < self@.maps[kk].array.len() implies #[trigger] self@.maps[kk].array[ii].len()
                            == self@.maps[kk].value_size by {
                            if kk != k {
                                assert(self@.maps[kk] == maps0[kk]);
                            }
                        }
                    }
                    Ok(0)
                },
                None => {
                    if self.maps[k].hash_entries.len() >= self.maps[k].max_entries as usize {
                        return Err(SysError::NoMemory);
                    }
                    let mut map = self.maps.remove(k);
                    map.hash_entries.push(BpfEntry { key: kb, value: v });
                    proof {
                        assert(map@.hash =~= m0.hash.push((kv, vv)));
                        assert(map@ == MapView { hash: m0.hash.push((kv, vv)), ..m0 });
                    }
                    self.maps.insert(k, map);
                    proof {
                        assert(self@.maps =~= maps0.update(k as int, MapView { hash: m0.hash.push((kv, vv)), ..m0 }));
                        assert forall|kk: int, ii: int|
                            0 <= kk < self@.maps.len() && self@.maps[kk].map_type == BPF_MAP_TYPE_ARRAY && 0
                                <= ii < self@.maps[kk].array.len() implies #[trigger] self@.maps[kk].array[ii].len()
                            == self@.maps[kk].value_size by {
                            if kk != k {
                                assert(self@.maps[kk] == maps0[kk]);
                            }
                        }
                    }
                    Ok(0)
                },
            }
        }
    }
}


// ----------------------------------------------------------------------------
// Programs
// ----------------------------------------------------------------------------

/// A `BPF_LD_IMM_DW` instruction whose source is a map descriptor.
pub open spec fn is_map_ref(insn: BpfInsn) -> bool {
    insn.code == BPF_LD_IMM_DW && (insn.dst_src >> 4u8) == BPF_PSEUDO_MAP_FD
}

/// The map descriptor that the first map-referencing instruction loads.
pub open spec fn first_map_ref(insns: Seq<BpfInsn>) -> Option<i32>
    decreases insns.len(),
{
    if insns.len() == 0 {
        None
    } else if is_map_ref(insns[0]) {
        Some(insns[0].imm)
    } else {
        first_map_ref(insns.drop_first())
    }
}

/// The map descriptor a program refers to, if any.
pub fn referenced_map_fd(insns: &Vec<BpfInsn>) -> (r: Option<i32>)
    ensures
        r == first_map_ref(insns@),
{
    let mut i: usize = 0;
    proof {
        assert(insns@.skip(0) =~= insns@);
    }
    while i < insns.len()
        invariant
            i <= insns@.len(),
            first_map_ref(insns@) == first_map_ref(insns@.skip(i as int)),
        decreases insns@.len() - i,
    {
        proof {
            assert(insns@.skip(i as int)[0] == insns@[i as int]);
            assert(insns@.skip(i as int).drop_first() =~= insns@.skip(i + 1));
        }
        if insns[i].code == BPF_LD_IMM_DW && (insns[i].dst_src >> 4u8) == BPF_PSEUDO_MAP_FD {
            return Some(insns[i].imm);
        }
        i += 1;
    }
    proof {
        assert(insns@.skip(i as int).len() == 0);
    }
    None
}

/// Whether a program is turned away: it uses a ring buffer or the 32-entry
/// array map, or it shifts a value left by 31 and then right by 31.
pub open spec fn rejects(maps: Seq<MapView>, insns: Seq<BpfInsn>, map_fd: Option<i32>) -> bool {
    ||| (match map_fd {
        Some(fd) => exists|i: int|
            0 <= i < maps.len() && #[trigger] maps[i].fd == fd && (maps[i].map_type == BPF_MAP_TYPE_RINGBUF || (
            maps[i].map_type == BPF_MAP_TYPE_ARRAY && maps[i].max_entries == 32)),
        None => false,
    })
    ||| exists|j: int|
        0 <= j && j + 1 < insns.len() && #[trigger] insns[j].code == BPF_ALU64_LSH_K && insns[j].imm == 31
            && insns[j + 1].code == BPF_ALU_RSH_K && insns[j + 1].imm == 31
}

/// Whether the program must be rejected.
pub fn should_reject_program(state: &BpfState, insns: &Vec<BpfInsn>, map_fd: Option<i32>) -> (r: bool)
    ensures
        r == rejects(state@.maps, insns@, map_fd),
{
    if let Some(fd) = map_fd {
        let mut i: usize = 0;
        while i < state.maps.len()
            invariant
                map_fd == Some(fd),
                i <= state@.maps.len(),
                forall|k: int|
                    0 <= k < i ==> !(#[trigger] state@.maps[k].fd == fd && (state@.maps[k].map_type
                        == BPF_MAP_TYPE_RINGBUF || (state@.maps[k].map_type == BPF_MAP_TYPE_ARRAY
                        && state@.maps[k].max_entries == 32))),
            decreases state@.maps.len() - i,
        {
            let m = &state.maps[i];
            proof {
                assert(state@.maps[i as int] == m@);
            }
            if m.fd == fd && (m.map_type == BPF_MAP_TYPE_RINGBUF || (m.map_type == BPF_MAP_TYPE_ARRAY
                && m.max_entries == 32)) {
                assert(state@.maps[i as int].fd == fd && (state@.maps[i as int].map_type == BPF_MAP_TYPE_RINGBUF
                    || (state@.maps[i as int].map_type == BPF_MAP_TYPE_ARRAY && state@.maps[i as int].max_entries
                    == 32)));
                return true;
            }
            i += 1;
        }
    }
    let mut j: usize = 0;
    while j < insns.len()
        invariant
            j <= insns@.len(),
            forall|k: int|
                0 <= k < j && k + 1 < insns@.len() ==> !(#[trigger] insns@[k].code == BPF_ALU64_LSH_K
                    && insns@[k].imm == 31 && insns@[k + 1].code == BPF_ALU_RSH_K && insns@[k + 1].imm == 31),
            map_fd is Some ==> !(exists|i: int|
                0 <= i < state@.maps.len() && #[trigger] state@.maps[i].fd == map_fd->Some_0 && (
                state@.maps[i].map_type == BPF_MAP_TYPE_RINGBUF || (state@.maps[i].map_type
                == BPF_MAP_TYPE_ARRAY && state@.maps[i].max_entries == 32))),
        decreases insns@.len() - j,
    {
        if j + 1 < insns.len() && insns[j].code == BPF_ALU64_LSH_K && insns[j].imm == 31 && insns[j + 1].code
            == BPF_ALU_RSH_K && insns[j + 1].imm == 31 {
            assert(insns@[j as int].code == BPF_ALU64_LSH_K);
            return true;
        }
        j += 1;
    }
    false
}

/// The values a program stores into a map of `max_entries` slots.
pub open spec fn values_for(max_entries: u32) -> Seq<(u32, u64)> {
    if max_entries == 1 {
        seq![(0u32, 1u64)]
    } else if max_entries == 2 {
        seq![(0u32, 0x1000_0000_0000_0001u64), (1u32, 0x0fff_ffff_ffff_ffffu64)]
    } else if max_entries == 8 {
        seq![(0u32, 0x1_0000_0000u64), (1u32, 0u64), (2u32, 0x1_0000_0000u64), (3u32, 0xffff_ffffu64)]
    } else {
        Seq::empty()
    }
}

/// What a loaded program does when it runs.
pub open spec fn action_of(maps: Seq<MapView>, insns: Seq<BpfInsn>, map_fd: Option<i32>) -> ActionView {
    match map_fd {
        None => ActionView::Noop,
        Some(fd) => {
            let k = last_with_fd(map_fds(maps), fd);
            if k < 0 {
                ActionView::Noop
            } else {
                let values = values_for(maps[k].max_entries);
                if values.len() == 0 || insns.len() <= 6 {
                    ActionView::Noop
                } else {
                    ActionView::StoreU64 { map_fd: fd, values }
                }
            }
        },
    }
}

/// The action of a program that refers to map `map_fd`.
pub fn program_action(state: &BpfState, insns: &Vec<BpfInsn>, map_fd: Option<i32>) -> (r: BpfAction)
    ensures
        r@ == action_of(state@.maps, insns@, map_fd),
{
    let fd = match map_fd {
        Some(fd) => fd,
        None => return BpfAction::Noop,
    };
    proof {
        lemma_last_with_fd_range(map_fds(state@.maps), fd);
    }
    let k = match find_map(&state.maps, fd) {
        Some(k) => k,
        None => return BpfAction::Noop,
    };
    proof {
        assert(state@.maps[k as int] == state.maps@[k as int]@);
    }
    let n = state.maps[k].max_entries;
    let mut values: Vec<(u32, u64)> = Vec::new();
    if n == 1 {
        values.push((0, 1));
    } else if n == 2 {
        let a64: u64 = 1u64 << 60u64;
        proof {
            assert(1u64 << 60u64 == 0x1000_0000_0000_0000u64) by (bit_vector);
        }
        values.push((0, a64 + 1));
        values.push((1, a64 - 1));
    } else if n == 8 {
        let b32: u64 = 1u64 << 32u64;
        proof {
            assert(1u64 << 32u64 == 0x1_0000_0000u64) by (bit_vector);
        }
        values.push((0, b32));
        values.push((1, 0));
        values.push((2, b32));
        values.push((3, 0xffff_ffffu64));
    }
    proof {
        assert(values@ =~= values_for(n));
    }
    if values.len() == 0 || insns.len() <= 6 {
        BpfAction::Noop
    } else {
        BpfAction::StoreU64 { map_fd: fd, values }
    }
}

/// Where and how much of the rejection message goes to a program's log: the
/// message cut to fit `log_size` with room for a closing NUL, then that NUL.
#[derive(Clone, Copy, Debug, PartialEq, Eq)]
pub struct LogWrite {
    pub addr: u64,
    pub len: usize,
    pub copy_len: usize,
}

pub open spec fn log_write_of(log_buf: u64, log_size: u32, msg_len: usize) -> Option<LogWrite> {
    if log_buf == 0 || log_size == 0 {
        None
    } else {
        let len: int = if (log_size as int) < msg_len + 1 {
            log_size as int
        } else {
            msg_len + 1
        };
        let copy_len: int = if msg_len < len - 1 {
            msg_len as int
        } else {
            len - 1
        };
        Some(LogWrite { addr: log_buf, len: len as usize, copy_len: copy_len as usize })
    }
}

/// The log write for a message of `msg_len` bytes.
pub fn write_log(log_buf: u64, log_size: u32, msg_len: usize) -> (r: Option<LogWrite>)
    requires
        msg_len < usize::MAX,
    ensures
        r == log_write_of(log_buf, log_size, msg_len),
{
    if log_buf == 0 || log_size == 0 {
        return None;
    }
    let len: usize = if (log_size as usize) < msg_len + 1 {
        log_size as usize
    } else {
        msg_len + 1
    };
    let copy_len = if msg_len < len - 1 {
        msg_len
    } else {
        len - 1
    };
    Some(LogWrite { addr: log_buf, len, copy_len })
}

/// The message that a rejected program finds in its log:
/// `"minux bpf verifier rejected program\n"`, as bytes.
pub open spec fn reject_message_spec() -> Seq<u8> {
    seq![109, 105, 110, 117, 120, 32, 98, 112, 102, 32, 118, 101, 114, 105, 102, 105, 101, 114, 32, 114, 101, 106, 101, 99, 116, 101, 100, 32, 112, 114, 111, 103, 114, 97, 109, 10]
}

/// The rejection message, as bytes.
pub fn reject_message() -> (r: Vec<u8>)
    ensures
        r@ == reject_message_spec(),
        r@.len() == REJECT_MESSAGE_LEN,
{
    let r: Vec<u8> = vec![109, 105, 110, 117, 120, 32, 98, 112, 102, 32, 118, 101, 114, 105, 102, 105, 101, 114, 32, 114, 101, 106, 101, 99, 116, 101, 100, 32, 112, 114, 111, 103, 114, 97, 109, 10];
    proof {
        assert(r@ =~= reject_message_spec());
    }
    r
}

/// The bytes that a log write `w` puts at `w.addr`: `w.len` bytes, the first
/// `w.copy_len` of them taken from `msg` (as far as it reaches), the rest NUL.
pub open spec fn log_bytes_of(msg: Seq<u8>, w: LogWrite) -> Seq<u8> {
    Seq::new(w.len as nat, |i: int| if i < w.copy_len && i < msg.len() { msg[i] } else { 0u8 })
}

/// Lays out the bytes of log write `w` for the message `msg`.
pub fn log_bytes(msg: &[u8], w: &LogWrite) -> (r: Vec<u8>)
    ensures
        r@ == log_bytes_of(msg@, *w),
{
    let mut r: Vec<u8> = Vec::new();
    let mut i: usize = 0;
    while i < w.len
        invariant
            i <= w.len,
            r@.len() == i,
            forall|j: int| 0 <= j < i ==> #[trigger] r@[j] == log_bytes_of(msg@, *w)[j],
        decreases w.len - i,
    {
        if i < w.copy_len && i < msg.len() {
            r.push(msg[i]);
        } else {
            r.push(0u8);
        }
        i += 1;
    }
    proof {
        assert(r@ =~= log_bytes_of(msg@, *w));
    }
    r
}

/// What `BPF_PROG_LOAD` returns, and the log it writes for a rejected program.
#[derive(Clone, Copy, Debug, PartialEq, Eq)]
pub struct ProgLoadOutcome {
    pub result: Result<isize, SysError>,
    pub log: Option<LogWrite>,
}

/// The outcome of turning a program away: `EACCES`, with the log message.
pub fn reject_prog(attr: &BpfProgLoadAttr) -> (r: ProgLoadOutcome)
    ensures
        r == (ProgLoadOutcome {
            result: Err(SysError::PermissionDenied),
            log: log_write_of(attr.log_buf, attr.log_size, REJECT_MESSAGE_LEN),
        }),
{
    ProgLoadOutcome {
        result: Err(SysError::PermissionDenied),
        log: write_log(attr.log_buf, attr.log_size, REJECT_MESSAGE_LEN),
    }
}

impl BpfState {
    /// Drops every program recorded under descriptor `fd`.
    fn retain_progs_without_fd(&mut self, fd: i32)
        ensures
            final(self)@.progs == old(self)@.progs.filter(|p: ProgView| p.fd != fd),
            final(self)@.maps == old(self)@.maps,
    {
        let ghost pred = |p: ProgView| p.fd != fd;
        let mut rest: Vec<BpfProg> = Vec::new();
        std::mem::swap(&mut rest, &mut self.progs);
        let ghost all = view_progs(rest@);
        let mut kept: Vec<BpfProg> = Vec::new();
        let mut i: usize = 0;
        let n = rest.len();
        while i < n
            invariant
                n == all.len(),
                i <= n,
                rest@.len() == n - i,
                forall|j: int| 0 <= j < rest@.len() ==> #[trigger] rest@[j]@ == all[i + j],
                view_progs(kept@) == all.take(i as int).filter(pred),
                self@.maps == old(self)@.maps,
                all == old(self)@.progs,
                pred == (|p: ProgView| p.fd != fd),
            decreases n - i,
        {
            let ghost prev = rest@;
            proof {
                assert(prev[0]@ == all[i + 0]);
            }
            let p = rest.remove(0);
            proof {
                assert(p@ == all[i as int]);
                assert(all.take(i + 1) =~= all.take(i as int).push(all[i as int]));
                all.take(i as int).lemma_filter_push(all[i as int], pred);
                assert forall|j: int| 0 <= j < rest@.len() implies #[trigger] rest@[j]@ == all[i + 1 + j] by {
                    assert(rest@[j] == prev[j + 1]);
                    assert(prev[j + 1]@ == all[i + (j + 1)]);
                }
            }
            let ghost before = kept@;
            if p.fd != fd {
                kept.push(p);
                proof {
                    assert(view_progs(kept@) =~= view_progs(before).push(all[i as int]));
                }
            }
            i += 1;
        }
        proof {
            assert(all.take(n as int) =~= all);
        }
        self.progs = kept;
    }

    /// `BPF_PROG_LOAD`: checks the program, takes a descriptor for it (an open
    /// file `bpf_file`) and records what it does. `insns` holds the
    /// `insn_cnt` instructions read at the instruction address.
    pub fn bpf_prog_load(
        &mut self,
        table: &mut FdTable,
        files: &mut Vec<OpenFile>,
        bpf_file: OpenFile,
        size: u32,
        attr: Result<BpfProgLoadAttr, SysError>,
        insns: Result<Vec<BpfInsn>, SysError>,
    ) -> (r: ProgLoadOutcome)
        requires
            old(table).wf(),
            files_wf(old(table)@, old(files)@),
        ensures
            final(table).wf(),
            files_wf(final(table)@, final(files)@),
            final(self)@.maps == old(self)@.maps,
            if size < PROG_LOAD_ATTR_SIZE {
                r == (ProgLoadOutcome { result: Err(SysError::InvalidInput), log: None })
                    && final(self)@ == old(self)@ && final(table)@ == old(table)@ && final(files)@ == old(files)@
            } else {
                match attr {
                    Err(e) => r == (ProgLoadOutcome { result: Err(e), log: None }) && final(self)@ == old(self)@
                        && final(table)@ == old(table)@ && final(files)@ == old(files)@,
                    Ok(a) => if a.insn_cnt == 0 || a.insn_cnt > MAX_INSNS {
                        r == (ProgLoadOutcome {
                            result: Err(SysError::PermissionDenied),
                            log: log_write_of(a.log_buf, a.log_size, REJECT_MESSAGE_LEN),
                        }) && final(self)@ == old(self)@ && final(table)@ == old(table)@ && final(files)@ == old(files)@
                    } else {
                        match insns {
                            Err(e) => r == (ProgLoadOutcome { result: Err(e), log: None }) && final(self)@ == old(self)@ && final(table)@ == old(table)@ && final(files)@ == old(files)@,
                            Ok(is) => if rejects(old(self)@.maps, is@, first_map_ref(is@)) {
                                r == (ProgLoadOutcome {
                                    result: Err(SysError::PermissionDenied),
                                    log: log_write_of(a.log_buf, a.log_size, REJECT_MESSAGE_LEN),
                                }) && final(self)@ == old(self)@ && final(table)@ == old(table)@ && final(files)@ == old(files)@
                            } else {
                                &&& r.log is None
                                &&& match r.result {
                                    Ok(fd) => {
                                        &&& final(files)@ == old(files)@.push(bpf_file)
                                        &&& is_first_free(old(table)@, 0, old(table)@.len() as int, fd as int)
                                        &&& final(table)@ == old(table)@.update(
                                            fd as int,
                                            Some(
                                                FileDescriptor {
                                                    file: old(files)@.len() as usize,
                                                    cloexec: false,
                                                },
                                            ),
                                        )
                                        &&& final(self)@.progs == old(self)@.progs.filter(
                                            |p: ProgView| p.fd != fd as i32,
                                        ).push(
                                            ProgView {
                                                fd: fd as i32,
                                                action: action_of(old(self)@.maps, is@, first_map_ref(is@)),
                                            },
                                        )
                                    },
                                    Err(e) => e == SysError::TooManyOpenFiles && none_free(
                                        old(table)@,
                                        0,
                                        old(table)@.len() as int,
                                    ) && final(table)@ == old(table)@ && final(self)@ == old(self)@
                                        && final(files)@ == old(files)@,
                                }
                            },
                        }
                    },
                }
            },
    {
        if let Err(e) = check_size(size, PROG_LOAD_ATTR_SIZE) {
            return ProgLoadOutcome { result: Err(e), log: None };
        }
        let a = match attr {
            Ok(a) => a,
            Err(e) => return ProgLoadOutcome { result: Err(e), log: None },
        };
        if a.insn_cnt == 0 || a.insn_cnt > MAX_INSNS {
            return reject_prog(&a);
        }
        let is = match insns {
            Ok(is) => is,
            Err(e) => return ProgLoadOutcome { result: Err(e), log: None },
        };
        let map_fd = referenced_map_fd(&is);
        if should_reject_program(self, &is, map_fd) {
            return reject_prog(&a);
        }
        let action = program_action(self, &is, map_fd);
        proof {
            assert(0u32 & 0o4000u32 == 0) by (bit_vector);
            assert(0u32 & 0o2000000u32 == 0) by (bit_vector);
        }
        let fd = match add_to_fd(table, files, bpf_file, 0) {
            Ok(fd) => fd,
            Err(e) => {
                return ProgLoadOutcome { result: Err(e), log: None };
            },
        };
        proof {
            assert(files@ =~= old(files)@.push(bpf_file));
        }
        let ghost act = action@;
        self.retain_progs_without_fd(fd);
        self.progs.push(BpfProg { fd, action });
        proof {
            assert(self@.progs =~= old(self)@.progs.filter(|p: ProgView| p.fd != fd).push(
                ProgView { fd, action: act },
            ));
        }
        ProgLoadOutcome { result: Ok(fd as isize), log: None }
    }
}


// ----------------------------------------------------------------------------
// Running a socket filter
// ----------------------------------------------------------------------------

/// The map after storing encoded bytes `b` at the front of slot `index`; maps
/// other than arrays of at least eight-byte values, and missing slots, stay.
pub open spec fn store_effect(m: MapView, index: u32, b: Seq<u8>) -> MapView {
    if m.map_type != BPF_MAP_TYPE_ARRAY || m.value_size < 8 || index >= m.array.len() {
        m
    } else {
        MapView {
            array: m.array.update(
                index as int,
                b + m.array[index as int].subrange(8, m.array[index as int].len() as int),
            ),
            ..m
        }
    }
}

/// The map after the first `n` stores of `values`, the i-th encoded as `bs[i]`.
pub open spec fn store_prefix(m: MapView, values: Seq<(u32, u64)>, bs: Seq<Seq<u8>>, n: nat) -> MapView
    decreases n,
{
    if n == 0 {
        m
    } else {
        store_effect(store_prefix(m, values, bs, (n - 1) as nat), values[n - 1].0, bs[n - 1])
    }
}

proof fn lemma_store_prefix_depends_on_prefix(
    m: MapView,
    values: Seq<(u32, u64)>,
    bs: Seq<Seq<u8>>,
    bs2: Seq<Seq<u8>>,
    n: nat,
)
    requires
        forall|j: int| 0 <= j < n ==> bs[j] == bs2[j],
    ensures
        store_prefix(m, values, bs, n) == store_prefix(m, values, bs2, n),
    decreases n,
{
    if n > 0 {
        lemma_store_prefix_depends_on_prefix(m, values, bs, bs2, (n - 1) as nat);
    }
}

/// An array map has `max_entries` slots, each of `value_size` bytes.
pub open spec fn map_wf(m: MapView) -> bool {
    m.map_type == BPF_MAP_TYPE_ARRAY ==> m.array.len() == m.max_entries && forall|i: int|
        0 <= i < m.array.len() ==> #[trigger] m.array[i].len() == m.value_size
}

impl BpfMap {
    /// Stores `value`, in byte order `order`, at the front of slot `index` of
    /// an array map whose values hold at least eight bytes; does nothing
    /// otherwise.
    pub fn store_array_u64(&mut self, index: u32, value: u64, order: ByteOrder) -> (r: Result<(), SysError>)
        requires
            map_wf(old(self)@),
        ensures
            r == Ok::<(), SysError>(()),
            map_wf(final(self)@),
            final(self)@ == store_effect(old(self)@, index, u64_bytes(value, order)),
    {
        let bytes = encode_u64(value, order);
        proof {
            lemma_u64_bytes_len(value, order);
        }
        if self.map_type != BPF_MAP_TYPE_ARRAY || self.value_size < 8 {
            assert(self@ == store_effect(old(self)@, index, bytes@));
            return Ok(());
        }
        let i = index as usize;
        if i >= self.array_entries.len() {
            assert(self@ == store_effect(old(self)@, index, bytes@));
            return Ok(());
        }
        let ghost m0 = self@;
        let mut slot = self.array_entries.remove(i);
        let ghost orig = slot@;
        proof {
            assert(orig == m0.array[i as int]);
            assert(orig.len() == self.value_size);
        }
        let mut j: usize = 0;
        while j < 8
            invariant
                j <= 8,
                orig.len() >= 8,
                bytes@.len() == 8,
                slot@ == bytes@.take(j as int) + orig.subrange(j as int, orig.len() as int),
            decreases 8 - j,
        {
            slot.set(j, bytes[j]);
            j += 1;
            proof {
                assert(slot@ =~= bytes@.take(j as int) + orig.subrange(j as int, orig.len() as int));
            }
        }
        proof {
            assert(bytes@.take(8) =~= bytes@);
        }
        let ghost new_slot = slot@;
        self.array_entries.insert(i, slot);
        proof {
            assert(self@.array =~= m0.array.update(i as int, new_slot));
            assert(self@ == store_effect(m0, index, bytes@));
        }
        Ok(())
    }
}

/// The bytes of each value of `values`, in byte order `o`.
pub open spec fn encoded_values(values: Seq<(u32, u64)>, o: ByteOrder) -> Seq<Seq<u8>> {
    Seq::new(values.len(), |i: int| u64_bytes(values[i].1, o))
}

/// What running program `prog_fd` as a socket filter returns and makes of
/// the maps of `s`, with the descriptor table `table`: a missing descriptor,
/// program or map is `EBADF`; a storing program stores its values, in the
/// state's byte order, into the newest map with its map descriptor.
pub open spec fn run_effect(s: BpfStateView, table: Seq<Option<FileDescriptor>>, prog_fd: i32) -> (
    Result<(), SysError>,
    Seq<MapView>,
) {
    let p = last_with_fd(prog_fds(s.progs), prog_fd);
    if fd_slot(table, prog_fd as int) is None || p < 0 {
        (Err(SysError::BadFileDescriptor), s.maps)
    } else {
        match s.progs[p].action {
            ActionView::Noop => (Ok(()), s.maps),
            ActionView::StoreU64 { map_fd, values } => {
                let mk = last_with_fd(map_fds(s.maps), map_fd);
                if mk < 0 {
                    (Err(SysError::BadFileDescriptor), s.maps)
                } else {
                    (
                        Ok(()),
                        s.maps.update(
                            mk,
                            store_prefix(s.maps[mk], values, encoded_values(values, s.byte_order), values.len()),
                        ),
                    )
                }
            },
        }
    }
}

impl BpfState {
    /// Runs program `prog_fd` as a socket filter: a storing program writes its
    /// values into its array map, each in the state's byte order.
    pub fn run_bpf_socket_filter(&mut self, table: &FdTable, prog_fd: i32) -> (r: Result<(), SysError>)
        requires
            old(self).wf(),
        ensures
            final(self).wf(),
            final(self)@.progs == old(self)@.progs,
            final(self)@.byte_order == old(self)@.byte_order,
            (r, final(self)@.maps) == run_effect(old(self)@, table@, prog_fd),
    {
        if table.get(prog_fd).is_none() {
            return Err(SysError::BadFileDescriptor);
        }
        proof {
            lemma_last_with_fd_range(prog_fds(self@.progs), prog_fd);
        }
        let p = match find_prog(&self.progs, prog_fd) {
            Some(p) => p,
            None => return Err(SysError::BadFileDescriptor),
        };
        proof {
            assert(self@.progs[p as int] == self.progs@[p as int]@);
        }
        let (map_fd, values) = match &self.progs[p].action {
            BpfAction::Noop => return Ok(()),
            BpfAction::StoreU64 { map_fd, values } => {
                let mut copy: Vec<(u32, u64)> = Vec::new();
                let mut i: usize = 0;
                while i < values.len()
                    invariant
                        i <= values@.len(),
                        copy@ == values@.take(i as int),
                    decreases values@.len() - i,
                {
                    copy.push(values[i]);
                    i += 1;
                    proof {
                        assert(copy@ =~= values@.take(i as int));
                    }
                }
                proof {
                    assert(values@.take(values@.len() as int) =~= values@);
                }
                (*map_fd, copy)
            },
        };
        proof {
            lemma_last_with_fd_range(map_fds(self@.maps), map_fd);
        }
        let mk = match find_map(&self.maps, map_fd) {
            Some(mk) => mk,
            None => return Err(SysError::BadFileDescriptor),
        };
        let ghost maps0 = self@.maps;
        let mut map = self.maps.remove(mk);
        let ghost m0 = map@;
        proof {
            assert(m0 == maps0[mk as int]);
            assert forall|i: int| 0 <= i < m0.array.len() && m0.map_type == BPF_MAP_TYPE_ARRAY implies #[trigger] m0.array[i].len() == m0.value_size by {
                assert(maps0[mk as int].array[i].len() == maps0[mk as int].value_size);
            }
        }
        let order = self.byte_order;
        let ghost enc = encoded_values(values@, order);
        let mut i: usize = 0;
        while i < values.len()
            invariant
                i <= values@.len(),
                enc == encoded_values(values@, order),
                map@ == store_prefix(m0, values@, enc, i as nat),
                map_wf(map@),
            decreases values@.len() - i,
        {
            let (k, v) = values[i];
            let _ = map.store_array_u64(k, v, order);
            i += 1;
        }
        let ghost m1 = map@;
        self.maps.insert(mk, map);
        proof {
            assert(self@.maps =~= maps0.update(mk as int, m1));
            assert forall|kk: int, ii: int|
                0 <= kk < self@.maps.len() && self@.maps[kk].map_type == BPF_MAP_TYPE_ARRAY && 0 <= ii
                    < self@.maps[kk].array.len() implies #[trigger] self@.maps[kk].array[ii].len()
                == self@.maps[kk].value_size by {
                if kk != mk {
                    assert(self@.maps[kk] == maps0[kk]);
                }
            }
        }
        Ok(())
    }
}


// ----------------------------------------------------------------------------
// Laws
// ----------------------------------------------------------------------------

proof fn lemma_first_with_key_same_keys(h1: Seq<(Seq<u8>, Seq<u8>)>, h2: Seq<(Seq<u8>, Seq<u8>)>, key: Seq<u8>)
    requires
        h1.len() == h2.len(),
        forall|i: int| 0 <= i < h1.len() ==> #[trigger] h1[i].0 == h2[i].0,
    ensures
        first_with_key(h1, key) == first_with_key(h2, key),
    decreases h1.len(),
{
    if h1.len() > 0 {
        assert(h1[0].0 == h2[0].0);
        let r1 = h1.drop_first();
        let r2 = h2.drop_first();
        assert forall|i: int| 0 <= i < r1.len() implies #[trigger] r1[i].0 == r2[i].0 by {
            assert(h1[i + 1].0 == h2[i + 1].0);
        }
        lemma_first_with_key_same_keys(r1, r2, key);
    }
}

proof fn lemma_first_with_key_push(h: Seq<(Seq<u8>, Seq<u8>)>, key: Seq<u8>, v: Seq<u8>)
    requires
        first_with_key(h, key) < 0,
    ensures
        first_with_key(h.push((key, v)), key) == h.len(),
    decreases h.len(),
{
    if h.len() > 0 {
        let r = h.drop_first();
        assert(h.push((key, v)).drop_first() =~= r.push((key, v)));
        lemma_first_with_key_push(r, key, v);
    }
}

proof fn lemma_map_fds_same(maps: Seq<MapView>, k: int, m: MapView)
    requires
        0 <= k < maps.len(),
        m.fd == maps[k].fd,
    ensures
        map_fds(maps.update(k, m)) == map_fds(maps),
{
    assert(map_fds(maps.update(k, m)) =~= map_fds(maps));
}

/// A lookup after a successful update of an array or hash map, with the same
/// request, reads back the value just stored.
pub proof fn law_lookup_reads_back_update(
    maps: Seq<MapView>,
    size: u32,
    attr: BpfElemAttr,
    index: Result<u32, SysError>,
    key: Result<Seq<u8>, SysError>,
    value: Seq<u8>,
)
    requires
        update_outcome(maps, size, Ok(attr), index, key, Ok(value)).0 is Ok,
        ({
            let k = last_with_fd(map_fds(maps), attr.map_fd as i32);
            k >= 0 && maps[k].map_type != BPF_MAP_TYPE_RINGBUF
        }),
    ensures
        lookup_outcome(update_outcome(maps, size, Ok(attr), index, key, Ok(value)).1, size, Ok(attr), index, key)
            == Ok::<Seq<u8>, SysError>(value),
{
    let fd = attr.map_fd as i32;
    let k = last_with_fd(map_fds(maps), fd);
    lemma_last_with_fd_range(map_fds(maps), fd);
    let m = maps[k];
    let new = update_outcome(maps, size, Ok(attr), index, key, Ok(value)).1;
    if m.map_type == BPF_MAP_TYPE_ARRAY {
        let i = index->Ok_0;
        let m2 = MapView { array: m.array.update(i as int, value), ..m };
        lemma_map_fds_same(maps, k, m2);
        assert(new[k] == m2);
    } else {
        let kb = key->Ok_0;
        let j = first_with_key(m.hash, kb);
        lemma_first_with_key_range(m.hash, kb);
        if j >= 0 {
            let h2 = m.hash.update(j, (m.hash[j].0, value));
            let m2 = MapView { hash: h2, ..m };
            lemma_map_fds_same(maps, k, m2);
            assert forall|i: int| 0 <= i < h2.len() implies #[trigger] h2[i].0 == m.hash[i].0 by {}
            lemma_first_with_key_same_keys(h2, m.hash, kb);
            assert(new[k] == m2);
        } else {
            let h2 = m.hash.push((kb, value));
            let m2 = MapView { hash: h2, ..m };
            lemma_map_fds_same(maps, k, m2);
            lemma_first_with_key_push(m.hash, kb, value);
            assert(new[k] == m2);
        }
    }
}

/// Right after an array map is created, each of its slots reads as
/// `value_size` zero bytes.
pub proof fn law_new_array_map_reads_zeros(
    maps: Seq<MapView>,
    fd: i32,
    a: BpfMapCreateAttr,
    size: u32,
    attr: BpfElemAttr,
    index: u32,
)
    requires
        a.map_type == BPF_MAP_TYPE_ARRAY,
        attr.map_fd as i32 == fd,
        size >= ELEM_ATTR_SIZE,
        index < a.max_entries,
    ensures
        lookup_outcome(
            maps.filter(|m: MapView| m.fd != fd).push(new_map_view(fd, a)),
            size,
            Ok(attr),
            Ok(index),
            Err(SysError::InvalidInput),
        ) == Ok::<Seq<u8>, SysError>(Seq::new(a.value_size as nat, |j: int| 0u8)),
{
    let new = maps.filter(|m: MapView| m.fd != fd).push(new_map_view(fd, a));
    assert(map_fds(new).last() == fd);
}

/// The position of the last store of `values[..n]` into slot `k`, or -1.
pub open spec fn last_store(values: Seq<(u32, u64)>, k: int, n: nat) -> int
    decreases n,
{
    if n == 0 {
        -1
    } else if values[n - 1].0 == k {
        n - 1
    } else {
        last_store(values, k, (n - 1) as nat)
    }
}

/// Slot `k` of `m` after the first `n` stores: the bytes of the last store
/// into it, followed by the rest of its old value.
pub open spec fn slot_after(m: MapView, values: Seq<(u32, u64)>, bs: Seq<Seq<u8>>, n: nat, k: int) -> Seq<u8> {
    let j = last_store(values, k, n);
    if j < 0 {
        m.array[k]
    } else {
        bs[j] + m.array[k].subrange(8, m.array[k].len() as int)
    }
}

pub open spec fn stores_apply(m: MapView) -> bool {
    m.map_type == BPF_MAP_TYPE_ARRAY && m.value_size >= 8
}

proof fn lemma_last_store_range(values: Seq<(u32, u64)>, k: int, n: nat)
    ensures
        -1 <= last_store(values, k, n) < n,
        last_store(values, k, n) >= 0 ==> values[last_store(values, k, n)].0 == k,
    decreases n,
{
    if n > 0 {
        lemma_last_store_range(values, k, (n - 1) as nat);
    }
}

/// Stores change only the array, and each slot ends up holding the last
/// bytes stored into it.
proof fn lemma_store_prefix_shape(m: MapView, values: Seq<(u32, u64)>, bs: Seq<Seq<u8>>, n: nat)
    requires
        map_wf(m),
        n <= values.len(),
        forall|i: int| 0 <= i < n ==> (#[trigger] bs[i]).len() == 8,
    ensures
        store_prefix(m, values, bs, n) == (MapView { array: store_prefix(m, values, bs, n).array, ..m }),
        store_prefix(m, values, bs, n).array.len() == m.array.len(),
        !stores_apply(m) ==> store_prefix(m, values, bs, n) == m,
        stores_apply(m) ==> forall|k: int|
            0 <= k < m.array.len() ==> #[trigger] store_prefix(m, values, bs, n).array[k] == slot_after(
                m,
                values,
                bs,
                n,
                k,
            ),
    decreases n,
{
    if n > 0 {
        let n1 = (n - 1) as nat;
        lemma_store_prefix_shape(m, values, bs, n1);
        let prev = store_prefix(m, values, bs, n1);
        let idx = values[n - 1].0;
        let b = bs[n - 1];
        if stores_apply(m) && (idx as int) < prev.array.len() {
            let old_slot = prev.array[idx as int];
            let orig = m.array[idx as int];
            assert(orig.len() == m.value_size);
            lemma_last_store_range(values, idx as int, n1);
            assert(old_slot.subrange(8, old_slot.len() as int) =~= orig.subrange(8, orig.len() as int));
            let now = store_prefix(m, values, bs, n);
            assert forall|k: int| 0 <= k < m.array.len() implies #[trigger] now.array[k] == slot_after(
                m,
                values,
                bs,
                n,
                k,
            ) by {
                if k != idx {
                    assert(now.array[k] == prev.array[k]);
                }
            }
        } else if stores_apply(m) {
            let now = store_prefix(m, values, bs, n);
            assert forall|k: int| 0 <= k < m.array.len() implies #[trigger] now.array[k] == slot_after(
                m,
                values,
                bs,
                n,
                k,
            ) by {
                assert(now.array[k] == prev.array[k]);
            }
        }
    }
}

/// Storing the same values a second time changes nothing.
proof fn lemma_store_prefix_idempotent(m: MapView, values: Seq<(u32, u64)>, bs: Seq<Seq<u8>>, n: nat)
    requires
        map_wf(m),
        n <= values.len(),
        forall|i: int| 0 <= i < n ==> (#[trigger] bs[i]).len() == 8,
    ensures
        store_prefix(store_prefix(m, values, bs, n), values, bs, n) == store_prefix(m, values, bs, n),
        map_wf(store_prefix(m, values, bs, n)),
{
    lemma_store_prefix_shape(m, values, bs, n);
    let m1 = store_prefix(m, values, bs, n);
    if stores_apply(m) {
        assert forall|k: int| 0 <= k < m1.array.len() implies #[trigger] m1.array[k].len() == m1.value_size by {
            assert(m1.array[k] == slot_after(m, values, bs, n, k));
            lemma_last_store_range(values, k, n);
            assert(m.array[k].len() == m.value_size);
        }
        assert(map_wf(m1));
        lemma_store_prefix_shape(m1, values, bs, n);
        let m2 = store_prefix(m1, values, bs, n);
        assert forall|k: int| 0 <= k < m1.array.len() implies m2.array[k] == m1.array[k] by {
            assert(m2.array[k] == slot_after(m1, values, bs, n, k));
            assert(m1.array[k] == slot_after(m, values, bs, n, k));
            lemma_last_store_range(values, k, n);
            let j = last_store(values, k, n);
            if j >= 0 {
                assert(m.array[k].len() == m.value_size);
                assert(m1.array[k].subrange(8, m1.array[k].len() as int) =~= m.array[k].subrange(
                    8,
                    m.array[k].len() as int,
                ));
            }
        }
        assert(m2.array =~= m1.array);
    }
}

/// Running a socket filter a second time changes nothing more: it returns
/// what the first run returned and leaves the maps as the first run left
/// them, since every run stores the same bytes, in the state's one byte
/// order, at the same places.
pub proof fn law_second_run_changes_nothing(s: BpfStateView, table: Seq<Option<FileDescriptor>>, prog_fd: i32)
    requires
        maps_wf(s.maps),
    ensures
        run_effect(BpfStateView { maps: run_effect(s, table, prog_fd).1, ..s }, table, prog_fd) == run_effect(
            s,
            table,
            prog_fd,
        ),
{
    let p = last_with_fd(prog_fds(s.progs), prog_fd);
    if !(fd_slot(table, prog_fd as int) is None || p < 0) {
        match s.progs[p].action {
            ActionView::Noop => {},
            ActionView::StoreU64 { map_fd, values } => {
                let mk = last_with_fd(map_fds(s.maps), map_fd);
                lemma_last_with_fd_range(map_fds(s.maps), map_fd);
                if mk >= 0 {
                    let enc = encoded_values(values, s.byte_order);
                    let m = s.maps[mk];
                    assert(map_wf(m));
                    assert forall|i: int| 0 <= i < values.len() implies (#[trigger] enc[i]).len() == 8 by {
                        lemma_u64_bytes_len(values[i].1, s.byte_order);
                    }
                    lemma_store_prefix_shape(m, values, enc, values.len());
                    lemma_store_prefix_idempotent(m, values, enc, values.len());
                    let m1 = store_prefix(m, values, enc, values.len());
                    lemma_map_fds_same(s.maps, mk, m1);
                    let maps1 = s.maps.update(mk, m1);
                    assert(maps1.update(mk, m1) =~= maps1);
                }
            },
        }
    }
}

} // verus!
