//! The per-process file descriptor table and the calls that only rearrange
//! it: `close`, `close_range`, `dup`, `dup2`, `dup3`.
use vstd::prelude::*;

use crate::abi::{CLOSE_RANGE_CLOEXEC, CLOSE_RANGE_UNSHARE, O_CLOEXEC};
use crate::error::SysError;

verus! {

/// The most slots a table may have: every index must be a valid `int` fd.
pub const FD_TABLE_MAX: usize = 0x7fff_ffff;

/// One open descriptor: which open file it refers to, and its close-on-exec flag.
#[derive(Clone, Copy, Debug, PartialEq, Eq)]
pub struct FileDescriptor {
    pub file: usize,
    pub cloexec: bool,
}

/// A table of descriptor slots; slot `i` is descriptor `i`.
pub struct FdTable {
    slots: Vec<Option<FileDescriptor>>,
}

impl View for FdTable {
    type V = Seq<Option<FileDescriptor>>;

    closed spec fn view(&self) -> Seq<Option<FileDescriptor>> {
        self.slots@
    }
}

/// What descriptor `fd` holds (nothing for a negative or too large `fd`).
pub open spec fn fd_slot(s: Seq<Option<FileDescriptor>>, fd: int) -> Option<FileDescriptor> {
    if 0 <= fd < s.len() {
        s[fd]
    } else {
        None
    }
}

/// `fd` is the lowest free slot in `[from, limit)`.
pub open spec fn is_first_free(s: Seq<Option<FileDescriptor>>, from: int, limit: int, fd: int) -> bool {
    &&& from <= fd < limit
    &&& fd < s.len()
    &&& s[fd] is None
    &&& forall|j: int| from <= j < fd ==> #[trigger] s[j] is Some
}

/// No slot in `[from, limit)` is free.
pub open spec fn none_free(s: Seq<Option<FileDescriptor>>, from: int, limit: int) -> bool {
    forall|j: int| from <= j < limit && j < s.len() ==> #[trigger] s[j] is Some
}

/// The descriptor `d` with its close-on-exec flag set.
pub open spec fn with_cloexec(d: Option<FileDescriptor>) -> Option<FileDescriptor> {
    match d {
        Some(f) => Some(FileDescriptor { cloexec: true, ..f }),
        None => None,
    }
}

/// The table after `close_range(first, last)`: the range closed, or, with
/// `CLOSE_RANGE_CLOEXEC`, marked close-on-exec.
pub open spec fn after_close_range(
    s: Seq<Option<FileDescriptor>>,
    first: int,
    last: int,
    cloexec: bool,
) -> Seq<Option<FileDescriptor>> {
    Seq::new(
        s.len(),
        |i: int|
            if first <= i <= last {
                if cloexec {
                    with_cloexec(s[i])
                } else {
                    None
                }
            } else {
                s[i]
            },
    )
}

impl FdTable {
    pub open spec fn wf(&self) -> bool {
        self@.len() <= FD_TABLE_MAX
    }

    /// An empty table with `capacity` slots.
    pub fn new(capacity: usize) -> (r: Self)
        requires
            capacity <= FD_TABLE_MAX,
        ensures
            r.wf(),
            r@ == Seq::new(capacity as nat, |i: int| None::<FileDescriptor>),
    {
        let mut slots: Vec<Option<FileDescriptor>> = Vec::new();
        let mut i: usize = 0;
        while i < capacity
            invariant
                i <= capacity,
                slots@ == Seq::new(i as nat, |k: int| None::<FileDescriptor>),
            decreases capacity - i,
        {
            slots.push(None);
            i += 1;
            proof {
                assert(slots@ =~= Seq::new(i as nat, |k: int| None::<FileDescriptor>));
            }
        }
        FdTable { slots }
    }

    /// The number of slots.
    pub fn capacity(&self) -> (r: usize)
        ensures
            r == self@.len(),
    {
        self.slots.len()
    }

    /// The descriptor `fd`, if open.
    pub fn get(&self, fd: i32) -> (r: Option<FileDescriptor>)
        ensures
            r == fd_slot(self@, fd as int),
    {
        if fd < 0 {
            return None;
        }
        let i = fd as usize;
        if i < self.slots.len() {
            self.slots[i]
        } else {
            None
        }
    }

    /// Puts `d` in slot `fd` if that slot exists and is free.
    pub fn add_at(&mut self, fd: usize, d: FileDescriptor) -> (r: bool)
        ensures
            r == (fd < old(self)@.len() && old(self)@[fd as int] is None),
            final(self)@ == if r {
                old(self)@.update(fd as int, Some(d))
            } else {
                old(self)@
            },
    {
        if fd < self.slots.len() && self.slots[fd].is_none() {
            self.slots.set(fd, Some(d));
            true
        } else {
            false
        }
    }

    /// Puts `d` in the lowest free slot.
    pub fn add(&mut self, d: FileDescriptor) -> (r: Result<i32, SysError>)
        requires
            old(self).wf(),
        ensures
            final(self).wf(),
            match r {
                Ok(fd) => is_first_free(old(self)@, 0, old(self)@.len() as int, fd as int)
                    && final(self)@ == old(self)@.update(fd as int, Some(d)),
                Err(e) => e == SysError::TooManyOpenFiles && none_free(old(self)@, 0, old(self)@.len() as int)
                    && final(self)@ == old(self)@,
            },
    {
        let mut i: usize = 0;
        while i < self.slots.len()
            invariant
                self@ == old(self)@,
                self@.len() <= FD_TABLE_MAX,
                i <= self@.len(),
                none_free(self@, 0, i as int),
            decreases self@.len() - i,
        {
            if self.slots[i].is_none() {
                self.slots.set(i, Some(d));
                return Ok(i as i32);
            }
            i += 1;
        }
        Err(SysError::TooManyOpenFiles)
    }

    /// Empties slot `fd`, returning what it held.
    pub fn remove(&mut self, fd: usize) -> (r: Option<FileDescriptor>)
        ensures
            r == fd_slot(old(self)@, fd as int),
            final(self)@ == if fd < old(self)@.len() {
                old(self)@.update(fd as int, None)
            } else {
                old(self)@
            },
    {
        if fd < self.slots.len() {
            let d = self.slots[fd];
            self.slots.set(fd, None);
            d
        } else {
            None
        }
    }

    /// Sets the close-on-exec flag of descriptor `fd`, if it is open.
    pub fn set_cloexec(&mut self, fd: i32, cloexec: bool) -> (r: bool)
        ensures
            r == fd_slot(old(self)@, fd as int) is Some,
            final(self)@ == if r {
                old(self)@.update(
                    fd as int,
                    Some(FileDescriptor { cloexec, ..fd_slot(old(self)@, fd as int)->Some_0 }),
                )
            } else {
                old(self)@
            },
    {
        match self.get(fd) {
            Some(d) => {
                self.slots.set(fd as usize, Some(FileDescriptor { cloexec, ..d }));
                true
            },
            None => false,
        }
    }

    /// The highest open descriptor.
    pub fn max_index(&self) -> (r: Option<usize>)
        ensures
            match r {
                Some(m) => m < self@.len() && self@[m as int] is Some && forall|j: int|
                    m < j < self@.len() ==> #[trigger] self@[j] is None,
                None => forall|j: int| 0 <= j < self@.len() ==> #[trigger] self@[j] is None,
            },
    {
        let mut i = self.slots.len();
        while i > 0
            invariant
                i <= self@.len(),
                forall|j: int| i <= j < self@.len() ==> #[trigger] self@[j] is None,
            decreases i,
        {
            if self.slots[i - 1].is_some() {
                return Some(i - 1);
            }
            i -= 1;
        }
        None
    }
}

// ----------------------------------------------------------------------------
// System calls on the table
// ----------------------------------------------------------------------------

/// `close(fd)`.
pub fn sys_close(table: &mut FdTable, fd: i32) -> (r: Result<isize, SysError>)
    ensures
        match fd_slot(old(table)@, fd as int) {
            Some(_) => r == Ok::<isize, SysError>(0) && final(table)@ == old(table)@.update(fd as int, None),
            None => r == Err::<isize, SysError>(SysError::BadFileDescriptor) && final(table)@ == old(table)@,
        },
{
    if fd < 0 {
        return Err(SysError::BadFileDescriptor);
    }
    match table.remove(fd as usize) {
        Some(_) => Ok(0),
        None => Err(SysError::BadFileDescriptor),
    }
}

/// `close_range(first, last, flags)`: closes descriptors `first..=last`, or
/// with `CLOSE_RANGE_CLOEXEC` marks them close-on-exec. `CLOSE_RANGE_UNSHARE`
/// gives the process a private copy of the table first, which leaves its
/// contents as they are.
pub fn sys_close_range(table: &mut FdTable, first: u32, last: u32, flags: u32) -> (r: Result<
    isize,
    SysError,
>)
    requires
        old(table).wf(),
    ensures
        final(table).wf(),
        if last < first || flags & !(CLOSE_RANGE_UNSHARE | CLOSE_RANGE_CLOEXEC) != 0 {
            r == Err::<isize, SysError>(SysError::InvalidInput) && final(table)@ == old(table)@
        } else {
            r == Ok::<isize, SysError>(0) && final(table)@ == after_close_range(
                old(table)@,
                first as int,
                last as int,
                flags & CLOSE_RANGE_CLOEXEC != 0,
            )
        },
        r is Ok ==> final(table)@.len() == old(table)@.len(),
        r is Ok && flags & CLOSE_RANGE_CLOEXEC == 0 ==> forall|fd: int|
            first <= fd <= last ==> #[trigger] fd_slot(final(table)@, fd) is None,
        r is Ok ==> forall|fd: int|
            !(first <= fd <= last) ==> #[trigger] fd_slot(final(table)@, fd) == fd_slot(old(table)@, fd),
{
    if last < first {
        return Err(SysError::InvalidInput);
    }
    if flags & !(CLOSE_RANGE_UNSHARE | CLOSE_RANGE_CLOEXEC) != 0 {
        return Err(SysError::InvalidInput);
    }
    let cloexec = flags & CLOSE_RANGE_CLOEXEC != 0;
    let ghost target = after_close_range(old(table)@, first as int, last as int, cloexec);
    if let Some(max_index) = table.max_index() {
        let stop: u32 = if last < max_index as u32 {
            last
        } else {
            max_index as u32
        };
        let mut fd: u32 = first;
        while fd <= stop
            invariant
                table.wf(),
                target == after_close_range(old(table)@, first as int, last as int, cloexec),
                table@.len() == old(table)@.len(),
                max_index < table@.len(),
                stop <= max_index,
                stop <= last,
                first <= fd,
                fd <= stop + 1 || fd == first,
                forall|j: int| #![trigger table@[j]]
                    0 <= j < table@.len() ==> table@[j] == if first <= j < fd {
                        target[j]
                    } else {
                        old(table)@[j]
                    },
                forall|j: int| max_index < j < old(table)@.len() ==> #[trigger] old(table)@[j] is None,
            decreases stop + 1 - fd,
        {
            if cloexec {
                table.set_cloexec(fd as i32, true);
            } else {
                table.remove(fd as usize);
            }
            proof {
                assert(target[fd as int] == if cloexec { with_cloexec(old(table)@[fd as int]) } else { None });
            }
            fd += 1;
        }
        proof {
            assert forall|j: int| 0 <= j < table@.len() implies #[trigger] table@[j] == target[j] by {
                if first <= j <= last && j >= fd {
                    assert(j > max_index);
                }
            }
            assert(table@ =~= target);
        }
    } else {
        proof {
            assert(table@ =~= target);
        }
    }
    Ok(0)
}

/// Duplicates `old_fd` into the lowest free descriptor.
pub fn dup_fd(table: &mut FdTable, old_fd: i32, cloexec: bool) -> (r: Result<isize, SysError>)
    requires
        old(table).wf(),
    ensures
        final(table).wf(),
        match fd_slot(old(table)@, old_fd as int) {
            None => r == Err::<isize, SysError>(SysError::BadFileDescriptor) && final(table)@ == old(table)@,
            Some(d) => match r {
                Ok(fd) => is_first_free(old(table)@, 0, old(table)@.len() as int, fd as int)
                    && final(table)@ == old(table)@.update(
                    fd as int,
                    Some(FileDescriptor { file: d.file, cloexec }),
                ),
                Err(e) => e == SysError::TooManyOpenFiles && none_free(
                    old(table)@,
                    0,
                    old(table)@.len() as int,
                ) && final(table)@ == old(table)@,
            },
        },
{
    let f = match table.get(old_fd) {
        Some(f) => f,
        None => return Err(SysError::BadFileDescriptor),
    };
    match table.add(FileDescriptor { file: f.file, cloexec }) {
        Ok(fd) => Ok(fd as isize),
        Err(e) => Err(e),
    }
}

/// What `dup_fd_at` does to table `old`, giving `new` and returning `r`.
pub open spec fn dup_at_outcome(
    old: Seq<Option<FileDescriptor>>,
    new: Seq<Option<FileDescriptor>>,
    old_fd: i32,
    min_fd: i32,
    cloexec: bool,
    max_nofile: u64,
    r: Result<isize, SysError>,
) -> bool {
    let limit: int = if max_nofile < old.len() {
        max_nofile as int
    } else {
        old.len() as int
    };
    if min_fd < 0 {
        r == Err::<isize, SysError>(SysError::InvalidInput) && new == old
    } else if fd_slot(old, old_fd as int) is None {
        r == Err::<isize, SysError>(SysError::BadFileDescriptor) && new == old
    } else {
        match r {
            Ok(fd) => is_first_free(old, min_fd as int, limit, fd as int) && new == old.update(
                fd as int,
                Some(
                    FileDescriptor {
                        file: fd_slot(old, old_fd as int)->Some_0.file,
                        cloexec,
                    },
                ),
            ),
            Err(e) => e == SysError::TooManyOpenFiles && none_free(
                old,
                min_fd as int,
                limit,
            ) && new == old,
        }
    }
}

/// Duplicates `old_fd` into the lowest free descriptor that is at least
/// `min_fd` and below both the table size and the `RLIMIT_NOFILE` limit.
pub fn dup_fd_at(table: &mut FdTable, old_fd: i32, min_fd: i32, cloexec: bool, max_nofile: u64) -> (r:
    Result<isize, SysError>)
    requires
        old(table).wf(),
    ensures
        final(table).wf(),
        dup_at_outcome(old(table)@, final(table)@, old_fd, min_fd, cloexec, max_nofile, r),
{
    if min_fd < 0 {
        return Err(SysError::InvalidInput);
    }
    let f = match table.get(old_fd) {
        Some(f) => f,
        None => return Err(SysError::BadFileDescriptor),
    };
    let cap = table.capacity();
    let limit: usize = if max_nofile < cap as u64 {
        max_nofile as usize
    } else {
        cap
    };
    let mut fd = min_fd as usize;
    if fd >= limit {
        return Err(SysError::TooManyOpenFiles);
    }
    let d = FileDescriptor { file: f.file, cloexec };
    while fd < limit
        invariant
            table@ == old(table)@,
            table.wf(),
            min_fd >= 0,
            fd_slot(old(table)@, old_fd as int) == Some(f),
            d == (FileDescriptor { file: f.file, cloexec }),
            limit as int == if max_nofile < table@.len() {
                max_nofile as int
            } else {
                table@.len() as int
            },
            limit <= table@.len(),
            min_fd <= fd <= limit,
            none_free(table@, min_fd as int, fd as int),
        decreases limit - fd,
    {
        if table.add_at(fd, d) {
            return Ok(fd as isize);
        }
        fd += 1;
    }
    Err(SysError::TooManyOpenFiles)
}

/// `dup(old_fd)`.
pub fn sys_dup(table: &mut FdTable, old_fd: i32) -> (r: Result<isize, SysError>)
    requires
        old(table).wf(),
    ensures
        final(table).wf(),
        match fd_slot(old(table)@, old_fd as int) {
            None => r == Err::<isize, SysError>(SysError::BadFileDescriptor) && final(table)@ == old(table)@,
            Some(d) => match r {
                Ok(fd) => is_first_free(old(table)@, 0, old(table)@.len() as int, fd as int)
                    && final(table)@ == old(table)@.update(
                    fd as int,
                    Some(FileDescriptor { file: d.file, cloexec: false }),
                ),
                Err(e) => e == SysError::TooManyOpenFiles && none_free(
                    old(table)@,
                    0,
                    old(table)@.len() as int,
                ) && final(table)@ == old(table)@,
            },
        },
{
    dup_fd(table, old_fd, false)
}

/// The table after `dup3(old_fd, new_fd)` succeeds: `new_fd` refers to the
/// file of `old_fd`, with the given close-on-exec flag.
pub open spec fn after_dup3(s: Seq<Option<FileDescriptor>>, old_fd: int, new_fd: int, cloexec: bool) -> Seq<
    Option<FileDescriptor>,
> {
    s.update(new_fd, Some(FileDescriptor { file: s[old_fd]->Some_0.file, cloexec }))
}

/// `dup3(old_fd, new_fd, flags)`: makes `new_fd` a copy of `old_fd`, closing
/// what `new_fd` held; the only flag is `O_CLOEXEC`.
pub fn sys_dup3(table: &mut FdTable, old_fd: i32, new_fd: i32, flags: i32) -> (r: Result<isize, SysError>)
    requires
        old(table).wf(),
    ensures
        final(table).wf(),
        if flags & !(O_CLOEXEC as i32) != 0 || old_fd == new_fd {
            r == Err::<isize, SysError>(SysError::InvalidInput) && final(table)@ == old(table)@
        } else if fd_slot(old(table)@, old_fd as int) is None || new_fd < 0 || new_fd >= old(table)@.len() {
            r == Err::<isize, SysError>(SysError::BadFileDescriptor) && final(table)@ == old(table)@
        } else {
            r == Ok::<isize, SysError>(new_fd as isize) && final(table)@ == after_dup3(
                old(table)@,
                old_fd as int,
                new_fd as int,
                flags & (O_CLOEXEC as i32) != 0,
            )
        },
{
    if flags & !(O_CLOEXEC as i32) != 0 {
        return Err(SysError::InvalidInput);
    }
    if old_fd == new_fd {
        return Err(SysError::InvalidInput);
    }
    let f = match table.get(old_fd) {
        Some(f) => f,
        None => return Err(SysError::BadFileDescriptor),
    };
    let d = FileDescriptor { file: f.file, cloexec: flags & (O_CLOEXEC as i32) != 0 };
    if new_fd < 0 {
        return Err(SysError::BadFileDescriptor);
    }
    table.remove(new_fd as usize);
    if !table.add_at(new_fd as usize, d) {
        return Err(SysError::BadFileDescriptor);
    }
    proof {
        assert(table@ =~= after_dup3(old(table)@, old_fd as int, new_fd as int, flags & (O_CLOEXEC as i32) != 0));
    }
    Ok(new_fd as isize)
}

/// `dup2(old_fd, new_fd)`: like `dup3` without flags, except that duplicating
/// an open descriptor onto itself succeeds and changes nothing.
pub fn sys_dup2(table: &mut FdTable, old_fd: i32, new_fd: i32) -> (r: Result<isize, SysError>)
    requires
        old(table).wf(),
    ensures
        final(table).wf(),
        if old_fd == new_fd {
            final(table)@ == old(table)@ && if fd_slot(old(table)@, new_fd as int) is Some {
                r == Ok::<isize, SysError>(new_fd as isize)
            } else {
                r == Err::<isize, SysError>(SysError::BadFileDescriptor)
            }
        } else if fd_slot(old(table)@, old_fd as int) is None || new_fd < 0 || new_fd >= old(table)@.len() {
            r == Err::<isize, SysError>(SysError::BadFileDescriptor) && final(table)@ == old(table)@
        } else {
            r == Ok::<isize, SysError>(new_fd as isize) && final(table)@ == after_dup3(
                old(table)@,
                old_fd as int,
                new_fd as int,
                false,
            )
        },
{
    if old_fd == new_fd {
        if table.get(new_fd).is_none() {
            return Err(SysError::BadFileDescriptor);
        }
        return Ok(new_fd as isize);
    }
    proof {
        assert(0i32 & !(0o2000000i32) == 0 && 0i32 & 0o2000000i32 == 0) by (bit_vector);
    }
    sys_dup3(table, old_fd, new_fd, 0)
}

/// Closing the descriptor that `dup` has just handed out leaves the table as
/// it was before the `dup`.
pub proof fn law_close_undoes_dup(t: Seq<Option<FileDescriptor>>, d: FileDescriptor, fd: int)
    requires
        is_first_free(t, 0, t.len() as int, fd),
    ensures
        fd_slot(t.update(fd, Some(d)), fd) is Some,
        t.update(fd, Some(d)).update(fd, None) == t,
{
    assert(t.update(fd, Some(d)).update(fd, None) =~= t);
}

/// `close_range(first, last)` closes every descriptor from `first` to `last`,
/// both included; with `CLOSE_RANGE_CLOEXEC` it instead keeps each of them
/// open, pointing at the same file, and marks it close-on-exec. Descriptors
/// outside the range are untouched either way.
pub proof fn law_close_range_closes_the_whole_range(
    s: Seq<Option<FileDescriptor>>,
    first: int,
    last: int,
    fd: int,
)
    ensures
        first <= fd <= last ==> fd_slot(after_close_range(s, first, last, false), fd) is None,
        first <= fd <= last ==> match fd_slot(s, fd) {
            Some(d) => fd_slot(after_close_range(s, first, last, true), fd) == Some(
                FileDescriptor { file: d.file, cloexec: true },
            ),
            None => fd_slot(after_close_range(s, first, last, true), fd) is None,
        },
        !(first <= fd <= last) ==> fd_slot(after_close_range(s, first, last, false), fd) == fd_slot(s, fd)
            && fd_slot(after_close_range(s, first, last, true), fd) == fd_slot(s, fd),
        after_close_range(s, first, last, false).len() == s.len(),
        after_close_range(s, first, last, true).len() == s.len(),
{
}

} // verus!
