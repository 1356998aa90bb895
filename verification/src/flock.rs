//! POSIX record locks (`fcntl` with `F_GETLK`, `F_SETLK`, `F_SETLKW`).
//!
//! Locks are kept per inode. Each lock belongs to a process, covers a byte
//! range `[start, end)` (an absent `end` reaches the end of the file) and is
//! either a read lock or a write lock.
use std::collections::BTreeMap;
use vstd::prelude::*;
use vstd::std_specs::iter::IteratorSpec;

use crate::abi::{F_RDLCK, F_UNLCK, F_WRLCK, SEEK_CUR, SEEK_END, SEEK_SET};
use crate::error::SysError;

verus! {

broadcast use vstd::laws_cmp::group_laws_cmp, vstd::std_specs::btree::group_btree_axioms;

/// One record lock held by process `pid` over `[start, end)`.
#[derive(Clone, Copy, Debug, PartialEq, Eq)]
pub struct FileLock {
    pub pid: u64,
    pub start: u64,
    pub end: Option<u64>,
    pub typ: i16,
}

/// The user-visible `struct flock64`.
#[derive(Clone, Copy, Debug, PartialEq, Eq)]
pub struct Flock {
    pub l_type: i16,
    pub l_whence: i16,
    pub l_start: i64,
    pub l_len: i64,
    pub l_pid: i32,
}

/// Whether the byte `x` lies in `[start, end)`.
pub open spec fn range_contains(start: u64, end: Option<u64>, x: int) -> bool {
    start <= x && match end {
        Some(e) => x < e,
        None => true,
    }
}

/// Whether `[start, end)` holds at least one byte.
pub open spec fn range_nonempty(start: u64, end: Option<u64>) -> bool {
    match end {
        Some(e) => start < e,
        None => true,
    }
}

pub open spec fn covers(l: FileLock, x: int) -> bool {
    range_contains(l.start, l.end, x)
}

/// Whether some lock of `locks` held by `pid` with type `typ` covers byte `x`.
pub open spec fn owner_covers(locks: Seq<FileLock>, pid: u64, typ: i16, x: int) -> bool {
    exists|i: int| #![trigger locks[i]] 0 <= i < locks.len() && locks[i].pid == pid && locks[i].typ == typ && covers(locks[i], x)
}

pub open spec fn all_nonempty(locks: Seq<FileLock>) -> bool {
    forall|i: int| 0 <= i < locks.len() ==> #[trigger] range_nonempty(locks[i].start, locks[i].end)
}

/// The two ranges share a boundary condition that the kernel treats as overlap.
pub open spec fn ranges_overlap(a_start: u64, a_end: Option<u64>, b_start: u64, b_end: Option<u64>) -> bool {
    &&& match a_end {
        Some(e) => b_start < e,
        None => true,
    }
    &&& match b_end {
        Some(e) => a_start < e,
        None => true,
    }
}

/// Lock types conflict when either of them is a write lock.
pub open spec fn types_conflict(query: i16, existing: i16) -> bool {
    query == F_WRLCK || existing == F_WRLCK
}

/// `l` stands in the way of a lock of type `typ` on `[start, end)` by `pid`.
pub open spec fn is_conflict(l: FileLock, pid: u64, start: u64, end: Option<u64>, typ: i16) -> bool {
    &&& l.pid != pid
    &&& ranges_overlap(start, end, l.start, l.end)
    &&& types_conflict(typ, l.typ)
}

/// The end of a lock as a number; a lock to the end of the file sorts last.
pub open spec fn end_key(end: Option<u64>) -> u64 {
    match end {
        Some(e) => e,
        None => u64::MAX,
    }
}

/// The order in which a conflict is reported: by start, then end, then pid.
pub open spec fn report_le(a: FileLock, b: FileLock) -> bool {
    ||| a.start < b.start
    ||| a.start == b.start && end_key(a.end) < end_key(b.end)
    ||| a.start == b.start && end_key(a.end) == end_key(b.end) && a.pid <= b.pid
}

/// The order in which locks are merged: by owner, type, start and end.
pub open spec fn owner_le(a: FileLock, b: FileLock) -> bool {
    ||| a.pid < b.pid
    ||| a.pid == b.pid && a.typ < b.typ
    ||| a.pid == b.pid && a.typ == b.typ && a.start < b.start
    ||| a.pid == b.pid && a.typ == b.typ && a.start == b.start && end_key(a.end) <= end_key(b.end)
}

/// Two neighbouring locks of one owner and type leave a gap between them.
pub open spec fn owners_separated(a: FileLock, b: FileLock) -> bool {
    (a.pid == b.pid && a.typ == b.typ) ==> (a.end matches Some(e) && e < b.start)
}

/// The form in which an inode's locks are kept after a lock is set: sorted by
/// owner, type and range, with each owner's locks of one type fused so that
/// neighbours neither overlap nor touch.
pub open spec fn merged_form(s: Seq<FileLock>) -> bool {
    forall|i: int, j: int|
        0 <= i && j == i + 1 && j < s.len() ==> owner_le(#[trigger] s[i], #[trigger] s[j]) && owners_separated(
            s[i],
            s[j],
        )
}

/// `c` is the conflict that a lock query reports: the first lock, in list
/// order, among those of least `report_le` order that conflict.
pub open spec fn reported_conflict(
    locks: Seq<FileLock>,
    c: FileLock,
    pid: u64,
    start: u64,
    end: Option<u64>,
    typ: i16,
) -> bool {
    exists|k: int|
        #![trigger locks[k]]
        0 <= k < locks.len() && locks[k] == c && is_conflict(c, pid, start, end, typ) && (forall|j: int|
            #![trigger locks[j]]
            0 <= j < locks.len() && is_conflict(locks[j], pid, start, end, typ) ==> report_le(
                c,
                locks[j],
            )) && (forall|j: int|
            #![trigger locks[j]]
            0 <= j < k && is_conflict(locks[j], pid, start, end, typ) ==> !report_le(locks[j], c))
}

pub open spec fn no_conflict(locks: Seq<FileLock>, pid: u64, start: u64, end: Option<u64>, typ: i16) -> bool {
    forall|j: int| 0 <= j < locks.len() ==> !is_conflict(#[trigger] locks[j], pid, start, end, typ)
}

/// The absolute range `[start, end)` that a `struct flock64` designates, given the
/// file position (needed for `SEEK_CUR`) and the file length (for `SEEK_END`).
pub open spec fn abs_lock_range(
    whence: i16,
    l_start: i64,
    l_len: i64,
    position: Result<u64, SysError>,
    file_len: u64,
) -> Result<(u64, Option<u64>), SysError> {
    let base: Result<u64, SysError> = if whence == SEEK_SET {
        Ok(0u64)
    } else if whence == SEEK_CUR {
        position
    } else if whence == SEEK_END {
        Ok(file_len)
    } else {
        Err(SysError::InvalidInput)
    };
    match base {
        Err(e) => Err(e),
        Ok(b) => {
            let s = b + l_start;
            if s < 0 || s > u64::MAX {
                Err(SysError::InvalidInput)
            } else if l_len == 0 {
                Ok((s as u64, None))
            } else if l_len > 0 {
                if s + l_len > u64::MAX {
                    Err(SysError::InvalidInput)
                } else {
                    Ok((s as u64, Some((s + l_len) as u64)))
                }
            } else {
                Err(SysError::InvalidInput)
            }
        },
    }
}

/// Which locks of `(p, t)` cover byte `x` once `pid` has set a lock of type
/// `typ` (or removed its locks, for `F_UNLCK`) on `[start, end)`.
pub open spec fn covers_after_set(
    old: Seq<FileLock>,
    pid: u64,
    start: u64,
    end: Option<u64>,
    typ: i16,
    p: u64,
    t: i16,
    x: int,
) -> bool {
    if p == pid && range_contains(start, end, x) {
        typ != F_UNLCK && t == typ
    } else {
        owner_covers(old, p, t, x)
    }
}

// ----------------------------------------------------------------------------
// Lemmas on coverage
// ----------------------------------------------------------------------------

proof fn lemma_owner_covers_push(s: Seq<FileLock>, l: FileLock)
    ensures
        forall|p: u64, t: i16, x: int|
            #![trigger owner_covers(s.push(l), p, t, x)]
            owner_covers(s.push(l), p, t, x) <==> (owner_covers(s, p, t, x) || (l.pid == p && l.typ == t
                && covers(l, x))),
{
    let s2 = s.push(l);
    assert forall|p: u64, t: i16, x: int| #![trigger owner_covers(s2, p, t, x)]
        owner_covers(s2, p, t, x) <==> (owner_covers(s, p, t, x) || (l.pid == p && l.typ == t
            && covers(l, x))) by {
        if owner_covers(s, p, t, x) {
            let i = choose|i: int|
                #![trigger s[i]]
                0 <= i < s.len() && s[i].pid == p && s[i].typ == t && covers(s[i], x);
            assert(s2[i] == s[i]);
        }
        if l.pid == p && l.typ == t && covers(l, x) {
            assert(s2[s.len() as int] == l);
        }
        if owner_covers(s2, p, t, x) {
            let i = choose|i: int|
                #![trigger s2[i]]
                0 <= i < s2.len() && s2[i].pid == p && s2[i].typ == t && covers(s2[i], x);
            if i < s.len() {
                assert(s[i] == s2[i]);
            }
        }
    }
}

proof fn lemma_owner_covers_same_elements(a: Seq<FileLock>, b: Seq<FileLock>)
    requires
        forall|l: FileLock| a.contains(l) <==> b.contains(l),
    ensures
        forall|p: u64, t: i16, x: int|
            #![trigger owner_covers(a, p, t, x)]
            #![trigger owner_covers(b, p, t, x)]
            owner_covers(a, p, t, x) <==> owner_covers(b, p, t, x),
{
    assert forall|p: u64, t: i16, x: int| owner_covers(a, p, t, x) implies owner_covers(b, p, t, x) by {
        let i = choose|i: int|
            #![trigger a[i]]
            0 <= i < a.len() && a[i].pid == p && a[i].typ == t && covers(a[i], x);
        assert(a.contains(a[i]));
        let j = choose|j: int| 0 <= j < b.len() && b[j] == a[i];
        assert(b[j] == a[i]);
    }
    assert forall|p: u64, t: i16, x: int| owner_covers(b, p, t, x) implies owner_covers(a, p, t, x) by {
        let i = choose|i: int|
            #![trigger b[i]]
            0 <= i < b.len() && b[i].pid == p && b[i].typ == t && covers(b[i], x);
        assert(b.contains(b[i]));
        let j = choose|j: int| 0 <= j < a.len() && a[j] == b[i];
        assert(a[j] == b[i]);
    }
}

/// Replacing the last lock by one that covers what it and `l` covered, with
/// the same owner and type as both, adds exactly the coverage of `l`.
proof fn lemma_owner_covers_widen_last(m: Seq<FileLock>, widened: FileLock, l: FileLock)
    requires
        m.len() > 0,
        widened.pid == m.last().pid,
        widened.typ == m.last().typ,
        l.pid == m.last().pid,
        l.typ == m.last().typ,
        forall|x: int| covers(widened, x) <==> (covers(m.last(), x) || covers(l, x)),
    ensures
        forall|p: u64, t: i16, x: int|
            #![trigger owner_covers(m.update(m.len() - 1, widened), p, t, x)]
            owner_covers(m.update(m.len() - 1, widened), p, t, x) <==> (owner_covers(m, p, t, x) || (
            l.pid == p && l.typ == t && covers(l, x))),
{
    let last = m.len() - 1;
    let m2 = m.update(last, widened);
    assert forall|p: u64, t: i16, x: int| #![trigger owner_covers(m2, p, t, x)]
        owner_covers(m2, p, t, x) <==> (owner_covers(m, p, t, x) || (l.pid == p && l.typ == t
            && covers(l, x))) by {
        if owner_covers(m, p, t, x) {
            let i = choose|i: int|
                #![trigger m[i]]
                0 <= i < m.len() && m[i].pid == p && m[i].typ == t && covers(m[i], x);
            if i == last {
                assert(m2[last] == widened);
            } else {
                assert(m2[i] == m[i]);
            }
        }
        if l.pid == p && l.typ == t && covers(l, x) {
            assert(m2[last] == widened);
        }
        if owner_covers(m2, p, t, x) {
            let i = choose|i: int|
                #![trigger m2[i]]
                0 <= i < m2.len() && m2[i].pid == p && m2[i].typ == t && covers(m2[i], x);
            if i == last {
                assert(m[last] == m.last());
            } else {
                assert(m[i] == m2[i]);
            }
        }
    }
}

/// Two nonempty ranges overlap exactly when they share a byte.
pub proof fn lemma_overlap_iff_common_byte(a_start: u64, a_end: Option<u64>, b_start: u64, b_end: Option<u64>)
    requires
        range_nonempty(a_start, a_end),
        range_nonempty(b_start, b_end),
    ensures
        ranges_overlap(a_start, a_end, b_start, b_end) <==> exists|x: int|
            range_contains(a_start, a_end, x) && range_contains(b_start, b_end, x),
{
    if ranges_overlap(a_start, a_end, b_start, b_end) {
        let x: int = if a_start <= b_start { b_start as int } else { a_start as int };
        assert(range_contains(a_start, a_end, x) && range_contains(b_start, b_end, x));
    }
}

// ----------------------------------------------------------------------------
// Range helpers
// ----------------------------------------------------------------------------

/// Turns the range of a `struct flock64` into an absolute `[start, end)`.
pub fn lock_range_to_abs(flock: &Flock, position: Result<u64, SysError>, file_len: u64) -> (r: Result<
    (u64, Option<u64>),
    SysError,
>)
    ensures
        r == abs_lock_range(flock.l_whence, flock.l_start, flock.l_len, position, file_len),
        r matches Ok((s, e)) ==> range_nonempty(s, e),
{
    let base: u64 = if flock.l_whence == SEEK_SET {
        0
    } else if flock.l_whence == SEEK_CUR {
        match position {
            Ok(p) => p,
            Err(e) => return Err(e),
        }
    } else if flock.l_whence == SEEK_END {
        file_len
    } else {
        return Err(SysError::InvalidInput);
    };
    let start: u64 = if flock.l_start >= 0 {
        let d = flock.l_start as u64;
        if base > u64::MAX - d {
            return Err(SysError::InvalidInput);
        }
        base + d
    } else {
        let d: u64 = if flock.l_start == i64::MIN {
            0x8000_0000_0000_0000u64
        } else {
            (-flock.l_start) as u64
        };
        if base < d {
            return Err(SysError::InvalidInput);
        }
        base - d
    };
    if flock.l_len == 0 {
        Ok((start, None))
    } else if flock.l_len > 0 {
        let len = flock.l_len as u64;
        if start > u64::MAX - len {
            return Err(SysError::InvalidInput);
        }
        Ok((start, Some(start + len)))
    } else {
        Err(SysError::InvalidInput)
    }
}

/// The range `[start, end)` that a lock request designates.
pub fn map_lock_range(flock: &Flock, position: Result<u64, SysError>, file_len: u64) -> (r: Result<
    (u64, Option<u64>),
    SysError,
>)
    ensures
        r == abs_lock_range(flock.l_whence, flock.l_start, flock.l_len, position, file_len),
        r matches Ok((s, e)) ==> range_nonempty(s, e),
{
    lock_range_to_abs(flock, position, file_len)
}

/// Whether two ranges overlap.
pub fn overlap(a_start: u64, a_end: Option<u64>, b_start: u64, b_end: Option<u64>) -> (r: bool)
    ensures
        r == ranges_overlap(a_start, a_end, b_start, b_end),
{
    if let Some(a_end) = a_end {
        if b_start >= a_end {
            return false;
        }
    }
    if let Some(b_end) = b_end {
        if a_start >= b_end {
            return false;
        }
    }
    true
}

/// Whether a range that ends at `end` reaches beyond `point`.
pub fn range_extends_past(end: Option<u64>, point: u64) -> (r: bool)
    ensures
        r == match end {
            Some(e) => e > point,
            None => true,
        },
{
    match end {
        Some(end) => end > point,
        None => true,
    }
}

/// Whether a request of type `query_type` conflicts with a held lock of type
/// `existing_type`.
pub fn locks_conflict(query_type: i16, existing_type: i16) -> (r: bool)
    ensures
        r == types_conflict(query_type, existing_type),
{
    query_type == F_WRLCK || existing_type == F_WRLCK
}

/// The parts of `lock` outside `[start, end)`: the whole lock if it does not
/// overlap the range, otherwise the piece before the range (if any), then
/// the piece after it (if any).
pub open spec fn unlocked_segments(lock: FileLock, start: u64, end: Option<u64>) -> Seq<FileLock> {
    if !ranges_overlap(start, end, lock.start, lock.end) {
        seq![lock]
    } else {
        let left: Seq<FileLock> = if lock.start < start {
            seq![FileLock { start: lock.start, end: Some(start), ..lock }]
        } else {
            Seq::empty()
        };
        let right: Seq<FileLock> = match end {
            Some(e) => if (match lock.end {
                Some(le) => le > e,
                None => true,
            }) {
                seq![FileLock { start: e, end: lock.end, ..lock }]
            } else {
                Seq::empty()
            },
            None => Seq::empty(),
        };
        left + right
    }
}

/// Appends to `out` the parts of `lock` that lie outside `[start, end)`.
pub fn retain_unlocked_segments(lock: FileLock, start: u64, end: Option<u64>, out: &mut Vec<FileLock>)
    requires
        range_nonempty(lock.start, lock.end),
    ensures
        final(out)@ == old(out)@ + unlocked_segments(lock, start, end),
        old(out)@.len() <= final(out)@.len() <= old(out)@.len() + 2,
        final(out)@.subrange(0, old(out)@.len() as int) == old(out)@,
        forall|i: int|
            old(out)@.len() <= i < final(out)@.len() ==> #[trigger] final(out)@[i].pid == lock.pid
                && final(out)@[i].typ == lock.typ && range_nonempty(final(out)@[i].start, final(out)@[i].end),
        forall|p: u64, t: i16, x: int|
            #![trigger owner_covers(final(out)@, p, t, x)]
            owner_covers(final(out)@, p, t, x) <==> (owner_covers(old(out)@, p, t, x) || (p == lock.pid
                && t == lock.typ && covers(lock, x) && !range_contains(start, end, x))),
{
    let ghost s0 = out@;
    if !overlap(start, end, lock.start, lock.end) {
        proof {
            lemma_owner_covers_push(s0, lock);
            assert forall|x: int| covers(lock, x) implies !range_contains(start, end, x) by {}
        }
        out.push(lock);
        return;
    }
    let ghost s1 = out@;
    if lock.start < start {
        let left = FileLock { start: lock.start, end: Some(start), ..lock };
        proof {
            lemma_owner_covers_push(s0, left);
        }
        out.push(left);
    }
    let ghost s2 = out@;
    let mut pushed_right = false;
    if let Some(end) = end {
        if range_extends_past(lock.end, end) {
            let right = FileLock { start: end, end: lock.end, ..lock };
            proof {
                lemma_owner_covers_push(s2, right);
            }
            out.push(right);
            pushed_right = true;
        }
    }
    proof {
        assert(out@.subrange(0, s0.len() as int) =~= s0);
        assert forall|p: u64, t: i16, x: int| #![trigger owner_covers(out@, p, t, x)]
            owner_covers(out@, p, t, x) <==> (owner_covers(s0, p, t, x) || (p == lock.pid && t
                == lock.typ && covers(lock, x) && !range_contains(start, end, x))) by {
            if p == lock.pid && t == lock.typ && covers(lock, x) && !range_contains(start, end, x) {
                if x < start {
                    assert(lock.start < start);
                } else {
                    assert(pushed_right);
                }
            }
        }
    }
}

// ----------------------------------------------------------------------------
// Merging
// ----------------------------------------------------------------------------

/// The key by which locks are sorted before merging.
fn owner_sort_key(l: &FileLock) -> (r: (u64, i16, u64, u64))
    ensures
        r == (l.pid, l.typ, l.start, end_key(l.end)),
{
    let e = match l.end {
        Some(e) => e,
        None => u64::MAX,
    };
    (l.pid, l.typ, l.start, e)
}

/// Sorts the locks with `slice::sort_by_key` on `owner_sort_key`. As std
/// documents, the result holds the same elements in ascending key order;
/// tuples compare lexicographically, which `owner_le` spells out.
#[verifier::external_body]
fn sort_by_owner(locks: &mut Vec<FileLock>)
    ensures
        final(locks)@.to_multiset() == old(locks)@.to_multiset(),
        forall|i: int, j: int|
            0 <= i < j < final(locks)@.len() ==> owner_le(#[trigger] final(locks)@[i], #[trigger] final(locks)@[j]),
{
    locks.sort_by_key(|l| owner_sort_key(l));
}

/// Sorts the locks by owner and fuses each owner's locks of one type that
/// overlap or touch. The bytes each owner holds under each type do not change.
pub fn merge_same_owner_locks(locks: &mut Vec<FileLock>)
    requires
        all_nonempty(old(locks)@),
    ensures
        all_nonempty(final(locks)@),
        merged_form(final(locks)@),
        forall|p: u64, t: i16, x: int|
            #![trigger owner_covers(final(locks)@, p, t, x)]
            owner_covers(final(locks)@, p, t, x) <==> owner_covers(old(locks)@, p, t, x),
{
    let ghost orig = locks@;
    sort_by_owner(locks);
    proof {
        orig.to_multiset_ensures();
        locks@.to_multiset_ensures();
        assert forall|l: FileLock| orig.contains(l) <==> locks@.contains(l) by {
            assert(orig.to_multiset().count(l) == locks@.to_multiset().count(l));
        }
        lemma_owner_covers_same_elements(orig, locks@);
        assert forall|i: int| 0 <= i < locks@.len() implies #[trigger] range_nonempty(
            locks@[i].start,
            locks@[i].end,
        ) by {
            assert(locks@.contains(locks@[i]));
            assert(orig.contains(locks@[i]));
            let j = choose|j: int| 0 <= j < orig.len() && orig[j] == locks@[i];
            assert(range_nonempty(orig[j].start, orig[j].end));
        }
    }
    let ghost s = locks@;
    let mut merged: Vec<FileLock> = Vec::with_capacity(locks.len());
    let mut i: usize = 0;
    while i < locks.len()
        invariant
            locks@ == s,
            0 <= i <= s.len(),
            all_nonempty(s),
            all_nonempty(merged@),
            forall|a: int, b: int| 0 <= a < b < s.len() ==> owner_le(#[trigger] s[a], #[trigger] s[b]),
            forall|p: u64, t: i16, x: int|
                #![trigger owner_covers(merged@, p, t, x)]
                owner_covers(merged@, p, t, x) <==> owner_covers(s.take(i as int), p, t, x),
            merged_form(merged@),
            i == 0 ==> merged@.len() == 0,
            i > 0 ==> merged@.len() > 0 && merged@.last().pid == s[i - 1].pid && merged@.last().typ
                == s[i - 1].typ && merged@.last().start <= s[i - 1].start,
        decreases s.len() - i,
    {
        let lock = locks[i];
        proof {
            assert(s.take(i + 1) =~= s.take(i as int).push(lock));
            lemma_owner_covers_push(s.take(i as int), lock);
            assert(range_nonempty(s[i as int].start, s[i as int].end));
        }
        let n = merged.len();
        let mut fused = false;
        if n > 0 {
            let prev = merged[n - 1];
            let same_owner = prev.pid == lock.pid && prev.typ == lock.typ;
            let touching = match prev.end {
                Some(prev_end) => lock.start <= prev_end,
                None => true,
            };
            if same_owner && touching {
                proof {
                    assert(owner_le(s[i - 1], s[i as int]));
                    assert(prev.start <= lock.start);
                }
                let new_end = match (prev.end, lock.end) {
                    (None, _) => None,
                    (_, None) => None,
                    (Some(a), Some(b)) => Some(if a >= b { a } else { b }),
                };
                let widened = FileLock { end: new_end, ..prev };
                proof {
                    assert(merged@.last() == prev);
                    lemma_owner_covers_widen_last(merged@, widened, lock);
                }
                let ghost m0 = merged@;
                merged.set(n - 1, widened);
                proof {
                    assert(end_key(prev.end) <= end_key(widened.end));
                    assert forall|a: int, b: int|
                        0 <= a && b == a + 1 && b < merged@.len() implies owner_le(
                        #[trigger] merged@[a],
                        #[trigger] merged@[b],
                    ) && owners_separated(merged@[a], merged@[b]) by {
                        assert(owner_le(m0[a], m0[b]) && owners_separated(m0[a], m0[b]));
                    }
                }
                fused = true;
            }
        }
        if !fused {
            proof {
                lemma_owner_covers_push(merged@, lock);
                if n > 0 {
                    let last = merged@.last();
                    assert(owner_le(s[i - 1], s[i as int]));
                    assert(range_nonempty(last.start, last.end));
                    assert(owner_le(last, lock));
                    assert(owners_separated(last, lock));
                }
            }
            let ghost m0 = merged@;
            merged.push(lock);
            proof {
                assert forall|a: int, b: int|
                    0 <= a && b == a + 1 && b < merged@.len() implies owner_le(
                    #[trigger] merged@[a],
                    #[trigger] merged@[b],
                ) && owners_separated(merged@[a], merged@[b]) by {
                    if b < m0.len() {
                        assert(owner_le(m0[a], m0[b]) && owners_separated(m0[a], m0[b]));
                    } else {
                        assert(merged@[a] == m0.last());
                    }
                }
            }
        }
        i += 1;
    }
    proof {
        assert(s.take(s.len() as int) =~= s);
    }
    *locks = merged;
}


// ----------------------------------------------------------------------------
// Conflict search
// ----------------------------------------------------------------------------

/// Whether `a` is reported before `b` and not tied with it.
fn report_before(a: &FileLock, b: &FileLock) -> (r: bool)
    ensures
        r == !report_le(*b, *a),
{
    let ae = match a.end {
        Some(e) => e,
        None => u64::MAX,
    };
    let be = match b.end {
        Some(e) => e,
        None => u64::MAX,
    };
    a.start < b.start || (a.start == b.start && (ae < be || (ae == be && a.pid < b.pid)))
}

/// The conflicting lock that a request by `pid` for `typ` on `[start, end)`
/// meets first: the least by start, end and pid, the earliest of ties.
fn find_conflict(locks: &Vec<FileLock>, pid: u64, start: u64, end: Option<u64>, typ: i16) -> (r:
    Option<FileLock>)
    ensures
        match r {
            None => no_conflict(locks@, pid, start, end, typ),
            Some(c) => reported_conflict(locks@, c, pid, start, end, typ),
        },
{
    let mut best: Option<FileLock> = None;
    let mut i: usize = 0;
    while i < locks.len()
        invariant
            0 <= i <= locks@.len(),
            match best {
                None => no_conflict(locks@.take(i as int), pid, start, end, typ),
                Some(c) => reported_conflict(locks@.take(i as int), c, pid, start, end, typ),
            },
        decreases locks@.len() - i,
    {
        let l = locks[i];
        let ghost pre = locks@.take(i as int);
        let ghost post = locks@.take(i + 1);
        proof {
            assert(post =~= pre.push(l));
        }
        if l.pid != pid && overlap(start, end, l.start, l.end) && locks_conflict(typ, l.typ) {
            let better = match best {
                None => true,
                Some(c) => report_before(&l, &c),
            };
            if better {
                proof {
                    assert(post[i as int] == l);
                    assert forall|j: int| #![trigger post[j]]
                        0 <= j < post.len() && is_conflict(post[j], pid, start, end, typ) implies report_le(
                        l,
                        post[j],
                    ) by {
                        if j < i {
                            assert(post[j] == pre[j]);
                            if let Some(c) = best {
                                let k = choose|k: int|
                                    #![trigger pre[k]]
                                    0 <= k < pre.len() && pre[k] == c && is_conflict(c, pid, start, end, typ)
                                        && (forall|j: int|
                                        #![trigger pre[j]]
                                        0 <= j < pre.len() && is_conflict(pre[j], pid, start, end, typ)
                                            ==> report_le(c, pre[j])) && (forall|j: int|
                                        #![trigger pre[j]]
                                        0 <= j < k && is_conflict(pre[j], pid, start, end, typ)
                                            ==> !report_le(pre[j], c));
                                assert(report_le(c, pre[j]));
                            } else {
                                assert(!is_conflict(pre[j], pid, start, end, typ));
                            }
                        }
                    }
                    assert forall|j: int| #![trigger post[j]]
                        0 <= j < i && is_conflict(post[j], pid, start, end, typ) implies !report_le(
                        post[j],
                        l,
                    ) by {
                        assert(post[j] == pre[j]);
                        if let Some(c) = best {
                            let k = choose|k: int|
                                #![trigger pre[k]]
                                0 <= k < pre.len() && pre[k] == c && is_conflict(c, pid, start, end, typ)
                                    && (forall|j: int|
                                    #![trigger pre[j]]
                                    0 <= j < pre.len() && is_conflict(pre[j], pid, start, end, typ)
                                        ==> report_le(c, pre[j])) && (forall|j: int|
                                    #![trigger pre[j]]
                                    0 <= j < k && is_conflict(pre[j], pid, start, end, typ) ==> !report_le(
                                    pre[j],
                                    c,
                                ));
                            assert(report_le(c, pre[j]));
                        } else {
                            assert(!is_conflict(pre[j], pid, start, end, typ));
                        }
                    }
                }
                best = Some(l);
            } else {
                proof {
                    let c = best.unwrap();
                    let k = choose|k: int|
                        #![trigger pre[k]]
                        0 <= k < pre.len() && pre[k] == c && is_conflict(c, pid, start, end, typ) && (forall|
                            j: int,
                        |
                            #![trigger pre[j]]
                            0 <= j < pre.len() && is_conflict(pre[j], pid, start, end, typ) ==> report_le(
                                c,
                                pre[j],
                            )) && (forall|j: int|
                            #![trigger pre[j]]
                            0 <= j < k && is_conflict(pre[j], pid, start, end, typ) ==> !report_le(pre[j], c));
                    assert(post[k] == c);
                    assert forall|j: int| #![trigger post[j]]
                        0 <= j < post.len() && is_conflict(post[j], pid, start, end, typ) implies report_le(
                        c,
                        post[j],
                    ) by {
                        if j < i {
                            assert(post[j] == pre[j]);
                        }
                    }
                    assert forall|j: int| #![trigger post[j]]
                        0 <= j < k && is_conflict(post[j], pid, start, end, typ) implies !report_le(
                        post[j],
                        c,
                    ) by {
                        assert(post[j] == pre[j]);
                    }
                }
            }
        } else {
            proof {
                assert(!is_conflict(post[i as int], pid, start, end, typ));
                match best {
                    None => {
                        assert forall|j: int| 0 <= j < post.len() implies !is_conflict(
                            #[trigger] post[j],
                            pid,
                            start,
                            end,
                            typ,
                        ) by {
                            if j < i {
                                assert(post[j] == pre[j]);
                            }
                        }
                    },
                    Some(c) => {
                        let k = choose|k: int|
                            #![trigger pre[k]]
                            0 <= k < pre.len() && pre[k] == c && is_conflict(c, pid, start, end, typ) && (
                            forall|j: int|
                                #![trigger pre[j]]
                                0 <= j < pre.len() && is_conflict(pre[j], pid, start, end, typ) ==> report_le(
                                    c,
                                    pre[j],
                                )) && (forall|j: int|
                                #![trigger pre[j]]
                                0 <= j < k && is_conflict(pre[j], pid, start, end, typ) ==> !report_le(
                                    pre[j],
                                    c,
                                ));
                        assert(post[k] == c);
                        assert forall|j: int| #![trigger post[j]]
                            0 <= j < post.len() && is_conflict(post[j], pid, start, end, typ) implies report_le(
                            c,
                            post[j],
                        ) by {
                            if j < i {
                                assert(post[j] == pre[j]);
                            }
                        }
                        assert forall|j: int| #![trigger post[j]]
                            0 <= j < k && is_conflict(post[j], pid, start, end, typ) implies !report_le(
                            post[j],
                            c,
                        ) by {
                            assert(post[j] == pre[j]);
                        }
                    },
                }
            }
        }
        i += 1;
    }
    proof {
        assert(locks@.take(locks@.len() as int) =~= locks@);
    }
    best
}


// ----------------------------------------------------------------------------
// The lock table
// ----------------------------------------------------------------------------

/// The record locks of every inode, keyed by inode number.
pub struct LockTable {
    locks: BTreeMap<u64, Vec<FileLock>>,
}

impl View for LockTable {
    type V = Map<u64, Seq<FileLock>>;

    closed spec fn view(&self) -> Map<u64, Seq<FileLock>> {
        self.locks@.map_values(|v: Vec<FileLock>| v@)
    }
}

pub open spec fn without_pid(locks: Seq<FileLock>, pid: u64) -> Seq<FileLock> {
    locks.filter(|l: FileLock| l.pid != pid)
}

/// The sequence `s` with the locks of `pid` left out.
fn retain_other_pids(v: &Vec<FileLock>, pid: u64) -> (r: Vec<FileLock>)
    ensures
        r@ == without_pid(v@, pid),
{
    let mut r: Vec<FileLock> = Vec::new();
    let mut i: usize = 0;
    while i < v.len()
        invariant
            0 <= i <= v@.len(),
            r@ == without_pid(v@.take(i as int), pid),
        decreases v@.len() - i,
    {
        proof {
            assert(v@.take(i + 1) =~= v@.take(i as int).push(v@[i as int]));
            v@.take(i as int).lemma_filter_push(v@[i as int], |l: FileLock| l.pid != pid);
        }
        if v[i].pid != pid {
            r.push(v[i]);
        }
        i += 1;
    }
    proof {
        assert(v@.take(v@.len() as int) =~= v@);
    }
    r
}

/// The keys of a map, each once.
fn table_keys(m: &BTreeMap<u64, Vec<FileLock>>) -> (r: Vec<u64>)
    ensures
        r@.to_set() == m@.dom(),
{
    broadcast use vstd::std_specs::btree::axiom_spec_keys_iter;

    let ghost all = vstd::std_specs::btree::spec_keys_iter(m).remaining();
    let mut r: Vec<u64> = Vec::new();
    for k in it: m.keys()
        invariant
            it.seq() == all,
            r@ == it.seq().take(it.index()).map_values(|k: &u64| *k),
    {
        proof {
            assert(it.seq().take(it.index() + 1) =~= it.seq().take(it.index()).push(k));
        }
        r.push(*k);
    }
    proof {
        assert(r@.len() == all.len());
        assert(r@ =~= all.unref());
    }
    r
}

/// What `set_file_lock` does to the table `old`, giving `new` and returning `r`.
pub open spec fn set_lock_outcome(
    old: LockTable,
    new: LockTable,
    key: u64,
    pid: u64,
    flock: Flock,
    position: Result<u64, SysError>,
    file_len: u64,
    r: Result<Option<FileLock>, SysError>,
) -> bool {
    match abs_lock_range(flock.l_whence, flock.l_start, flock.l_len, position, file_len) {
        Err(e) => r == Err::<Option<FileLock>, SysError>(e) && new@ == old@,
        Ok((s, e)) => {
            &&& new@.dom() == old@.dom().insert(key)
            &&& new@.remove(key) == old@.remove(key)
            &&& if flock.l_type != F_UNLCK && flock.l_type != F_RDLCK && flock.l_type != F_WRLCK {
                r == Err::<Option<FileLock>, SysError>(SysError::InvalidInput)
                    && new.locks_of(key) == old.locks_of(key)
            } else if !no_conflict(old.locks_of(key), pid, s, e, flock.l_type) {
                &&& r matches Ok(Some(c)) && reported_conflict(
                    old.locks_of(key),
                    c,
                    pid,
                    s,
                    e,
                    flock.l_type,
                )
                &&& new.locks_of(key) == old.locks_of(key)
            } else {
                &&& r == Ok::<Option<FileLock>, SysError>(None)
                &&& merged_form(new.locks_of(key))
                &&& forall|p: u64, t: i16, x: int|
                    #![trigger owner_covers(new.locks_of(key), p, t, x)]
                    owner_covers(new.locks_of(key), p, t, x) <==> covers_after_set(
                        old.locks_of(key),
                        pid,
                        s,
                        e,
                        flock.l_type,
                        p,
                        t,
                        x,
                    )
            }
        },
    }
}

/// What `get_file_lock` on table `t` writes into the request `old_flock`,
/// giving `new_flock` and returning `r`.
pub open spec fn get_lock_outcome(
    t: LockTable,
    key: u64,
    pid: u64,
    old_flock: Flock,
    new_flock: Flock,
    position: Result<u64, SysError>,
    file_len: u64,
    r: Result<(), SysError>,
) -> bool {
    match abs_lock_range(
        old_flock.l_whence,
        old_flock.l_start,
        old_flock.l_len,
        position,
        file_len,
    ) {
        Err(e) => r == Err::<(), SysError>(e) && new_flock == old_flock,
        Ok((s, e)) => r == Ok::<(), SysError>(()) && if no_conflict(
            t.locks_of(key),
            pid,
            s,
            e,
            old_flock.l_type,
        ) {
            new_flock == (Flock { l_type: F_UNLCK, ..old_flock })
        } else {
            exists|c: FileLock|
                reported_conflict(t.locks_of(key), c, pid, s, e, old_flock.l_type)
                    && new_flock == (Flock {
                    l_type: c.typ,
                    l_start: c.start as i64,
                    l_len: match c.end {
                        Some(end) => (end - c.start) as i64,
                        None => 0i64,
                    },
                    l_pid: c.pid as i32,
                    ..old_flock
                })
        },
    }
}

impl LockTable {
    /// Every stored lock covers at least one byte.
    pub open spec fn wf(&self) -> bool {
        forall|k: u64| #[trigger] self@.contains_key(k) ==> all_nonempty(self@[k])
    }

    /// The locks on inode `key`.
    pub open spec fn locks_of(&self, key: u64) -> Seq<FileLock> {
        if self@.contains_key(key) {
            self@[key]
        } else {
            Seq::empty()
        }
    }

    /// A table without locks.
    pub fn new() -> (r: Self)
        ensures
            r@ == Map::<u64, Seq<FileLock>>::empty(),
            r.wf(),
    {
        let r = LockTable { locks: BTreeMap::new() };
        proof {
            assert(r@ =~= Map::<u64, Seq<FileLock>>::empty());
        }
        r
    }

    /// Takes the locks of inode `key` out of the table.
    fn take_locks(&mut self, key: u64) -> (r: Vec<FileLock>)
        ensures
            r@ == old(self).locks_of(key),
            final(self)@ == old(self)@.remove(key),
    {
        let r = match self.locks.remove(&key) {
            Some(v) => v,
            None => Vec::new(),
        };
        proof {
            assert(self@ =~= old(self)@.remove(key));
        }
        r
    }

    /// Stores `v` as the locks of inode `key`.
    fn put_locks(&mut self, key: u64, v: Vec<FileLock>)
        ensures
            final(self)@ == old(self)@.insert(key, v@),
    {
        self.locks.insert(key, v);
        proof {
            assert(self@ =~= old(self)@.insert(key, v@));
        }
    }

    /// The lock that stands in the way of the request `flock` by `pid` on inode
    /// `key`, if any. The request's range is made absolute with the file's
    /// position and length.
    pub fn conflicting_lock(
        &self,
        key: u64,
        pid: u64,
        flock: &Flock,
        position: Result<u64, SysError>,
        file_len: u64,
    ) -> (r: Result<Option<FileLock>, SysError>)
        ensures
            match abs_lock_range(flock.l_whence, flock.l_start, flock.l_len, position, file_len) {
                Err(e) => r == Err::<Option<FileLock>, SysError>(e),
                Ok((s, e)) => match r {
                    Ok(None) => no_conflict(self.locks_of(key), pid, s, e, flock.l_type),
                    Ok(Some(c)) => reported_conflict(self.locks_of(key), c, pid, s, e, flock.l_type),
                    Err(_) => false,
                },
            },
    {
        let (start, end) = match map_lock_range(flock, position, file_len) {
            Ok(r) => r,
            Err(e) => return Err(e),
        };
        match self.locks.get(&key) {
            Some(locks) => Ok(find_conflict(locks, pid, start, end, flock.l_type)),
            None => Ok(None),
        }
    }

    /// `F_GETLK`: reports in `flock` the first lock that would block the
    /// request, or sets its type to `F_UNLCK` when nothing would.
    pub fn get_file_lock(
        &self,
        key: u64,
        pid: u64,
        flock: &mut Flock,
        position: Result<u64, SysError>,
        file_len: u64,
    ) -> (r: Result<(), SysError>)
        requires
            self.wf(),
        ensures
            get_lock_outcome(*self, key, pid, *old(flock), *final(flock), position, file_len, r),
    {
        match self.conflicting_lock(key, pid, flock, position, file_len) {
            Err(e) => Err(e),
            Ok(Some(lock)) => {
                proof {
                    let locks = self.locks_of(key);
                    let k = choose|k: int|
                        #![trigger locks[k]]
                        0 <= k < locks.len() && locks[k] == lock;
                    assert(all_nonempty(locks));
                    assert(range_nonempty(locks[k].start, locks[k].end));
                }
                let len: i64 = match lock.end {
                    Some(end) => {
                        if end < lock.start {
                            return Err(SysError::InvalidInput);
                        }
                        (end - lock.start) as i64
                    },
                    None => 0,
                };
                flock.l_type = lock.typ;
                flock.l_start = lock.start as i64;
                flock.l_len = len;
                flock.l_pid = lock.pid as i32;
                Ok(())
            },
            Ok(None) => {
                flock.l_type = F_UNLCK;
                Ok(())
            },
        }
    }

    /// `F_SETLK`: sets (or, with `F_UNLCK`, removes) the lock `flock` asks for
    /// on inode `key` on behalf of `pid`. When another process holds a lock
    /// in the way, nothing changes and that lock is returned.
    pub fn set_file_lock(
        &mut self,
        key: u64,
        pid: u64,
        flock: &Flock,
        position: Result<u64, SysError>,
        file_len: u64,
    ) -> (r: Result<Option<FileLock>, SysError>)
        requires
            old(self).wf(),
        ensures
            final(self).wf(),
            set_lock_outcome(*old(self), *final(self), key, pid, *flock, position, file_len, r),
    {
        let (start, end) = match map_lock_range(flock, position, file_len) {
            Ok(r) => r,
            Err(e) => return Err(e),
        };
        let ghost old_locks = old(self).locks_of(key);
        let locks = self.take_locks(key);
        if flock.l_type != F_UNLCK && flock.l_type != F_RDLCK && flock.l_type != F_WRLCK {
            self.put_locks(key, locks);
            proof {
                assert(self@.remove(key) =~= old(self)@.remove(key));
                assert(self@.dom() =~= old(self)@.dom().insert(key));
                assert(self.locks_of(key) == old(self).locks_of(key));
            }
            return Err(SysError::InvalidInput);
        }
        if let Some(conflict) = find_conflict(&locks, pid, start, end, flock.l_type) {
            self.put_locks(key, locks);
            proof {
                assert(self@.remove(key) =~= old(self)@.remove(key));
                assert(self@.dom() =~= old(self)@.dom().insert(key));
                assert(self.locks_of(key) == old(self).locks_of(key));
            }
            return Ok(Some(conflict));
        }
        let mut updated: Vec<FileLock> = Vec::new();
        let mut i: usize = 0;
        while i < locks.len()
            invariant
                locks@ == old_locks,
                all_nonempty(old_locks),
                0 <= i <= old_locks.len(),
                all_nonempty(updated@),
                forall|p: u64, t: i16, x: int|
                    #![trigger owner_covers(updated@, p, t, x)]
                    owner_covers(updated@, p, t, x) <==> (owner_covers(old_locks.take(i as int), p, t, x)
                        && !(p == pid && range_contains(start, end, x))),
            decreases old_locks.len() - i,
        {
            let lock = locks[i];
            let ghost before = updated@;
            proof {
                assert(old_locks.take(i + 1) =~= old_locks.take(i as int).push(lock));
                lemma_owner_covers_push(old_locks.take(i as int), lock);
                assert(range_nonempty(old_locks[i as int].start, old_locks[i as int].end));
            }
            if lock.pid == pid {
                retain_unlocked_segments(lock, start, end, &mut updated);
                proof {
                    assert forall|j: int| 0 <= j < updated@.len() implies #[trigger] range_nonempty(
                        updated@[j].start,
                        updated@[j].end,
                    ) by {
                        if j < before.len() {
                            let sub = updated@.subrange(0, before.len() as int);
                            assert(sub == before);
                            assert(sub[j] == updated@[j]);
                            assert(range_nonempty(before[j].start, before[j].end));
                        } else {
                            assert(updated@[j].pid == lock.pid);
                        }
                    }
                }
            } else {
                proof {
                    lemma_owner_covers_push(before, lock);
                }
                updated.push(lock);
            }
            i += 1;
        }
        proof {
            assert(old_locks.take(old_locks.len() as int) =~= old_locks);
        }
        if flock.l_type != F_UNLCK {
            let ghost before = updated@;
            let new_lock = FileLock { pid, start, end, typ: flock.l_type };
            proof {
                lemma_owner_covers_push(before, new_lock);
            }
            updated.push(new_lock);
        }
        merge_same_owner_locks(&mut updated);
        self.put_locks(key, updated);
        proof {
            assert(self@.remove(key) =~= old(self)@.remove(key));
            assert(self@.dom() =~= old(self)@.dom().insert(key));
        }
        Ok(None)
    }

    /// Drops every lock that process `pid` holds, on any inode.
    pub fn release_locks_for_pid(&mut self, pid: u64)
        requires
            old(self).wf(),
        ensures
            final(self).wf(),
            final(self)@ == old(self)@.map_values(|s: Seq<FileLock>| without_pid(s, pid)),
    {
        let ghost ov = self@;
        let keys = table_keys(&self.locks);
        let ghost keyset = keys@.to_set();
        let mut i: usize = 0;
        while i < keys.len()
            invariant
                keys@.to_set() == ov.dom(),
                self@.dom() == ov.dom(),
                0 <= i <= keys@.len(),
                forall|k: u64| #[trigger] ov.contains_key(k) ==> all_nonempty(ov[k]),
                forall|k: u64|
                    #[trigger] self@.contains_key(k) ==> self@[k] == if keys@.take(i as int).contains(k) {
                        without_pid(ov[k], pid)
                    } else {
                        ov[k]
                    },
            decreases keys@.len() - i,
        {
            let k = keys[i];
            proof {
                assert(keys@.contains(k));
                assert(keys@.to_set().contains(k));
            }
            let locks = self.take_locks(k);
            let kept = retain_other_pids(&locks, pid);
            self.put_locks(k, kept);
            proof {
                assert(keys@.take(i + 1) =~= keys@.take(i as int).push(k));
                assert forall|k2: u64| #[trigger] self@.contains_key(k2) implies self@[k2] == if keys@.take(
                    i + 1,
                ).contains(k2) {
                    without_pid(ov[k2], pid)
                } else {
                    ov[k2]
                } by {
                    if k2 != k {
                        assert(keys@.take(i + 1).contains(k2) == keys@.take(i as int).contains(k2));
                    } else {
                        assert(keys@.take(i + 1)[i as int] == k);
                        if keys@.take(i as int).contains(k) {
                            let j = choose|j: int| 0 <= j < i && keys@.take(i as int)[j] == k;
                            assert(keys@[j] == k);
                            // keys are distinct: a repeated key would only filter twice
                            without_pid(ov[k], pid).lemma_filter_len(|l: FileLock| l.pid != pid);
                            assert(without_pid(without_pid(ov[k], pid), pid) =~= without_pid(
                                ov[k],
                                pid,
                            )) by {
                                lemma_filter_idempotent(ov[k], pid);
                            }
                        }
                    }
                }
            }
            i += 1;
        }
        proof {
            assert(keys@.take(keys@.len() as int) =~= keys@);
            assert forall|k: u64| #[trigger] self@.contains_key(k) implies all_nonempty(self@[k]) by {
                assert(keys@.contains(k)) by {
                    assert(keys@.to_set().contains(k));
                }
                lemma_filter_keeps_nonempty(ov[k], pid);
            }
            assert(self@ =~= ov.map_values(|s: Seq<FileLock>| without_pid(s, pid))) by {
                assert forall|k: u64| #[trigger] self@.contains_key(k) implies self@[k] == without_pid(
                    ov[k],
                    pid,
                ) by {
                    assert(keys@.to_set().contains(k));
                    assert(keys@.contains(k));
                }
            }
        }
    }

    /// Drops the locks that process `pid` holds on inode `key`, as when it
    /// closes a descriptor of that file.
    pub fn release_inode_locks(&mut self, key: u64, pid: u64)
        requires
            old(self).wf(),
        ensures
            final(self).wf(),
            final(self)@ == if old(self)@.contains_key(key) {
                old(self)@.insert(key, without_pid(old(self)@[key], pid))
            } else {
                old(self)@
            },
    {
        if self.locks.contains_key(&key) {
            let locks = self.take_locks(key);
            let kept = retain_other_pids(&locks, pid);
            self.put_locks(key, kept);
            proof {
                lemma_filter_keeps_nonempty(old(self)@[key], pid);
                assert(self@ =~= old(self)@.insert(key, without_pid(old(self)@[key], pid)));
            }
        }
    }
}

proof fn lemma_filter_idempotent(s: Seq<FileLock>, pid: u64)
    ensures
        without_pid(without_pid(s, pid), pid) == without_pid(s, pid),
    decreases s.len(),
{
    let f = |l: FileLock| l.pid != pid;
    if s.len() > 0 {
        let s0 = s.drop_last();
        assert(s =~= s0.push(s.last()));
        lemma_filter_idempotent(s0, pid);
        s0.lemma_filter_push(s.last(), f);
        s0.filter(f).lemma_filter_push(s.last(), f);
    } else {
        assert(s.filter(f) =~= s);
    }
}

proof fn lemma_filter_keeps_nonempty(s: Seq<FileLock>, pid: u64)
    requires
        all_nonempty(s),
    ensures
        all_nonempty(without_pid(s, pid)),
{
    let f = |l: FileLock| l.pid != pid;
    let r = s.filter(f);
    assert forall|i: int| 0 <= i < r.len() implies #[trigger] range_nonempty(r[i].start, r[i].end) by {
        s.lemma_filter_contains_rev(f, r[i]);
        assert(r.contains(r[i]));
        let j = choose|j: int| 0 <= j < s.len() && s[j] == r[i];
        assert(range_nonempty(s[j].start, s[j].end));
    }
}


// ----------------------------------------------------------------------------
// Laws
// ----------------------------------------------------------------------------

/// Once `pid` holds a write lock on `[s, e)`, any request by another process
/// over a range that shares a byte with it meets a conflict, whatever its type.
pub proof fn law_write_lock_excludes_others(
    old: Seq<FileLock>,
    new: Seq<FileLock>,
    pid: u64,
    s: u64,
    e: Option<u64>,
    other: u64,
    qs: u64,
    qe: Option<u64>,
    qtyp: i16,
)
    requires
        all_nonempty(new),
        range_nonempty(s, e),
        range_nonempty(qs, qe),
        other != pid,
        ranges_overlap(s, e, qs, qe),
        forall|p: u64, t: i16, x: int|
            #![trigger owner_covers(new, p, t, x)]
            owner_covers(new, p, t, x) <==> covers_after_set(old, pid, s, e, F_WRLCK, p, t, x),
    ensures
        !no_conflict(new, other, qs, qe, qtyp),
{
    lemma_overlap_iff_common_byte(s, e, qs, qe);
    let x = choose|x: int| range_contains(s, e, x) && range_contains(qs, qe, x);
    assert(covers_after_set(old, pid, s, e, F_WRLCK, pid, F_WRLCK, x));
    assert(owner_covers(new, pid, F_WRLCK, x));
    let i = choose|i: int|
        #![trigger new[i]]
        0 <= i < new.len() && new[i].pid == pid && new[i].typ == F_WRLCK && covers(new[i], x);
    lemma_overlap_iff_common_byte(qs, qe, new[i].start, new[i].end);
    assert(is_conflict(new[i], other, qs, qe, qtyp));
}

/// After `pid` unlocks `[s, e)`, it holds no lock of any type on a byte of it,
/// while its locks elsewhere and all locks of other processes stay as they were.
pub proof fn law_unlock_frees_range(old: Seq<FileLock>, new: Seq<FileLock>, pid: u64, s: u64, e: Option<u64>)
    requires
        forall|p: u64, t: i16, x: int|
            #![trigger owner_covers(new, p, t, x)]
            owner_covers(new, p, t, x) <==> covers_after_set(old, pid, s, e, F_UNLCK, p, t, x),
    ensures
        forall|t: i16, x: int| range_contains(s, e, x) ==> !#[trigger] owner_covers(new, pid, t, x),
        forall|p: u64, t: i16, x: int|
            !(p == pid && range_contains(s, e, x)) ==> (#[trigger] owner_covers(new, p, t, x)
                == owner_covers(old, p, t, x)),
{
}

/// Read locks are shared: where every held lock is a read lock, a read
/// request never conflicts.
pub proof fn law_read_locks_are_shared(locks: Seq<FileLock>, pid: u64, s: u64, e: Option<u64>)
    requires
        forall|i: int| 0 <= i < locks.len() ==> #[trigger] locks[i].typ == F_RDLCK,
    ensures
        no_conflict(locks, pid, s, e, F_RDLCK),
{
    assert forall|j: int| 0 <= j < locks.len() implies !is_conflict(#[trigger] locks[j], pid, s, e, F_RDLCK) by {
        assert(locks[j].typ == F_RDLCK);
    }
}

/// Setting the same lock twice leaves the same bytes locked as setting it once.
pub proof fn law_set_lock_idempotent(
    old: Seq<FileLock>,
    once: Seq<FileLock>,
    twice: Seq<FileLock>,
    pid: u64,
    s: u64,
    e: Option<u64>,
    typ: i16,
)
    requires
        forall|p: u64, t: i16, x: int|
            #![trigger owner_covers(once, p, t, x)]
            owner_covers(once, p, t, x) <==> covers_after_set(old, pid, s, e, typ, p, t, x),
        forall|p: u64, t: i16, x: int|
            #![trigger owner_covers(twice, p, t, x)]
            owner_covers(twice, p, t, x) <==> covers_after_set(once, pid, s, e, typ, p, t, x),
    ensures
        forall|p: u64, t: i16, x: int|
            #![trigger owner_covers(twice, p, t, x)]
            owner_covers(twice, p, t, x) == owner_covers(once, p, t, x),
{
}

/// Two locks that both fit the description of the reported conflict are the
/// same lock.
proof fn lemma_reported_conflict_unique(
    locks: Seq<FileLock>,
    c1: FileLock,
    c2: FileLock,
    pid: u64,
    s: u64,
    e: Option<u64>,
    typ: i16,
)
    requires
        reported_conflict(locks, c1, pid, s, e, typ),
        reported_conflict(locks, c2, pid, s, e, typ),
    ensures
        c1 == c2,
{
    let k1 = choose|k: int|
        #![trigger locks[k]]
        0 <= k < locks.len() && locks[k] == c1 && is_conflict(c1, pid, s, e, typ) && (forall|j: int|
            #![trigger locks[j]]
            0 <= j < locks.len() && is_conflict(locks[j], pid, s, e, typ) ==> report_le(c1, locks[j]))
            && (forall|j: int|
            #![trigger locks[j]]
            0 <= j < k && is_conflict(locks[j], pid, s, e, typ) ==> !report_le(locks[j], c1));
    let k2 = choose|k: int|
        #![trigger locks[k]]
        0 <= k < locks.len() && locks[k] == c2 && is_conflict(c2, pid, s, e, typ) && (forall|j: int|
            #![trigger locks[j]]
            0 <= j < locks.len() && is_conflict(locks[j], pid, s, e, typ) ==> report_le(c2, locks[j]))
            && (forall|j: int|
            #![trigger locks[j]]
            0 <= j < k && is_conflict(locks[j], pid, s, e, typ) ==> !report_le(locks[j], c2));
    if k1 < k2 {
        assert(report_le(c1, locks[k2]));
        assert(!report_le(locks[k1], c2));
    } else if k2 < k1 {
        assert(report_le(c2, locks[k1]));
        assert(!report_le(locks[k2], c1));
    }
}

/// `F_GETLK` tells what `F_SETLK` would meet with the same request on the
/// same locks: both fail alike on a bad range; `F_GETLK` answers `F_UNLCK`
/// when the lock would be granted, and otherwise describes the very lock that
/// the request would be refused over.
pub proof fn law_getlk_predicts_setlk(
    t: LockTable,
    after_set: LockTable,
    key: u64,
    pid: u64,
    request: Flock,
    answer: Flock,
    position: Result<u64, SysError>,
    file_len: u64,
    get_result: Result<(), SysError>,
    set_result: Result<Option<FileLock>, SysError>,
)
    requires
        request.l_type == F_RDLCK || request.l_type == F_WRLCK || request.l_type == F_UNLCK,
        get_lock_outcome(t, key, pid, request, answer, position, file_len, get_result),
        set_lock_outcome(t, after_set, key, pid, request, position, file_len, set_result),
    ensures
        get_result matches Err(e) ==> set_result == Err::<Option<FileLock>, SysError>(e),
        set_result is Err ==> get_result is Err,
        set_result == Ok::<Option<FileLock>, SysError>(None) ==> get_result is Ok && answer == (Flock {
            l_type: F_UNLCK,
            ..request
        }),
        set_result matches Ok(Some(c)) ==> answer == (Flock {
            l_type: c.typ,
            l_start: c.start as i64,
            l_len: match c.end {
                Some(end) => (end - c.start) as i64,
                None => 0i64,
            },
            l_pid: c.pid as i32,
            ..request
        }),
{
    match abs_lock_range(request.l_whence, request.l_start, request.l_len, position, file_len) {
        Err(_) => {},
        Ok((s, e)) => {
            let locks = t.locks_of(key);
            if !no_conflict(locks, pid, s, e, request.l_type) {
                let c2 = set_result->Ok_0->Some_0;
                let c1 = choose|c: FileLock|
                    reported_conflict(locks, c, pid, s, e, request.l_type) && answer == (Flock {
                        l_type: c.typ,
                        l_start: c.start as i64,
                        l_len: match c.end {
                            Some(end) => (end - c.start) as i64,
                            None => 0i64,
                        },
                        l_pid: c.pid as i32,
                        ..request
                    });
                lemma_reported_conflict_unique(locks, c1, c2, pid, s, e, request.l_type);
            }
        },
    }
}

proof fn lemma_owner_le_trans(a: FileLock, b: FileLock, c: FileLock)
    requires
        owner_le(a, b),
        owner_le(b, c),
    ensures
        owner_le(a, c),
{
}

/// In merged form, every earlier lock precedes every later one.
proof fn lemma_merged_sorted(s: Seq<FileLock>, i: int, j: int)
    requires
        merged_form(s),
        0 <= i < j < s.len(),
    ensures
        owner_le(s[i], s[j]),
    decreases j - i,
{
    assert(owner_le(s[i], s[i + 1]));
    if i + 1 < j {
        lemma_merged_sorted(s, i + 1, j);
        lemma_owner_le_trans(s[i], s[i + 1], s[j]);
    }
}

/// In merged form, any two locks of one owner and type leave a gap between them.
proof fn lemma_merged_separated(s: Seq<FileLock>, i: int, j: int)
    requires
        merged_form(s),
        all_nonempty(s),
        0 <= i < j < s.len(),
        s[i].pid == s[j].pid,
        s[i].typ == s[j].typ,
    ensures
        s[i].end matches Some(e) && e < s[j].start,
    decreases j - i,
{
    assert(owner_le(s[i], s[i + 1]) && owners_separated(s[i], s[i + 1]));
    if i + 1 < j {
        lemma_merged_sorted(s, i + 1, j);
        assert(s[i + 1].pid == s[i].pid && s[i + 1].typ == s[i].typ);
        lemma_merged_separated(s, i + 1, j);
        assert(range_nonempty(s[i + 1].start, s[i + 1].end));
    }
}

/// Without its first lock, a list in merged form covers what it covered,
/// less the bytes of that first lock for its owner and type.
proof fn lemma_merged_drop_first(s: Seq<FileLock>)
    requires
        merged_form(s),
        all_nonempty(s),
        s.len() > 0,
    ensures
        merged_form(s.drop_first()),
        all_nonempty(s.drop_first()),
        forall|p: u64, t: i16, x: int|
            #![trigger owner_covers(s.drop_first(), p, t, x)]
            owner_covers(s.drop_first(), p, t, x) <==> (owner_covers(s, p, t, x) && !(p == s[0].pid && t
                == s[0].typ && covers(s[0], x))),
{
    let r = s.drop_first();
    assert forall|i: int, j: int| 0 <= i && j == i + 1 && j < r.len() implies owner_le(
        #[trigger] r[i],
        #[trigger] r[j],
    ) && owners_separated(r[i], r[j]) by {
        assert(r[i] == s[i + 1] && r[j] == s[j + 1]);
        assert(owner_le(s[i + 1], s[j + 1]) && owners_separated(s[i + 1], s[j + 1]));
    }
    assert forall|i: int| 0 <= i < r.len() implies #[trigger] range_nonempty(r[i].start, r[i].end) by {
        assert(r[i] == s[i + 1]);
        assert(range_nonempty(s[i + 1].start, s[i + 1].end));
    }
    assert forall|p: u64, t: i16, x: int| #![trigger owner_covers(r, p, t, x)]
        owner_covers(r, p, t, x) <==> (owner_covers(s, p, t, x) && !(p == s[0].pid && t == s[0].typ
            && covers(s[0], x))) by {
        if owner_covers(r, p, t, x) {
            let i = choose|i: int|
                #![trigger r[i]]
                0 <= i < r.len() && r[i].pid == p && r[i].typ == t && covers(r[i], x);
            assert(s[i + 1] == r[i]);
            if p == s[0].pid && t == s[0].typ {
                lemma_merged_separated(s, 0, i + 1);
            }
        }
        if owner_covers(s, p, t, x) && !(p == s[0].pid && t == s[0].typ && covers(s[0], x)) {
            let i = choose|i: int|
                #![trigger s[i]]
                0 <= i < s.len() && s[i].pid == p && s[i].typ == t && covers(s[i], x);
            assert(i > 0);
            assert(r[i - 1] == s[i]);
        }
    }
}

/// The locks kept for an inode are determined by which bytes each process
/// holds under each lock type: two lists in merged form that cover the same
/// bytes for every owner and type are the same list.
pub proof fn law_merged_locks_are_determined(a: Seq<FileLock>, b: Seq<FileLock>)
    requires
        all_nonempty(a),
        all_nonempty(b),
        merged_form(a),
        merged_form(b),
        forall|p: u64, t: i16, x: int| owner_covers(a, p, t, x) == owner_covers(b, p, t, x),
    ensures
        a == b,
    decreases a.len() + b.len(),
{
    if a.len() == 0 && b.len() == 0 {
        assert(a =~= b);
        return;
    }
    if a.len() == 0 {
        assert(range_nonempty(b[0].start, b[0].end));
        assert(owner_covers(b, b[0].pid, b[0].typ, b[0].start as int));
        assert(!owner_covers(a, b[0].pid, b[0].typ, b[0].start as int));
        return;
    }
    if b.len() == 0 {
        assert(range_nonempty(a[0].start, a[0].end));
        assert(owner_covers(a, a[0].pid, a[0].typ, a[0].start as int));
        assert(!owner_covers(b, a[0].pid, a[0].typ, a[0].start as int));
        return;
    }
    let x = a[0];
    let y = b[0];
    assert(range_nonempty(x.start, x.end));
    assert(range_nonempty(y.start, y.end));
    // The first lock of `a` is covered in `b` by some lock of its owner and
    // type, which `y` precedes; and the other way round.
    assert(owner_covers(a, x.pid, x.typ, x.start as int));
    assert(owner_covers(b, x.pid, x.typ, x.start as int));
    let kb = choose|i: int|
        #![trigger b[i]]
        0 <= i < b.len() && b[i].pid == x.pid && b[i].typ == x.typ && covers(b[i], x.start as int);
    if kb > 0 {
        lemma_merged_sorted(b, 0, kb);
    }
    assert(owner_covers(b, y.pid, y.typ, y.start as int));
    assert(owner_covers(a, y.pid, y.typ, y.start as int));
    let ka = choose|i: int|
        #![trigger a[i]]
        0 <= i < a.len() && a[i].pid == y.pid && a[i].typ == y.typ && covers(a[i], y.start as int);
    if ka > 0 {
        lemma_merged_sorted(a, 0, ka);
    }
    assert(x.pid == y.pid && x.typ == y.typ);
    assert(x.start == y.start);
    // Where one of the two first locks ends, its owner holds nothing in its
    // list, so the other one cannot reach beyond it.
    if let Some(ex) = x.end {
        assert(!owner_covers(a, x.pid, x.typ, ex as int)) by {
            if owner_covers(a, x.pid, x.typ, ex as int) {
                let j = choose|i: int|
                    #![trigger a[i]]
                    0 <= i < a.len() && a[i].pid == x.pid && a[i].typ == x.typ && covers(a[i], ex as int);
                if j > 0 {
                    lemma_merged_separated(a, 0, j);
                }
            }
        }
        if !(y.end matches Some(ey) && ey <= ex) {
            assert(covers(y, ex as int));
            assert(owner_covers(b, x.pid, x.typ, ex as int));
        }
    }
    if let Some(ey) = y.end {
        assert(!owner_covers(b, y.pid, y.typ, ey as int)) by {
            if owner_covers(b, y.pid, y.typ, ey as int) {
                let j = choose|i: int|
                    #![trigger b[i]]
                    0 <= i < b.len() && b[i].pid == y.pid && b[i].typ == y.typ && covers(b[i], ey as int);
                if j > 0 {
                    lemma_merged_separated(b, 0, j);
                }
            }
        }
        if !(x.end matches Some(ex) && ex <= ey) {
            assert(covers(x, ey as int));
            assert(owner_covers(a, y.pid, y.typ, ey as int));
        }
    }
    assert(x == y);
    lemma_merged_drop_first(a);
    lemma_merged_drop_first(b);
    assert forall|p: u64, t: i16, z: int|
        owner_covers(a.drop_first(), p, t, z) == owner_covers(b.drop_first(), p, t, z) by {
        assert(owner_covers(a, p, t, z) == owner_covers(b, p, t, z));
    }
    law_merged_locks_are_determined(a.drop_first(), b.drop_first());
    assert(a =~= b) by {
        assert forall|i: int| 0 <= i < a.len() implies a[i] == b[i] by {
            if i > 0 {
                assert(a[i] == a.drop_first()[i - 1]);
                assert(b[i] == b.drop_first()[i - 1]);
            }
        }
    }
}

/// No byte is held by one process under two lock types.
pub open spec fn owners_exclusive(locks: Seq<FileLock>) -> bool {
    forall|p: u64, t1: i16, t2: i16, x: int|
        #![trigger owner_covers(locks, p, t1, x), owner_covers(locks, p, t2, x)]
        owner_covers(locks, p, t1, x) && owner_covers(locks, p, t2, x) ==> t1 == t2
}

/// The shape in which an inode's locks are kept: every lock covers a byte,
/// the list is sorted by owner, type and range, a process's locks of one type
/// neither overlap nor touch, and no byte is held by one process under two
/// types.
pub open spec fn locks_normal(locks: Seq<FileLock>) -> bool {
    &&& all_nonempty(locks)
    &&& merged_form(locks)
    &&& owners_exclusive(locks)
}

/// Every inode's locks are in normal form.
pub open spec fn table_normal(t: Map<u64, Seq<FileLock>>) -> bool {
    forall|k: u64| #[trigger] t.contains_key(k) ==> locks_normal(t[k])
}

/// Setting a lock keeps every inode's locks in normal form, whatever the
/// call returns.
pub proof fn law_set_lock_keeps_locks_normal(
    old: LockTable,
    new: LockTable,
    key: u64,
    pid: u64,
    flock: Flock,
    position: Result<u64, SysError>,
    file_len: u64,
    r: Result<Option<FileLock>, SysError>,
)
    requires
        new.wf(),
        table_normal(old@),
        set_lock_outcome(old, new, key, pid, flock, position, file_len, r),
    ensures
        table_normal(new@),
{
    assert(locks_normal(old.locks_of(key))) by {
        if !old@.contains_key(key) {
            assert(old.locks_of(key) =~= Seq::<FileLock>::empty());
        }
    }
    match abs_lock_range(flock.l_whence, flock.l_start, flock.l_len, position, file_len) {
        Err(_) => {},
        Ok((s, e)) => {
            assert forall|k: u64| #[trigger] new@.contains_key(k) implies locks_normal(new@[k]) by {
                if k != key {
                    assert(new@.remove(key).contains_key(k));
                    assert(new@[k] == new@.remove(key)[k]);
                    assert(old@[k] == old@.remove(key)[k]);
                } else {
                    assert(new@[key] == new.locks_of(key));
                    let nl = new.locks_of(key);
                    let ol = old.locks_of(key);
                    if flock.l_type != F_UNLCK && flock.l_type != F_RDLCK && flock.l_type != F_WRLCK {
                    } else if !no_conflict(ol, pid, s, e, flock.l_type) {
                    } else {
                        assert forall|p: u64, t1: i16, t2: i16, x: int|
                            owner_covers(nl, p, t1, x) && owner_covers(nl, p, t2, x) implies t1 == t2 by {
                            assert(covers_after_set(ol, pid, s, e, flock.l_type, p, t1, x));
                            assert(covers_after_set(ol, pid, s, e, flock.l_type, p, t2, x));
                        }
                    }
                }
            }
        },
    }
}

/// After `pid` releases its locks, no lock of `pid` is left on any inode.
pub proof fn law_release_leaves_no_lock(
    old: Map<u64, Seq<FileLock>>,
    released: Map<u64, Seq<FileLock>>,
    pid: u64,
)
    requires
        released == old.map_values(|s: Seq<FileLock>| without_pid(s, pid)),
    ensures
        forall|k: u64, i: int|
            released.contains_key(k) && 0 <= i < released[k].len() ==> (#[trigger] released[k][i]).pid != pid,
{
    assert forall|k: u64, i: int| released.contains_key(k) && 0 <= i < released[k].len() implies (
    #[trigger] released[k][i]).pid != pid by {
        let f = |l: FileLock| l.pid != pid;
        assert(released[k] == old[k].filter(f));
        old[k].lemma_filter_pred(f, i);
    }
}

} // verus!
