//! `mount(2)` and `umount2(2)`: which file systems can be mounted, and the
//! record of read-only mount points that write checks consult.
use vstd::prelude::*;
use vstd::string::StringSliceAdditionalSpecFns;

use crate::error::SysError;

verus! {

/// The `MS_RDONLY` mount flag.
pub const MS_RDONLY: u32 = 1;

/// The byte `/`.
pub const SLASH: u8 = 47;

/// `path` is the mount point `mount` or lies below it.
pub open spec fn on_mount(path: Seq<u8>, mount: Seq<u8>) -> bool {
    ||| path == mount
    ||| (mount.len() < path.len() && path.subrange(0, mount.len() as int) == mount && path[mount.len() as int]
        == SLASH)
}

/// The mount points mounted read-only, as path bytes, in the order they were
/// mounted.
pub struct ReadonlyMounts {
    mounts: Vec<Vec<u8>>,
}

impl View for ReadonlyMounts {
    type V = Seq<Seq<u8>>;

    closed spec fn view(&self) -> Seq<Seq<u8>> {
        self.mounts@.map_values(|m: Vec<u8>| m@)
    }
}

fn bytes_equal(a: &[u8], b: &[u8]) -> (r: bool)
    ensures
        r == (a@ == b@),
{
    if a.len() != b.len() {
        return false;
    }
    let mut i: usize = 0;
    while i < a.len()
        invariant
            a@.len() == b@.len(),
            i <= a@.len(),
            forall|j: int| 0 <= j < i ==> a@[j] == b@[j],
        decreases a@.len() - i,
    {
        if a[i] != b[i] {
            return false;
        }
        i += 1;
    }
    proof {
        assert(a@ =~= b@);
    }
    true
}

fn has_prefix(s: &[u8], prefix: &[u8]) -> (r: bool)
    ensures
        r == (prefix@.len() <= s@.len() && s@.subrange(0, prefix@.len() as int) == prefix@),
{
    if prefix.len() > s.len() {
        return false;
    }
    let mut i: usize = 0;
    while i < prefix.len()
        invariant
            prefix@.len() <= s@.len(),
            i <= prefix@.len(),
            forall|j: int| 0 <= j < i ==> s@[j] == prefix@[j],
        decreases prefix@.len() - i,
    {
        if s[i] != prefix[i] {
            proof {
                assert(s@.subrange(0, prefix@.len() as int)[i as int] != prefix@[i as int]);
            }
            return false;
        }
        i += 1;
    }
    proof {
        assert(s@.subrange(0, prefix@.len() as int) =~= prefix@);
    }
    true
}

fn to_bytes(s: &[u8]) -> (r: Vec<u8>)
    ensures
        r@ == s@,
{
    let mut r: Vec<u8> = Vec::new();
    let mut i: usize = 0;
    while i < s.len()
        invariant
            i <= s@.len(),
            r@ == s@.take(i as int),
        decreases s@.len() - i,
    {
        r.push(s[i]);
        i += 1;
        proof {
            assert(r@ =~= s@.take(i as int));
        }
    }
    proof {
        assert(s@.take(s@.len() as int) =~= s@);
    }
    r
}

/// Whether `path` is a mount point `mount` or lies below it: it equals the
/// mount point, or continues it with `/`.
fn path_on_mount(path: &[u8], mount: &[u8]) -> (r: bool)
    ensures
        r == on_mount(path@, mount@),
{
    if bytes_equal(path, mount) {
        return true;
    }
    mount.len() < path.len() && has_prefix(path, mount) && path[mount.len()] == SLASH
}

impl ReadonlyMounts {
    /// No read-only mounts.
    pub fn new() -> (r: Self)
        ensures
            r@ == Seq::<Seq<u8>>::empty(),
    {
        let r = ReadonlyMounts { mounts: Vec::new() };
        proof {
            assert(r@ =~= Seq::<Seq<u8>>::empty());
        }
        r
    }

    /// Records the mount point `path` when it was mounted with `MS_RDONLY`,
    /// unless it is recorded already.
    pub fn remember_readonly_mount(&mut self, path: &str, flags: u32)
        ensures
            final(self)@ == if flags & MS_RDONLY == 0 || old(self)@.contains(path.spec_bytes()) {
                old(self)@
            } else {
                old(self)@.push(path.spec_bytes())
            },
    {
        if flags & MS_RDONLY == 0 {
            return;
        }
        let p = path.as_bytes();
        let mut i: usize = 0;
        while i < self.mounts.len()
            invariant
                self@ == old(self)@,
                p@ == path.spec_bytes(),
                i <= self@.len(),
                forall|j: int| 0 <= j < i ==> #[trigger] self@[j] != p@,
            decreases self@.len() - i,
        {
            proof {
                assert(self@[i as int] == self.mounts@[i as int]@);
            }
            if bytes_equal(self.mounts[i].as_slice(), p) {
                proof {
                    assert(self@.contains(p@));
                }
                return;
            }
            i += 1;
        }
        let v = to_bytes(p);
        let ghost before = self.mounts@;
        self.mounts.push(v);
        proof {
            assert(self@ =~= old(self)@.push(path.spec_bytes()));
        }
    }

    /// Drops the mount point `path`, as when it is unmounted.
    pub fn forget_readonly_mount(&mut self, path: &str)
        ensures
            final(self)@ == old(self)@.filter(|m: Seq<u8>| m != path.spec_bytes()),
    {
        let p = path.as_bytes();
        let ghost pred = |m: Seq<u8>| m != path.spec_bytes();
        let mut rest: Vec<Vec<u8>> = Vec::new();
        std::mem::swap(&mut rest, &mut self.mounts);
        let ghost all = rest@.map_values(|m: Vec<u8>| m@);
        let mut kept: Vec<Vec<u8>> = Vec::new();
        let n = rest.len();
        let mut i: usize = 0;
        while i < n
            invariant
                n == all.len(),
                i <= n,
                rest@.len() == n - i,
                forall|j: int| 0 <= j < rest@.len() ==> #[trigger] rest@[j]@ == all[i + j],
                kept@.map_values(|m: Vec<u8>| m@) == all.take(i as int).filter(pred),
                all == old(self)@,
                p@ == path.spec_bytes(),
                pred == (|m: Seq<u8>| m != path.spec_bytes()),
            decreases n - i,
        {
            let ghost prev = rest@;
            proof {
                assert(prev[0]@ == all[i + 0]);
            }
            let m = rest.remove(0);
            proof {
                assert(m@ == all[i as int]);
                assert(all.take(i + 1) =~= all.take(i as int).push(all[i as int]));
                all.take(i as int).lemma_filter_push(all[i as int], pred);
                assert forall|j: int| 0 <= j < rest@.len() implies #[trigger] rest@[j]@ == all[i + 1 + j] by {
                    assert(rest@[j] == prev[j + 1]);
                    assert(prev[j + 1]@ == all[i + (j + 1)]);
                }
            }
            let ghost before = kept@;
            if !bytes_equal(m.as_slice(), p) {
                kept.push(m);
                proof {
                    assert(kept@.map_values(|m: Vec<u8>| m@) =~= before.map_values(|m: Vec<u8>| m@).push(
                        all[i as int],
                    ));
                }
            }
            i += 1;
        }
        proof {
            assert(all.take(n as int) =~= all);
        }
        self.mounts = kept;
    }

    /// Whether `path` lies on a read-only mount: it is a recorded mount point
    /// or lies below one.
    pub fn is_path_on_readonly_mount(&self, path: &str) -> (r: bool)
        ensures
            r == exists|i: int| 0 <= i < self@.len() && on_mount(path.spec_bytes(), #[trigger] self@[i]),
    {
        let p = path.as_bytes();
        let mut i: usize = 0;
        while i < self.mounts.len()
            invariant
                p@ == path.spec_bytes(),
                i <= self@.len(),
                forall|j: int| 0 <= j < i ==> !on_mount(p@, #[trigger] self@[j]),
            decreases self@.len() - i,
        {
            proof {
                assert(self@[i as int] == self.mounts@[i as int]@);
            }
            if path_on_mount(p, self.mounts[i].as_slice()) {
                return true;
            }
            i += 1;
        }
        false
    }
}

/// The file system that `mount` sets up.
#[derive(Clone, Copy, Debug, PartialEq, Eq)]
pub enum MountSource {
    /// A fresh in-memory file system (`tmpfs`, `cgroup`, `cgroup2`).
    Memory,
    /// The file system on the block device named by the source path.
    Device,
}

pub open spec fn is_memory_fs_type(fs_type: Seq<u8>) -> bool {
    ||| fs_type == seq![116u8, 109u8, 112u8, 102u8, 115u8]  // "tmpfs"
    ||| fs_type == seq![99u8, 103u8, 114u8, 111u8, 117u8, 112u8]  // "cgroup"
    ||| fs_type == seq![99u8, 103u8, 114u8, 111u8, 117u8, 112u8, 50u8]  // "cgroup2"
}

/// The bytes of `/dev/`.
pub open spec fn dev_prefix() -> Seq<u8> {
    seq![47u8, 100u8, 101u8, 118u8, 47u8]
}

/// Which file system `mount(source, _, fs_type)` mounts: a memory file system
/// for `tmpfs` and the cgroup types, else a block device named under `/dev/`;
/// anything else is `ENODEV`.
pub fn mount_source_kind(fs_type: &str, source: Option<&str>) -> (r: Result<MountSource, SysError>)
    ensures
        r == if is_memory_fs_type(fs_type.spec_bytes()) {
            Ok(MountSource::Memory)
        } else if source matches Some(s) && dev_prefix().len() <= s.spec_bytes().len() && s.spec_bytes().subrange(
            0,
            5,
        ) == dev_prefix() {
            Ok(MountSource::Device)
        } else {
            Err::<MountSource, SysError>(SysError::NoSuchDevice)
        },
{
    let t = fs_type.as_bytes();
    let tmpfs: [u8; 5] = [116, 109, 112, 102, 115];
    let cgroup: [u8; 6] = [99, 103, 114, 111, 117, 112];
    let cgroup2: [u8; 7] = [99, 103, 114, 111, 117, 112, 50];
    proof {
        assert(tmpfs@ =~= seq![116u8, 109u8, 112u8, 102u8, 115u8]);
        assert(cgroup@ =~= seq![99u8, 103u8, 114u8, 111u8, 117u8, 112u8]);
        assert(cgroup2@ =~= seq![99u8, 103u8, 114u8, 111u8, 117u8, 112u8, 50u8]);
    }
    if bytes_equal(t, tmpfs.as_slice()) || bytes_equal(t, cgroup.as_slice()) || bytes_equal(t, cgroup2.as_slice()) {
        return Ok(MountSource::Memory);
    }
    if let Some(s) = source {
        let dev: [u8; 5] = [47, 100, 101, 118, 47];
        proof {
            assert(dev@ =~= dev_prefix());
        }
        if has_prefix(s.as_bytes(), dev.as_slice()) {
            return Ok(MountSource::Device);
        }
    }
    Err(SysError::NoSuchDevice)
}

// ----------------------------------------------------------------------------
// Laws
// ----------------------------------------------------------------------------

/// After a read-only mount of `path` is recorded, `path` and everything below
/// it lies on a read-only mount.
pub proof fn law_remembered_mount_is_readonly(
    mounts: Seq<Seq<u8>>,
    after: Seq<Seq<u8>>,
    path: Seq<u8>,
    below: Seq<u8>,
)
    requires
        after == if mounts.contains(path) {
            mounts
        } else {
            mounts.push(path)
        },
        below == path || (path.len() < below.len() && below.subrange(0, path.len() as int) == path
            && below[path.len() as int] == SLASH),
    ensures
        exists|i: int| 0 <= i < after.len() && on_mount(below, #[trigger] after[i]),
{
    if mounts.contains(path) {
        let i = choose|i: int| 0 <= i < mounts.len() && mounts[i] == path;
        assert(on_mount(below, after[i]));
    } else {
        assert(after[mounts.len() as int] == path);
        assert(on_mount(below, after[mounts.len() as int]));
    }
}

/// Once `path` is forgotten, it lies on a read-only mount only through
/// another recorded mount point above it.
pub proof fn law_forgotten_mount_point(mounts: Seq<Seq<u8>>, kept: Seq<Seq<u8>>, path: Seq<u8>, query: Seq<u8>)
    requires
        kept == mounts.filter(|m: Seq<u8>| m != path),
    ensures
        (exists|i: int| 0 <= i < kept.len() && on_mount(query, #[trigger] kept[i])) <==> (exists|i: int|
            0 <= i < mounts.len() && mounts[i] != path && on_mount(query, #[trigger] mounts[i])),
{
    let f = |m: Seq<u8>| m != path;
    assert(kept == mounts.filter(f));
    if exists|i: int| 0 <= i < kept.len() && on_mount(query, #[trigger] kept[i]) {
        let i = choose|i: int| 0 <= i < kept.len() && on_mount(query, #[trigger] kept[i]);
        mounts.lemma_filter_contains_rev(f, kept[i]);
        assert(kept.contains(kept[i]));
        let j = choose|j: int| 0 <= j < mounts.len() && mounts[j] == kept[i];
        mounts.lemma_filter_pred(f, i);
        assert(mounts[j] != path && on_mount(query, mounts[j]));
    }
    if exists|i: int| 0 <= i < mounts.len() && mounts[i] != path && on_mount(query, #[trigger] mounts[i]) {
        let i = choose|i: int| 0 <= i < mounts.len() && mounts[i] != path && on_mount(query, #[trigger] mounts[i]);
        mounts.lemma_filter_contains(f, i);
        assert(kept.contains(mounts[i]));
        let j = choose|j: int| 0 <= j < kept.len() && kept[j] == mounts[i];
        assert(on_mount(query, kept[j]));
    }
}

/// A read-only mount of `path` that is then unmounted: afterwards a path
/// lies on a read-only mount exactly when it lies on one of the mount points
/// recorded before the mount, other than `path`.
pub proof fn law_mount_then_unmount(
    mounts: Seq<Seq<u8>>,
    mounted: Seq<Seq<u8>>,
    unmounted: Seq<Seq<u8>>,
    path: Seq<u8>,
    query: Seq<u8>,
)
    requires
        mounted == if mounts.contains(path) {
            mounts
        } else {
            mounts.push(path)
        },
        unmounted == mounted.filter(|m: Seq<u8>| m != path),
    ensures
        (exists|i: int| 0 <= i < unmounted.len() && on_mount(query, #[trigger] unmounted[i])) <==> (exists|
            i: int,
        | 0 <= i < mounts.len() && mounts[i] != path && on_mount(query, #[trigger] mounts[i])),
{
    law_forgotten_mount_point(mounted, unmounted, path, query);
    if exists|i: int| 0 <= i < mounted.len() && mounted[i] != path && on_mount(query, #[trigger] mounted[i]) {
        let i = choose|i: int|
            0 <= i < mounted.len() && mounted[i] != path && on_mount(query, #[trigger] mounted[i]);
        if !mounts.contains(path) {
            assert(i < mounts.len());
        }
        assert(mounts[i] == mounted[i]);
    }
    if exists|i: int| 0 <= i < mounts.len() && mounts[i] != path && on_mount(query, #[trigger] mounts[i]) {
        let i = choose|i: int| 0 <= i < mounts.len() && mounts[i] != path && on_mount(query, #[trigger] mounts[i]);
        assert(mounted[i] == mounts[i]);
    }
}

} // verus!
