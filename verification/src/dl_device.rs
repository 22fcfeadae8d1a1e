//! The virtual file system of the game's device manager, held as plain values.
//!
//! The device manager keeps virtual roots (`data0:` and the like, each with
//! the text it expands to) and the BND4 archive mounts that serve files. The
//! asset override hooks take the archive mounts out of the manager so that
//! every file open falls through to the disk device, and answer from the
//! extracted mounts whatever no override claims. This module holds that
//! bookkeeping: snapshots of the mounted archives, extraction of newly mounted
//! ones, temporary re-mounting, virtual path expansion, and the choice of the
//! mount that serves a path. Each text is the UTF-16 content of a device
//! string, or `Err(EncodingError)` where that string could not be read.
use vstd::prelude::*;

use vstd::multiset::Multiset;

use crate::lex::{is_sorted, sort_texts, sorted_contains, texts_view};

verus! {

/// A device string whose content could not be read as UTF-16 text.
#[derive(Clone, Copy, Debug, PartialEq, Eq, Structural)]
pub struct EncodingError;

/// The text of a device string, if it could be read.
pub open spec fn text_of(s: Result<Vec<u16>, EncodingError>) -> Option<Seq<u16>> {
    match s {
        Ok(v) => Some(v@),
        Err(_) => None,
    }
}

/// A virtual root such as `data1:` and the text it expands to.
#[derive(Debug)]
pub struct DlVirtualRoot {
    pub root: Result<Vec<u16>, EncodingError>,
    pub expanded: Result<Vec<u16>, EncodingError>,
}

/// A mounted archive: its root, the address of the device that serves it,
/// and its size.
#[derive(Debug)]
pub struct DlVirtualMount {
    pub root: Result<Vec<u16>, EncodingError>,
    pub device: u64,
    pub size: usize,
}

/// What a mount is: its root text (if readable), device and size.
pub type MountView = (Option<Seq<u16>>, u64, usize);

impl View for DlVirtualMount {
    type V = MountView;

    open spec fn view(&self) -> MountView {
        (text_of(self.root), self.device, self.size)
    }
}

/// The views of a list of mounts.
pub open spec fn mounts_view(s: Seq<DlVirtualMount>) -> Seq<MountView> {
    s.map_values(|m: DlVirtualMount| m@)
}

fn clone_text(t: &Result<Vec<u16>, EncodingError>) -> (r: Result<Vec<u16>, EncodingError>)
    ensures
        text_of(r) == text_of(*t),
{
    match t {
        Ok(v) => {
            let c = v.clone();
            assert(c@ =~= v@);
            Ok(c)
        },
        Err(e) => Err(*e),
    }
}

impl Clone for DlVirtualMount {
    fn clone(&self) -> (r: Self)
        ensures
            r@ == self@,
    {
        DlVirtualMount { root: clone_text(&self.root), device: self.device, size: self.size }
    }
}

/// Whether `w` starts with the root separator `:/`.
pub fn is_root_separator(w: &[u16]) -> (r: bool)
    requires
        w@.len() >= 2,
    ensures
        r == (w@[0] == 58u16 && w@[1] == 47u16),
{
    w[0] == 58u16 && w[1] == 47u16
}

/// Whether the separator `:/` starts at position `i` of `s`.
pub open spec fn separator_at(s: Seq<u16>, i: int) -> bool {
    0 <= i && i + 1 < s.len() && s[i] == 58u16 && s[i + 1] == 47u16
}

/// The first position, from `i` on, at which the separator `:/` starts.
pub open spec fn separator_from(s: Seq<u16>, i: int) -> Option<int>
    decreases s.len() - i,
{
    if i < 0 || i + 1 >= s.len() {
        None
    } else if separator_at(s, i) {
        Some(i)
    } else {
        separator_from(s, i + 1)
    }
}

/// The end of the root of a virtual path: where its first `:/` starts.
pub open spec fn root_end(s: Seq<u16>) -> Option<int> {
    separator_from(s, 0)
}

/// Finds where the first root separator `:/` of `s` starts.
pub fn find_root_end(s: &[u16]) -> (r: Option<usize>)
    ensures
        match r {
            Some(k) => root_end(s@) == Some(k as int) && separator_at(s@, k as int),
            None => root_end(s@) is None,
        },
{
    let n: usize = s.len();
    if n < 2 {
        return None;
    }
    let mut i: usize = 0;
    while i + 1 < n
        invariant
            n == s@.len(),
            n >= 2,
            i + 1 <= n,
            root_end(s@) == separator_from(s@, i as int),
        decreases n - i,
    {
        if s[i] == 58u16 && s[i + 1] == 47u16 {
            return Some(i);
        }
        i = i + 1;
    }
    None
}

/// The index of the first virtual root, from `j` on, whose root text reads
/// as `root`.
pub open spec fn matching_root_from(roots: Seq<DlVirtualRoot>, root: Seq<u16>, j: int) -> Option<
    int,
>
    decreases roots.len() - j,
{
    if j < 0 || j >= roots.len() {
        None
    } else if text_of(roots[j].root) == Some(root) {
        Some(j)
    } else {
        matching_root_from(roots, root, j + 1)
    }
}

/// One expansion step of a virtual path: the text before the first `:/`
/// names a virtual root; when the first root of that name has a readable
/// expansion, the root and separator are replaced by it.
pub open spec fn expand_step(roots: Seq<DlVirtualRoot>, e: Seq<u16>) -> Option<Seq<u16>> {
    match root_end(e) {
        None => None,
        Some(k) => match matching_root_from(roots, e.take(k), 0) {
            None => None,
            Some(j) => match text_of(roots[j].expanded) {
                None => None,
                Some(x) => Some(x + e.skip(k + 2)),
            },
        },
    }
}

/// The path after `n` expansion steps, if that many steps apply.
pub open spec fn expand_iter(roots: Seq<DlVirtualRoot>, e: Seq<u16>, n: nat) -> Option<Seq<u16>>
    decreases n,
{
    if n == 0 {
        Some(e)
    } else {
        match expand_iter(roots, e, (n - 1) as nat) {
            Some(x) => expand_step(roots, x),
            None => None,
        }
    }
}

/// Expansion of `e` stops after exactly `n` steps.
pub open spec fn expands_in(roots: Seq<DlVirtualRoot>, e: Seq<u16>, n: nat) -> bool {
    match expand_iter(roots, e, n) {
        Some(x) => expand_step(roots, x) is None,
        None => false,
    }
}

proof fn lemma_expand_iter_stuck(roots: Seq<DlVirtualRoot>, e: Seq<u16>, n: nat, m: nat)
    requires
        expands_in(roots, e, n),
        n < m,
    ensures
        expand_iter(roots, e, m) is None,
    decreases m,
{
    if m > n + 1 {
        lemma_expand_iter_stuck(roots, e, n, (m - 1) as nat);
    }
}

fn find_virtual_root(roots: &Vec<DlVirtualRoot>, root: &[u16]) -> (r: Option<usize>)
    ensures
        match r {
            Some(j) => matching_root_from(roots@, root@, 0) == Some(j as int) && j < roots@.len(),
            None => matching_root_from(roots@, root@, 0) is None,
        },
{
    let n: usize = roots.len();
    let mut j: usize = 0;
    while j < n
        invariant
            n == roots@.len(),
            j <= n,
            matching_root_from(roots@, root@, 0) == matching_root_from(roots@, root@, j as int),
        decreases n - j,
    {
        let hit = match &roots[j].root {
            Ok(r) => crate::lex::compare_text(r.as_slice(), root) == 0,
            Err(_) => false,
        };
        if hit {
            assert(text_of(roots@[j as int].root) == Some(root@));
            return Some(j);
        }
        j = j + 1;
    }
    None
}

fn prefix(s: &[u16], k: usize) -> (r: Vec<u16>)
    requires
        k <= s@.len(),
    ensures
        r@ == s@.take(k as int),
{
    let mut r: Vec<u16> = Vec::new();
    for i in 0..k
        invariant
            k <= s@.len(),
            r@ == s@.take(i as int),
    {
        r.push(s[i]);
        assert(r@ =~= s@.take(i + 1));
    }
    r
}

fn concat_suffix(head: &Vec<u16>, s: &[u16], from: usize) -> (r: Vec<u16>)
    requires
        from <= s@.len(),
    ensures
        r@ == head@ + s@.skip(from as int),
{
    let mut r: Vec<u16> = Vec::new();
    let n: usize = head.len();
    for i in 0..n
        invariant
            n == head@.len(),
            r@ == head@.take(i as int),
    {
        r.push(head[i]);
        assert(r@ =~= head@.take(i + 1));
    }
    assert(head@.take(n as int) =~= head@);
    let m: usize = s.len();
    for i in from..m
        invariant
            m == s@.len(),
            from <= i <= m,
            r@ == head@ + s@.subrange(from as int, i as int),
    {
        r.push(s[i]);
        assert(r@ =~= head@ + s@.subrange(from as int, i + 1));
    }
    assert(s@.subrange(from as int, m as int) =~= s@.skip(from as int));
    r
}

fn expand_once(roots: &Vec<DlVirtualRoot>, e: &[u16]) -> (r: Option<Vec<u16>>)
    ensures
        match r {
            Some(x) => expand_step(roots@, e@) == Some(x@),
            None => expand_step(roots@, e@) is None,
        },
{
    let k = match find_root_end(e) {
        Some(k) => k,
        None => return None,
    };
    let root = prefix(e, k);
    let j = match find_virtual_root(roots, root.as_slice()) {
        Some(j) => j,
        None => return None,
    };
    match &roots[j].expanded {
        Ok(x) => {
            let n: usize = e.len();
            assert(k + 1 < n);
            Some(concat_suffix(x, e, k + 2))
        },
        Err(_) => None,
    }
}

/// The contents of a bundle of mounted archives at one point in time: the
/// roots of the mounts, sorted for bisection.
pub struct BndSnapshot {
    inner: Vec<Vec<u16>>,
}

impl BndSnapshot {
    #[verifier::type_invariant]
    closed spec fn is_sorted_snapshot(self) -> bool {
        is_sorted(texts_view(self.inner@))
    }

    /// The roots in the snapshot, counted with multiplicity.
    pub closed spec fn roots(self) -> Multiset<Seq<u16>> {
        texts_view(self.inner@).to_multiset()
    }

    /// A snapshot of the given roots.
    pub fn new(vec: Vec<Vec<u16>>) -> (s: BndSnapshot)
        ensures
            s.roots() == texts_view(vec@).to_multiset(),
    {
        BndSnapshot { inner: sort_texts(vec) }
    }

    /// Whether the mount's root is readable and in the snapshot.
    pub fn has_mount(&self, mount: &DlVirtualMount) -> (r: bool)
        ensures
            r == in_snapshot(self.roots(), mount@),
    {
        proof {
            use_type_invariant(self);
        }
        match &mount.root {
            Ok(root) => {
                let found = sorted_contains(&self.inner, root.as_slice());
                proof {
                    vstd::seq_lib::to_multiset_contains(texts_view(self.inner@), root@);
                }
                found
            },
            Err(_) => false,
        }
    }
}

/// Whether a mount's root is readable and among the snapshot's roots.
pub open spec fn in_snapshot(roots: Multiset<Seq<u16>>, m: MountView) -> bool {
    match m.0 {
        Some(r) => roots.count(r) > 0,
        None => false,
    }
}

/// The mounts that a snapshot already held, in order.
pub open spec fn kept_mounts(ms: Seq<MountView>, roots: Multiset<Seq<u16>>) -> Seq<MountView>
    decreases ms.len(),
{
    if ms.len() == 0 {
        Seq::empty()
    } else if in_snapshot(roots, ms.last()) {
        kept_mounts(ms.drop_last(), roots).push(ms.last())
    } else {
        kept_mounts(ms.drop_last(), roots)
    }
}

/// The mounts that a snapshot did not hold, in order.
pub open spec fn new_mounts(ms: Seq<MountView>, roots: Multiset<Seq<u16>>) -> Seq<MountView>
    decreases ms.len(),
{
    if ms.len() == 0 {
        Seq::empty()
    } else if !in_snapshot(roots, ms.last()) {
        new_mounts(ms.drop_last(), roots).push(ms.last())
    } else {
        new_mounts(ms.drop_last(), roots)
    }
}

/// The root texts of a list of mounts whose roots all read.
pub open spec fn mount_roots(ms: Seq<MountView>) -> Seq<Seq<u16>> {
    ms.map_values(|m: MountView| m.0.unwrap())
}

/// Every mount's root reads.
pub open spec fn all_roots_readable(ms: Seq<MountView>) -> bool {
    forall|i: int| 0 <= i < ms.len() ==> (#[trigger] ms[i]).0 is Some
}

/// Archive mounts taken out of the device manager, in mount order.
#[derive(Debug)]
pub struct VfsMountsLayout {
    inner: Vec<DlVirtualMount>,
}

impl View for VfsMountsLayout {
    type V = Seq<MountView>;

    closed spec fn view(&self) -> Seq<MountView> {
        mounts_view(self.inner@)
    }
}

/// The index of the first mount, from `j` on, whose root text reads as
/// `root`.
pub open spec fn matching_mount_from(ms: Seq<MountView>, root: Seq<u16>, j: int) -> Option<int>
    decreases ms.len() - j,
{
    if j < 0 || j >= ms.len() {
        None
    } else if ms[j].0 == Some(root) {
        Some(j)
    } else {
        matching_mount_from(ms, root, j + 1)
    }
}

/// The mount that serves a path: the first mount whose root is the text
/// before the path's first `:/`.
pub open spec fn spec_mount_for_path(ms: Seq<MountView>, path: Seq<u16>) -> Option<int> {
    match root_end(path) {
        None => None,
        Some(k) => matching_mount_from(ms, path.take(k), 0),
    }
}

impl VfsMountsLayout {
    /// No mounts.
    pub fn new() -> (v: VfsMountsLayout)
        ensures
            v@ == Seq::<MountView>::empty(),
    {
        let v = VfsMountsLayout { inner: Vec::new() };
        assert(v@ =~= Seq::<MountView>::empty());
        v
    }

    /// The given mounts, in order.
    pub fn from_mounts(mounts: Vec<DlVirtualMount>) -> (v: VfsMountsLayout)
        ensures
            v@ == mounts_view(mounts@),
    {
        VfsMountsLayout { inner: mounts }
    }

    /// The mount at `i`.
    pub fn get(&self, i: usize) -> (m: &DlVirtualMount)
        requires
            i < self@.len(),
        ensures
            m@ == self@[i as int],
    {
        &self.inner[i]
    }

    /// The number of mounts.
    pub fn len(&self) -> (n: usize)
        ensures
            n == self@.len(),
    {
        self.inner.len()
    }

    /// Moves the mounts of `new` after the ones held.
    pub fn append(&mut self, new: VfsMountsLayout)
        ensures
            final(self)@ == old(self)@ + new@,
    {
        let mut inner = new.inner;
        let ghost before = self.inner@;
        self.inner.append(&mut inner);
        assert(mounts_view(self.inner@) =~= mounts_view(before) + new@);
    }

    /// Whether no mount is held.
    pub fn is_empty(&self) -> (r: bool)
        ensures
            r == (self@.len() == 0),
    {
        self.inner.is_empty()
    }

    /// The device of the first mount: the disk device whose open function
    /// the host calls for files of the extracted archives.
    pub fn first_device(&self) -> (r: Option<u64>)
        ensures
            r == (if self@.len() == 0 {
                None
            } else {
                Some(self@[0].1)
            }),
    {
        if self.inner.len() == 0 {
            None
        } else {
            Some(self.inner[0].device)
        }
    }

    /// Chooses the mount that opens `path`: the first one whose root names
    /// the text before the path's first `:/`. `None` when the path has no
    /// root or no mount has that root.
    pub fn mount_for_path(&self, path: &[u16]) -> (r: Option<usize>)
        ensures
            match r {
                Some(j) => spec_mount_for_path(self@, path@) == Some(j as int),
                None => spec_mount_for_path(self@, path@) is None,
            },
    {
        let k = match find_root_end(path) {
            Some(k) => k,
            None => return None,
        };
        let root = prefix(path, k);
        let n: usize = self.inner.len();
        let mut j: usize = 0;
        while j < n
            invariant
                n == self.inner@.len(),
                j <= n,
                root@ == path@.take(k as int),
                root_end(path@) == Some(k as int),
                matching_mount_from(self@, root@, 0) == matching_mount_from(
                    self@,
                    root@,
                    j as int,
                ),
            decreases n - j,
        {
            let hit = match &self.inner[j].root {
                Ok(r) => crate::lex::compare_text(r.as_slice(), root.as_slice()) == 0,
                Err(_) => false,
            };
            assert(self@[j as int] == self.inner@[j as int]@);
            if hit {
                return Some(j);
            }
            j = j + 1;
        }
        None
    }
}

impl Default for VfsMountsLayout {
    fn default() -> (v: VfsMountsLayout)
        ensures
            v@ == Seq::<MountView>::empty(),
    {
        VfsMountsLayout::new()
    }
}

/// The state of the device manager that the asset hooks read and change,
/// while its lock is held: its virtual roots and its BND4 archive mounts.
pub struct DlDeviceManagerGuard {
    pub virtual_roots: Vec<DlVirtualRoot>,
    pub bnd4_mounts: Vec<DlVirtualMount>,
}

/// Where the archive mounts stood before a [`VfsMountsLayout`] was pushed.
pub struct VfsPushGuard {
    old_len: usize,
}

impl VfsPushGuard {
    /// The number of mounts before the push.
    pub closed spec fn spec_old_len(self) -> nat {
        self.old_len as nat
    }
}

impl DlDeviceManagerGuard {
    /// Takes a snapshot of the roots of the mounted archives; fails when some
    /// root cannot be read.
    pub fn snapshot(&self) -> (r: Result<BndSnapshot, EncodingError>)
        ensures
            match r {
                Ok(s) => all_roots_readable(mounts_view(self.bnd4_mounts@)) && s.roots()
                    == mount_roots(mounts_view(self.bnd4_mounts@)).to_multiset(),
                Err(_) => !all_roots_readable(mounts_view(self.bnd4_mounts@)),
            },
    {
        let ghost ms = mounts_view(self.bnd4_mounts@);
        let n: usize = self.bnd4_mounts.len();
        let mut roots: Vec<Vec<u16>> = Vec::new();
        for i in 0..n
            invariant
                n == self.bnd4_mounts@.len(),
                ms == mounts_view(self.bnd4_mounts@),
                all_roots_readable(ms.take(i as int)),
                texts_view(roots@) == mount_roots(ms.take(i as int)),
        {
            match &self.bnd4_mounts[i].root {
                Ok(r) => {
                    let c = r.clone();
                    assert(c@ =~= r@);
                    assert(ms[i as int] == self.bnd4_mounts@[i as int]@);
                    assert(ms[i as int].0 == Some(c@));
                    let ghost before_roots = texts_view(roots@);
                    roots.push(c);
                    assert(texts_view(roots@) =~= before_roots.push(c@));
                    assert(texts_view(roots@) =~= mount_roots(ms.take(i + 1)));
                    assert(ms.take(i + 1) =~= ms.take(i as int).push(ms[i as int]));
                },
                Err(_) => {
                    assert(ms[i as int].0 is None);
                    return Err(EncodingError);
                },
            }
        }
        assert(ms.take(n as int) =~= ms);
        Ok(BndSnapshot::new(roots))
    }

    /// Takes out of the manager every archive mount that `snapshot` does not
    /// hold, and returns them in mount order; the mounts it holds stay, in
    /// order.
    pub fn extract_new(&mut self, snapshot: BndSnapshot) -> (vfs: VfsMountsLayout)
        ensures
            final(self).virtual_roots == old(self).virtual_roots,
            mounts_view(final(self).bnd4_mounts@) == kept_mounts(
                mounts_view(old(self).bnd4_mounts@),
                snapshot.roots(),
            ),
            vfs@ == new_mounts(mounts_view(old(self).bnd4_mounts@), snapshot.roots()),
    {
        let ghost all = mounts_view(self.bnd4_mounts@);
        let mut rest: Vec<DlVirtualMount> = Vec::new();
        std::mem::swap(&mut rest, &mut self.bnd4_mounts);
        let mut kept: Vec<DlVirtualMount> = Vec::new();
        let mut removed: Vec<DlVirtualMount> = Vec::new();
        assert(all.take(0) =~= Seq::<MountView>::empty());
        while rest.len() > 0
            invariant
                rest@.len() <= all.len(),
                mounts_view(rest@) == all.skip(all.len() - rest@.len()),
                mounts_view(kept@) == kept_mounts(
                    all.take(all.len() - rest@.len()),
                    snapshot.roots(),
                ),
                mounts_view(removed@) == new_mounts(
                    all.take(all.len() - rest@.len()),
                    snapshot.roots(),
                ),
            decreases rest@.len(),
        {
            let ghost k = all.len() - rest@.len();
            let ghost before_rest = rest@;
            let m = rest.remove(0);
            assert(m@ == mounts_view(before_rest)[0]);
            assert(m@ == all[k]);
            assert(all.take(k + 1).drop_last() =~= all.take(k));
            assert(rest@ =~= before_rest.subrange(1, before_rest.len() as int));
            assert(mounts_view(rest@) =~= mounts_view(before_rest).skip(1));
            assert(all.skip(k).skip(1) =~= all.skip(k + 1));
            assert(mounts_view(rest@) =~= all.skip(k + 1));
            if snapshot.has_mount(&m) {
                kept.push(m);
                assert(mounts_view(kept@) =~= kept_mounts(all.take(k), snapshot.roots()).push(
                    all[k],
                ));
            } else {
                removed.push(m);
                assert(mounts_view(removed@) =~= new_mounts(all.take(k), snapshot.roots()).push(
                    all[k],
                ));
            }
        }
        assert(all.take(all.len() as int) =~= all);
        self.bnd4_mounts = kept;
        VfsMountsLayout { inner: removed }
    }

    /// Mounts the archives of `vfs` after the manager's own, until the
    /// returned guard is handed to [`DlDeviceManagerGuard::pop_vfs`].
    pub fn push_vfs(&mut self, vfs: &VfsMountsLayout) -> (guard: VfsPushGuard)
        ensures
            final(self).virtual_roots == old(self).virtual_roots,
            mounts_view(final(self).bnd4_mounts@) == mounts_view(old(self).bnd4_mounts@) + vfs@,
            guard.spec_old_len() == old(self).bnd4_mounts@.len(),
    {
        let old_len: usize = self.bnd4_mounts.len();
        let ghost before = mounts_view(self.bnd4_mounts@);
        let n: usize = vfs.inner.len();
        for i in 0..n
            invariant
                n == vfs.inner@.len(),
                vfs@ == mounts_view(vfs.inner@),
                mounts_view(self.bnd4_mounts@) == before + vfs@.take(i as int),
                self.virtual_roots == old(self).virtual_roots,
        {
            let m = vfs.inner[i].clone();
            assert(vfs@[i as int] == vfs.inner@[i as int]@);
            let ghost before_push = self.bnd4_mounts@;
            self.bnd4_mounts.push(m);
            assert(mounts_view(self.bnd4_mounts@) =~= mounts_view(before_push).push(m@));
            assert(mounts_view(self.bnd4_mounts@) =~= before + vfs@.take(i + 1));
        }
        assert(vfs@.take(n as int) =~= vfs@);
        VfsPushGuard { old_len }
    }

    /// Unmounts what the push that made `guard` added: the mounts are cut
    /// back to the number they had before it (nothing changes when there
    /// are no more than that).
    pub fn pop_vfs(&mut self, guard: VfsPushGuard)
        ensures
            final(self).virtual_roots == old(self).virtual_roots,
            guard.spec_old_len() <= old(self).bnd4_mounts@.len() ==> mounts_view(
                final(self).bnd4_mounts@,
            ) == mounts_view(old(self).bnd4_mounts@).take(guard.spec_old_len() as int),
            guard.spec_old_len() > old(self).bnd4_mounts@.len() ==> mounts_view(
                final(self).bnd4_mounts@,
            ) == mounts_view(old(self).bnd4_mounts@),
    {
        let ghost before = self.bnd4_mounts@;
        self.bnd4_mounts.truncate(guard.old_len);
        proof {
            if guard.old_len <= before.len() {
                assert(mounts_view(self.bnd4_mounts@) =~= mounts_view(before).take(
                    guard.spec_old_len() as int,
                ));
            }
        }
    }

    /// Expands `path` as [`DlDeviceManagerGuard::expand_path`] does, but
    /// gives up after `max_steps` replacements: `None` when expansion has not
    /// stopped by then (for example because the virtual roots expand into
    /// each other in a cycle). Callers that cannot show that expansion stops
    /// use this form.
    pub fn expand_path_within(&self, path: &[u16], max_steps: usize) -> (r: Option<Vec<u16>>)
        ensures
            match r {
                Some(x) => exists|n: nat|
                    n <= max_steps && expands_in(self.virtual_roots@, path@, n) && expand_iter(
                        self.virtual_roots@,
                        path@,
                        n,
                    ) == Some(x@),
                None => forall|n: nat|
                    n <= max_steps ==> !expands_in(self.virtual_roots@, path@, n),
            },
    {
        let ghost roots = self.virtual_roots@;
        let mut e: Vec<u16> = prefix(path, path.len());
        assert(e@ =~= path@);
        let mut steps: usize = 0;
        loop
            invariant
                roots == self.virtual_roots@,
                steps <= max_steps,
                expand_iter(roots, path@, steps as nat) == Some(e@),
                forall|n: nat| n < steps ==> !expands_in(roots, path@, n),
            decreases max_steps - steps,
        {
            match expand_once(&self.virtual_roots, e.as_slice()) {
                Some(next) => {
                    proof {
                        assert(!expands_in(roots, path@, steps as nat));
                        assert(expand_iter(roots, path@, (steps + 1) as nat) == Some(next@));
                    }
                    if steps == max_steps {
                        return None;
                    }
                    steps = steps + 1;
                    e = next;
                },
                None => {
                    assert(expands_in(roots, path@, steps as nat));
                    return Some(e);
                },
            }
        }
    }

    /// Expands the virtual roots of `path` until its root is no longer one
    /// with a readable expansion: `data1:/x` becomes the expansion of `data1`
    /// followed by `x`, and so on. The expansions must not cycle.
    pub fn expand_path(&self, path: &[u16]) -> (expanded: Vec<u16>)
        requires
            exists|n: nat| expands_in(self.virtual_roots@, path@, n),
        ensures
            expand_step(self.virtual_roots@, expanded@) is None,
            exists|n: nat| expand_iter(self.virtual_roots@, path@, n) == Some(expanded@),
    {
        let ghost roots = self.virtual_roots@;
        let ghost bound: nat = choose|n: nat| expands_in(roots, path@, n);
        let mut e: Vec<u16> = prefix(path, path.len());
        assert(e@ =~= path@);
        let ghost mut steps: nat = 0;
        loop
            invariant
                roots == self.virtual_roots@,
                expands_in(roots, path@, bound),
                expand_iter(roots, path@, steps) == Some(e@),
                steps <= bound,
            decreases bound - steps,
        {
            match expand_once(&self.virtual_roots, e.as_slice()) {
                Some(next) => {
                    proof {
                        if steps == bound {
                            assert(false);
                        }
                        assert(expand_iter(roots, path@, steps + 1) == Some(next@));
                        steps = steps + 1;
                    }
                    e = next;
                },
                None => {
                    return e;
                },
            }
        }
    }
}

/// Expansion has one outcome: two step counts after which expansion stops
/// are equal and give the same path, so the contract of
/// [`DlDeviceManagerGuard::expand_path`] fixes its result.
pub proof fn law_expansion_outcome_unique(
    roots: Seq<DlVirtualRoot>,
    e: Seq<u16>,
    n: nat,
    m: nat,
)
    requires
        expands_in(roots, e, n),
        expands_in(roots, e, m),
    ensures
        n == m,
        expand_iter(roots, e, n) == expand_iter(roots, e, m),
{
    if n < m {
        lemma_expand_iter_stuck(roots, e, n, m);
    } else if m < n {
        lemma_expand_iter_stuck(roots, e, m, n);
    }
}

/// Taking a snapshot of the mounted archives and then extracting what is new
/// since that snapshot takes nothing out: every mount stays, in order.
pub proof fn law_extract_after_snapshot_keeps_all(ms: Seq<MountView>)
    requires
        all_roots_readable(ms),
    ensures
        kept_mounts(ms, mount_roots(ms).to_multiset()) == ms,
        new_mounts(ms, mount_roots(ms).to_multiset()).len() == 0,
{
    lemma_snapshot_holds_every_root(ms);
    lemma_all_in_snapshot(ms, mount_roots(ms).to_multiset());
}

proof fn lemma_all_in_snapshot(ms: Seq<MountView>, roots: Multiset<Seq<u16>>)
    requires
        all_roots_readable(ms),
        forall|i: int| 0 <= i < ms.len() ==> roots.count((#[trigger] ms[i]).0.unwrap()) > 0,
    ensures
        kept_mounts(ms, roots) == ms,
        new_mounts(ms, roots).len() == 0,
    decreases ms.len(),
{
    broadcast use vstd::seq_lib::group_to_multiset_ensures;

    if ms.len() > 0 {
        let rest = ms.drop_last();
        assert forall|i: int| 0 <= i < rest.len() implies roots.count(
            (#[trigger] rest[i]).0.unwrap(),
        ) > 0 by {
            assert(rest[i] == ms[i]);
        }
        assert(ms[ms.len() - 1] == ms.last());
        lemma_all_in_snapshot(rest, roots);
        assert(rest.push(ms.last()) =~= ms);
    }
}

/// Hence the snapshot of a list of mounts holds each mount's root.
pub proof fn lemma_snapshot_holds_every_root(ms: Seq<MountView>)
    requires
        all_roots_readable(ms),
    ensures
        forall|i: int|
            0 <= i < ms.len() ==> mount_roots(ms).to_multiset().count((#[trigger] ms[i]).0.unwrap())
                > 0,
{
    broadcast use vstd::seq_lib::group_to_multiset_ensures;

    assert forall|i: int| 0 <= i < ms.len() implies mount_roots(ms).to_multiset().count(
        (#[trigger] ms[i]).0.unwrap(),
    ) > 0 by {
        assert(mount_roots(ms)[i] == ms[i].0.unwrap());
        assert(mount_roots(ms).contains(ms[i].0.unwrap()));
    }
}

/// Extraction splits the mounts without losing or duplicating any: the kept
/// and the new mounts together are as many as there were.
pub proof fn law_extract_partitions(ms: Seq<MountView>, roots: Multiset<Seq<u16>>)
    ensures
        kept_mounts(ms, roots).len() + new_mounts(ms, roots).len() == ms.len(),
        forall|i: int|
            0 <= i < kept_mounts(ms, roots).len() ==> in_snapshot(
                roots,
                #[trigger] kept_mounts(ms, roots)[i],
            ),
        forall|i: int|
            0 <= i < new_mounts(ms, roots).len() ==> !in_snapshot(
                roots,
                #[trigger] new_mounts(ms, roots)[i],
            ),
    decreases ms.len(),
{
    if ms.len() > 0 {
        law_extract_partitions(ms.drop_last(), roots);
        let k = kept_mounts(ms.drop_last(), roots);
        let n = new_mounts(ms.drop_last(), roots);
        if in_snapshot(roots, ms.last()) {
            assert forall|i: int| 0 <= i < k.push(ms.last()).len() implies in_snapshot(
                roots,
                #[trigger] k.push(ms.last())[i],
            ) by {
                if i < k.len() {
                    assert(k.push(ms.last())[i] == k[i]);
                }
            }
        } else {
            assert forall|i: int| 0 <= i < n.push(ms.last()).len() implies !in_snapshot(
                roots,
                #[trigger] n.push(ms.last())[i],
            ) by {
                if i < n.len() {
                    assert(n.push(ms.last())[i] == n[i]);
                }
            }
        }
    }
}

/// Pushing extracted mounts and then popping them with the push's guard
/// leaves the mounted archives as they were.
pub proof fn law_push_then_pop_restores(ms: Seq<MountView>, pushed: Seq<MountView>)
    ensures
        (ms + pushed).take(ms.len() as int) == ms,
{
    assert((ms + pushed).take(ms.len() as int) =~= ms);
}

proof fn lemma_separator_from_first(s: Seq<u16>, i: int)
    requires
        0 <= i,
    ensures
        separator_from(s, i) matches Some(k) ==> i <= k && separator_at(s, k) && forall|m: int|
            i <= m < k ==> !separator_at(s, m),
        separator_from(s, i) is None ==> forall|m: int| i <= m ==> !separator_at(s, m),
    decreases s.len() - i,
{
    if i + 1 < s.len() && !separator_at(s, i) {
        lemma_separator_from_first(s, i + 1);
    }
}

proof fn lemma_matching_root_first(roots: Seq<DlVirtualRoot>, root: Seq<u16>, j: int)
    requires
        0 <= j,
    ensures
        matching_root_from(roots, root, j) matches Some(i) ==> j <= i < roots.len() && text_of(
            roots[i].root,
        ) == Some(root) && forall|m: int| j <= m < i ==> text_of(roots[m].root) != Some(root),
        matching_root_from(roots, root, j) is None ==> forall|m: int|
            j <= m < roots.len() ==> text_of(roots[m].root) != Some(root),
    decreases roots.len() - j,
{
    if j < roots.len() && text_of(roots[j].root) != Some(root) {
        lemma_matching_root_first(roots, root, j + 1);
    }
}

/// One expansion step, in terms of the path and the virtual roots: the
/// path's root is the whole text before its first `:/`, and it is replaced
/// by the expansion of the first virtual root whose name is exactly that
/// text (a root whose name is only a prefix of it does not match), followed
/// by the rest of the path after the `:/`. When there is no `:/`, or no
/// virtual root has exactly that name, or the first one that has cannot
/// have its expansion read, the step does not apply.
pub proof fn law_expand_step_matches_whole_root(roots: Seq<DlVirtualRoot>, e: Seq<u16>)
    ensures
        expand_step(roots, e) matches Some(x) ==> exists|k: int, j: int|
            #![trigger roots[j], e.take(k)]
            {
                &&& 0 <= k && k + 1 < e.len() && e[k] == 58u16 && e[k + 1] == 47u16
                &&& forall|m: int| 0 <= m < k ==> !#[trigger] separator_at(e, m)
                &&& 0 <= j < roots.len()
                &&& roots[j].root matches Ok(name) && name@ == e.take(k)
                &&& forall|m: int| 0 <= m < j ==> text_of(roots[m].root) != Some(e.take(k))
                &&& roots[j].expanded matches Ok(x_root) && x == x_root@ + e.skip(k + 2)
            },
        expand_step(roots, e) is None ==> (forall|k: int|
            0 <= k ==> !#[trigger] separator_at(e, k)) || exists|
            k: int,
        |
            #![trigger e.take(k)]
            {
                &&& 0 <= k && k + 1 < e.len() && e[k] == 58u16 && e[k + 1] == 47u16
                &&& forall|m: int| 0 <= m < k ==> !#[trigger] separator_at(e, m)
                &&& (forall|j: int|
                    0 <= j < roots.len() ==> text_of(roots[j].root) != Some(e.take(k)))
                    || exists|j: int|
                    0 <= j < roots.len() && text_of(roots[j].root) == Some(e.take(k))
                        && roots[j].expanded is Err && forall|m: int|
                        0 <= m < j ==> text_of(roots[m].root) != Some(e.take(k))
            },
{
    lemma_separator_from_first(e, 0);
    match root_end(e) {
        None => {},
        Some(k) => {
            lemma_matching_root_first(roots, e.take(k), 0);
            match matching_root_from(roots, e.take(k), 0) {
                None => {
                    assert(separator_at(e, k));
                },
                Some(j) => {
                    assert(separator_at(e, k));
                    match roots[j].expanded {
                        Ok(x_root) => {
                            assert(roots[j].root matches Ok(name) && name@ == e.take(k));
                            assert(separator_at(e, k));
                        },
                        Err(_) => {},
                    }
                },
            }
        },
    }
}

} // verus!
