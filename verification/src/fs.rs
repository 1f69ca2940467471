//! An explicit model of the slice of the filesystem the subsystem
//! manages: a flat table of absolute paths with their kind, permission
//! mode and ownership.  The provisioning engine and the reaper operate on
//! this model; the surrounding program mirrors each operation onto the
//! real disk.

use vstd::prelude::*;

verus! {

/// One filesystem object: an absolute path with its metadata.
pub struct FsEntry {
    pub path: String,
    pub is_dir: bool,
    pub mode: u32,
    pub uid: u32,
    pub gid: u32,
}

/// The metadata of a filesystem object, as mathematical values.
pub struct FsMetaV {
    pub is_dir: bool,
    pub mode: int,
    pub uid: int,
    pub gid: int,
}

impl FsEntry {
    /// The metadata half of this entry.
    pub open spec fn meta_v(self) -> FsMetaV {
        FsMetaV {
            is_dir: self.is_dir,
            mode: self.mode as int,
            uid: self.uid as int,
            gid: self.gid as int,
        }
    }

    /// An owned copy with the same value.
    pub fn duplicate(&self) -> (r: FsEntry)
        ensures
            r.path@ == self.path@,
            r.meta_v() == self.meta_v(),
    {
        FsEntry {
            path: self.path.clone(),
            is_dir: self.is_dir,
            mode: self.mode,
            uid: self.uid,
            gid: self.gid,
        }
    }
}

/// `p` lies strictly inside the directory `base`: `base` is a proper
/// prefix of `p` and a path separator follows it.
pub open spec fn path_strictly_inside(p: Seq<char>, base: Seq<char>) -> bool {
    &&& p.len() > base.len()
    &&& p.subrange(0, base.len() as int) == base
    &&& p[base.len() as int] == '/'
}

/// The lexical containment check: whether `p` lies strictly under the
/// directory `base`.
pub fn path_is_contained(p: &String, base: &String) -> (r: bool)
    ensures
        r == path_strictly_inside(p@, base@),
{
    let ps = p.as_str();
    let bs = base.as_str();
    let pl = ps.unicode_len();
    let bl = bs.unicode_len();
    if pl <= bl {
        return false;
    }
    let mut i: usize = 0;
    while i < bl
        invariant
            ps@ == p@,
            bs@ == base@,
            i <= bl,
            bl == base@.len(),
            pl == p@.len(),
            pl > bl,
            forall|k: int| 0 <= k < i ==> p@[k] == base@[k],
        decreases bl - i,
    {
        if !(ps.get_char(i) == bs.get_char(i)) {
            proof {
                assert(p@.subrange(0, base@.len() as int)[i as int] != base@[i as int]);
            }
            return false;
        }
        i = i + 1;
    }
    proof {
        assert(p@.subrange(0, base@.len() as int) =~= base@);
    }
    let sep = ps.get_char(bl);
    sep == '/'
}

/// The modelled filesystem state.
pub struct Fs {
    pub entries: Vec<FsEntry>,
}

impl Fs {
    /// The entries, as mathematical values: pairs of path and metadata.
    pub open spec fn entry_path(self, i: int) -> Seq<char> {
        self.entries@[i].path@
    }

    /// The model is well formed when no path occurs twice.
    pub open spec fn wf(self) -> bool {
        forall|i: int, j: int|
            #![trigger self.entry_path(i), self.entry_path(j)]
            0 <= i < self.entries@.len() && 0 <= j < self.entries@.len() && i != j
                ==> self.entry_path(i) != self.entry_path(j)
    }

    /// Some entry carries this path.
    pub open spec fn contains_path(self, p: Seq<char>) -> bool {
        exists|i: int| 0 <= i < self.entries@.len() && #[trigger] self.entry_path(i) == p
    }

    /// Some entry carries this path with this metadata.
    pub open spec fn has_entry(self, p: Seq<char>, m: FsMetaV) -> bool {
        exists|i: int|
            0 <= i < self.entries@.len() && #[trigger] self.entry_path(i) == p
                && self.entries@[i].meta_v() == m
    }

    /// A filesystem model with no entries.
    pub fn empty() -> (r: Fs)
        ensures
            r.wf(),
            forall|p: Seq<char>| !r.contains_path(p),
    {
        Fs { entries: Vec::new() }
    }

    /// Whether the model holds this path.
    pub fn exists_path(&self, p: &String) -> (r: bool)
        ensures
            r == self.contains_path(p@),
    {
        let mut i: usize = 0;
        while i < self.entries.len()
            invariant
                i <= self.entries@.len(),
                forall|k: int| 0 <= k < i ==> #[trigger] self.entry_path(k) != p@,
            decreases self.entries@.len() - i,
        {
            if self.entries[i].path == *p {
                proof {
                    assert(self.entry_path(i as int) == p@);
                }
                return true;
            }
            i = i + 1;
        }
        false
    }

    /// The entry at this path, if any.
    pub fn stat(&self, p: &String) -> (r: Option<FsEntry>)
        ensures
            match r {
                Some(e) => e.path@ == p@ && self.has_entry(p@, e.meta_v()),
                None => !self.contains_path(p@),
            },
    {
        let mut i: usize = 0;
        while i < self.entries.len()
            invariant
                i <= self.entries@.len(),
                forall|k: int| 0 <= k < i ==> #[trigger] self.entry_path(k) != p@,
            decreases self.entries@.len() - i,
        {
            if self.entries[i].path == *p {
                let e = self.entries[i].duplicate();
                proof {
                    assert(self.entry_path(i as int) == p@ && self.entries@[i as int].meta_v()
                        == e.meta_v());
                }
                return Some(e);
            }
            i = i + 1;
        }
        None
    }

    /// Creates or replaces the entry at `e.path`, leaving every other
    /// path untouched.
    pub fn upsert(&mut self, e: FsEntry) -> (r: ())
        requires
            old(self).wf(),
        ensures
            final(self).wf(),
            final(self).has_entry(e.path@, e.meta_v()),
            forall|q: Seq<char>, m: FsMetaV|
                q != e.path@ ==> (old(self).has_entry(q, m) <==> #[trigger] final(self).has_entry(
                    q,
                    m,
                )),
            forall|q: Seq<char>|
                q != e.path@ ==> (old(self).contains_path(q)
                    <==> #[trigger] final(self).contains_path(q)),
    {
        let ghost pre = *self;
        let ghost epath = e.path@;
        let ghost emeta = e.meta_v();
        let mut i: usize = 0;
        let mut found: Option<usize> = None;
        while found.is_none() && i < self.entries.len()
            invariant
                *self == pre,
                pre.wf(),
                i <= self.entries@.len(),
                match found {
                    Some(f) => f < self.entries@.len() && self.entry_path(f as int) == epath,
                    None => forall|k: int| 0 <= k < i ==> #[trigger] self.entry_path(k) != epath,
                },
                epath == e.path@,
            decreases self.entries@.len() - i, (if found is None { 1int } else { 0int }),
        {
            if self.entries[i].path == e.path {
                found = Some(i);
            } else {
                i = i + 1;
            }
        }
        match found {
            Some(idx) => {
                self.entries.set(idx, e);
                proof {
                    assert(self.entry_path(idx as int) == epath && self.entries@[
                        idx as int].meta_v() == emeta);
                    assert(pre.entry_path(idx as int) == epath);
                    assert forall|k: int|
                        0 <= k < self.entries@.len() && k != idx implies
                        #[trigger] self.entry_path(k) != epath by {
                        assert(self.entry_path(k) == pre.entry_path(k));
                        assert(pre.entry_path(k) != pre.entry_path(idx as int));
                    }
                    lemma_upsert_frame(pre, *self, idx as int, epath, emeta);
                }
            },
            None => {
                let ghost n = self.entries@.len();
                self.entries.push(e);
                proof {
                    assert(self.entry_path(n as int) == epath && self.entries@[n as int].meta_v()
                        == emeta);
                    assert forall|k: int|
                        0 <= k < self.entries@.len() && k != n implies #[trigger] self.entry_path(
                        k,
                    ) != epath by {
                        assert(self.entry_path(k) == pre.entry_path(k));
                    }
                    lemma_upsert_frame(pre, *self, n as int, epath, emeta);
                }
            },
        }
    }

    /// Removes the entry at `target` and every entry strictly inside it;
    /// every other path is untouched.
    pub fn remove_subtree(&mut self, target: &String) -> (r: ())
        requires
            old(self).wf(),
        ensures
            final(self).wf(),
            forall|q: Seq<char>|
                q == target@ || path_strictly_inside(q, target@) ==> !final(self).contains_path(
                    q,
                ),
            forall|q: Seq<char>, m: FsMetaV|
                q != target@ && !path_strictly_inside(q, target@) ==> (old(self).has_entry(q, m)
                    <==> #[trigger] final(self).has_entry(q, m)),
            forall|q: Seq<char>|
                q != target@ && !path_strictly_inside(q, target@) ==> (old(self).contains_path(q)
                    <==> #[trigger] final(self).contains_path(q)),
    {
        let ghost pre = *self;
        let mut kept: Vec<FsEntry> = Vec::new();
        let mut i: usize = 0;
        while i < self.entries.len()
            invariant
                *self == pre,
                pre.wf(),
                i <= self.entries@.len(),
                forall|k1: int, k2: int|
                    #![trigger kept@[k1].path@, kept@[k2].path@]
                    0 <= k1 < kept@.len() && 0 <= k2 < kept@.len() && k1 != k2 ==> kept@[k1].path@
                        != kept@[k2].path@,
                forall|k: int|
                    0 <= k < kept@.len() ==> exists|t: int|
                        0 <= t < i && #[trigger] kept@[k].path@ == pre.entry_path(t)
                            && kept@[k].meta_v() == pre.entries@[t].meta_v() && !(pre.entry_path(t)
                            == target@ || path_strictly_inside(pre.entry_path(t), target@)),
                forall|t: int|
                    0 <= t < i && !(#[trigger] pre.entry_path(t) == target@
                        || path_strictly_inside(pre.entry_path(t), target@)) ==> exists|k: int|
                        0 <= k < kept@.len() && #[trigger] kept@[k].path@ == pre.entry_path(t)
                            && kept@[k].meta_v() == pre.entries@[t].meta_v(),
            decreases self.entries@.len() - i,
        {
            let ghost old_kept = kept@;
            let same = self.entries[i].path == *target;
            let inside = path_is_contained(&self.entries[i].path, target);
            let pushed = !same && !inside;
            if pushed {
                kept.push(self.entries[i].duplicate());
                proof {
                    assert(kept@[kept@.len() - 1].path@ == pre.entry_path(i as int));
                    assert(kept@[kept@.len() - 1].meta_v() == pre.entries@[i as int].meta_v());
                    assert forall|k1: int|
                        0 <= k1 < kept@.len() - 1 implies kept@[k1].path@ != pre.entry_path(
                        i as int,
                    ) by {
                        let t = choose|t: int|
                            0 <= t < i && #[trigger] old_kept[k1].path@ == pre.entry_path(t)
                                && old_kept[k1].meta_v() == pre.entries@[t].meta_v() && !(
                            pre.entry_path(t) == target@ || path_strictly_inside(
                                pre.entry_path(t),
                                target@,
                            ));
                        assert(kept@[k1].path@ == old_kept[k1].path@);
                        assert(pre.entry_path(t) != pre.entry_path(i as int));
                    }
                }
            }
            i = i + 1;
            proof {
                assert forall|k: int| 0 <= k < kept@.len() implies exists|t: int|
                    0 <= t < i && #[trigger] kept@[k].path@ == pre.entry_path(t)
                        && kept@[k].meta_v() == pre.entries@[t].meta_v() && !(pre.entry_path(t)
                        == target@ || path_strictly_inside(pre.entry_path(t), target@)) by {
                    if k < old_kept.len() {
                        let t = choose|t: int|
                            0 <= t < i - 1 && #[trigger] old_kept[k].path@ == pre.entry_path(t)
                                && old_kept[k].meta_v() == pre.entries@[t].meta_v() && !(
                            pre.entry_path(t) == target@ || path_strictly_inside(
                                pre.entry_path(t),
                                target@,
                            ));
                        assert(kept@[k].path@ == pre.entry_path(t) && kept@[k].meta_v()
                            == pre.entries@[t].meta_v());
                    } else {
                        assert(kept@[k].path@ == pre.entry_path(i - 1) && kept@[k].meta_v()
                            == pre.entries@[i - 1].meta_v());
                    }
                }
                assert forall|t: int|
                    0 <= t < i && !(#[trigger] pre.entry_path(t) == target@
                        || path_strictly_inside(pre.entry_path(t), target@)) implies exists|
                    k: int,
                |
                    0 <= k < kept@.len() && #[trigger] kept@[k].path@ == pre.entry_path(t)
                        && kept@[k].meta_v() == pre.entries@[t].meta_v() by {
                    if t < i - 1 {
                        let k = choose|k: int|
                            0 <= k < old_kept.len() && #[trigger] old_kept[k].path@
                                == pre.entry_path(t) && old_kept[k].meta_v()
                                == pre.entries@[t].meta_v();
                        assert(kept@[k].path@ == pre.entry_path(t) && kept@[k].meta_v()
                            == pre.entries@[t].meta_v());
                    } else {
                        assert(pushed);
                        assert(kept@[kept@.len() - 1].path@ == pre.entry_path(t) && kept@[
                            kept@.len() - 1].meta_v() == pre.entries@[t].meta_v());
                    }
                }
            }
        }
        self.entries = kept;
        proof {
            assert forall|ii: int, jj: int|
                #![trigger self.entry_path(ii), self.entry_path(jj)]
                0 <= ii < self.entries@.len() && 0 <= jj < self.entries@.len() && ii
                    != jj implies self.entry_path(ii) != self.entry_path(jj) by {
                assert(kept@[ii].path@ != kept@[jj].path@);
            }
            assert forall|q: Seq<char>|
                q == target@ || path_strictly_inside(q, target@) implies !self.contains_path(
                q,
            ) by {
                if self.contains_path(q) {
                    let w = choose|k: int|
                        0 <= k < self.entries@.len() && #[trigger] self.entry_path(k) == q;
                    let t = choose|t: int|
                        0 <= t < pre.entries@.len() && #[trigger] self.entries@[w].path@
                            == pre.entry_path(t) && self.entries@[w].meta_v()
                            == pre.entries@[t].meta_v() && !(pre.entry_path(t) == target@
                            || path_strictly_inside(pre.entry_path(t), target@));
                }
            }
            assert forall|q: Seq<char>, m: FsMetaV|
                q != target@ && !path_strictly_inside(q, target@) && pre.has_entry(q, m) implies
                #[trigger] self.has_entry(q, m) by {
                let w = choose|k: int|
                    0 <= k < pre.entries@.len() && #[trigger] pre.entry_path(k) == q
                        && pre.entries@[k].meta_v() == m;
                let k2 = choose|k: int|
                    0 <= k < self.entries@.len() && #[trigger] self.entries@[k].path@
                        == pre.entry_path(w) && self.entries@[k].meta_v()
                        == pre.entries@[w].meta_v();
                assert(self.entry_path(k2) == q && self.entries@[k2].meta_v() == m);
            }
            assert forall|q: Seq<char>, m: FsMetaV|
                q != target@ && !path_strictly_inside(q, target@) && #[trigger] self.has_entry(
                    q,
                    m,
                ) implies pre.has_entry(q, m) by {
                let w = choose|k: int|
                    0 <= k < self.entries@.len() && #[trigger] self.entry_path(k) == q
                        && self.entries@[k].meta_v() == m;
                let t = choose|t: int|
                    0 <= t < pre.entries@.len() && #[trigger] self.entries@[w].path@
                        == pre.entry_path(t) && self.entries@[w].meta_v()
                        == pre.entries@[t].meta_v() && !(pre.entry_path(t) == target@
                        || path_strictly_inside(pre.entry_path(t), target@));
                assert(pre.entry_path(t) == q && pre.entries@[t].meta_v() == m);
            }
            assert forall|q: Seq<char>|
                q != target@ && !path_strictly_inside(q, target@) && pre.contains_path(q) implies
                #[trigger] self.contains_path(q) by {
                let w = choose|k: int|
                    0 <= k < pre.entries@.len() && #[trigger] pre.entry_path(k) == q;
                assert(pre.has_entry(q, pre.entries@[w].meta_v()));
                assert(self.has_entry(q, pre.entries@[w].meta_v()));
            }
            assert forall|q: Seq<char>|
                q != target@ && !path_strictly_inside(q, target@) && #[trigger] self.contains_path(
                    q,
                ) implies pre.contains_path(q) by {
                let w = choose|k: int|
                    0 <= k < self.entries@.len() && #[trigger] self.entry_path(k) == q;
                assert(self.has_entry(q, self.entries@[w].meta_v()));
                assert(pre.has_entry(q, self.entries@[w].meta_v()));
            }
        }
    }
}

/// After replacing or adding the one entry at `epath`, every other path
/// keeps exactly its old entries, and the model stays well formed.
proof fn lemma_upsert_frame(pre: Fs, post: Fs, special: int, epath: Seq<char>, emeta: FsMetaV)
    requires
        pre.wf(),
        0 <= special < post.entries@.len(),
        post.entry_path(special) == epath,
        post.entries@[special].meta_v() == emeta,
        forall|k: int|
            0 <= k < post.entries@.len() && k != special ==> #[trigger] post.entry_path(k)
                != epath,
        forall|k: int|
            #![trigger post.entry_path(k)]
            0 <= k < post.entries@.len() && k != special ==> k < pre.entries@.len()
                && post.entry_path(k) == pre.entry_path(k) && post.entries@[k].meta_v()
                == pre.entries@[k].meta_v(),
        forall|k: int|
            #![trigger pre.entry_path(k)]
            0 <= k < pre.entries@.len() && pre.entry_path(k) != epath ==> k
                < post.entries@.len() && k != special && post.entry_path(k) == pre.entry_path(k)
                && post.entries@[k].meta_v() == pre.entries@[k].meta_v(),
    ensures
        post.wf(),
        post.has_entry(epath, emeta),
        forall|q: Seq<char>, m: FsMetaV|
            q != epath ==> (pre.has_entry(q, m) <==> #[trigger] post.has_entry(q, m)),
        forall|q: Seq<char>|
            q != epath ==> (pre.contains_path(q) <==> #[trigger] post.contains_path(q)),
{
    assert forall|ii: int, jj: int|
        #![trigger post.entry_path(ii), post.entry_path(jj)]
        0 <= ii < post.entries@.len() && 0 <= jj < post.entries@.len() && ii != jj implies
        post.entry_path(ii) != post.entry_path(jj) by {
        if ii != special && jj != special {
            assert(post.entry_path(ii) == pre.entry_path(ii));
            assert(post.entry_path(jj) == pre.entry_path(jj));
            assert(pre.entry_path(ii) != pre.entry_path(jj));
        } else if ii == special {
            assert(post.entry_path(jj) != epath);
        } else {
            assert(post.entry_path(ii) != epath);
        }
    }
    assert forall|q: Seq<char>, m: FsMetaV|
        q != epath && pre.has_entry(q, m) implies #[trigger] post.has_entry(q, m) by {
        let w = choose|k: int|
            0 <= k < pre.entries@.len() && #[trigger] pre.entry_path(k) == q && pre.entries@[
                k].meta_v() == m;
        assert(post.entry_path(w) == q && post.entries@[w].meta_v() == m);
    }
    assert forall|q: Seq<char>, m: FsMetaV|
        q != epath && #[trigger] post.has_entry(q, m) implies pre.has_entry(q, m) by {
        let w = choose|k: int|
            0 <= k < post.entries@.len() && #[trigger] post.entry_path(k) == q && post.entries@[
                k].meta_v() == m;
        assert(w != special);
        assert(pre.entry_path(w) == q && pre.entries@[w].meta_v() == m);
    }
    assert forall|q: Seq<char>|
        q != epath && pre.contains_path(q) implies #[trigger] post.contains_path(q) by {
        let w = choose|k: int|
            0 <= k < pre.entries@.len() && #[trigger] pre.entry_path(k) == q;
        assert(post.entry_path(w) == q);
    }
    assert forall|q: Seq<char>|
        q != epath && #[trigger] post.contains_path(q) implies pre.contains_path(q) by {
        let w = choose|k: int|
            0 <= k < post.entries@.len() && #[trigger] post.entry_path(k) == q;
        assert(w != special);
        assert(pre.entry_path(w) == q);
    }
}

} // verus!
