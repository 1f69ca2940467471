//! The provisioning engine: building a guest's home directory from the
//! template tree, and tearing it down again.  Both operations run over
//! the filesystem model; the surrounding program mirrors each step onto
//! the real disk and re-checks the resulting permission bits there.

use vstd::prelude::*;
use crate::config::Config;
use crate::fs::{Fs, FsEntry, FsMetaV, path_is_contained, path_strictly_inside};

verus! {

/// The permission bits forced onto the top of every guest home.
pub open spec fn home_top_mode() -> int {
    0o700
}

/// The permission bits of the home-base directory.
pub open spec fn home_base_mode() -> int {
    0o755
}

/// Failures of the provisioning engine.
#[derive(Debug)]
pub enum ProvisionError {
    /// The target directory already exists.
    TargetConflict,
    /// The template tree is absent.
    TemplateMissing,
    /// The copy destination is absent and may not be created.
    DestinationMissing,
    /// The deletion target lies outside the home base; nothing is
    /// touched.
    UnsafePath,
}

/// The metadata of a directory entry.
pub open spec fn dir_meta(mode: int, uid: int, gid: int) -> FsMetaV {
    FsMetaV { is_dir: true, mode: mode, uid: uid, gid: gid }
}

/// Re-rooting a path from under `src` to under `dst`.
pub open spec fn rebased(p: Seq<char>, src: Seq<char>, dst: Seq<char>) -> Seq<char> {
    dst + p.skip(src.len() as int)
}

/// A path strictly inside a directory is the directory plus its tail.
proof fn lemma_inside_recompose(p: Seq<char>, base: Seq<char>)
    requires
        path_strictly_inside(p, base),
    ensures
        base + p.skip(base.len() as int) == p,
{
    assert(base + p.skip(base.len() as int) =~= p);
}

/// Re-rooting distinct paths under one source yields distinct paths.
proof fn lemma_rebased_injective(p1: Seq<char>, p2: Seq<char>, src: Seq<char>, dst: Seq<char>)
    requires
        path_strictly_inside(p1, src),
        path_strictly_inside(p2, src),
        rebased(p1, src, dst) == rebased(p2, src, dst),
    ensures
        p1 == p2,
{
    let s1 = p1.skip(src.len() as int);
    let s2 = p2.skip(src.len() as int);
    assert(s1 =~= (dst + s1).skip(dst.len() as int));
    assert(s2 =~= (dst + s2).skip(dst.len() as int));
    lemma_inside_recompose(p1, src);
    lemma_inside_recompose(p2, src);
    assert(p1 =~= p2);
}

/// A re-rooted path lies strictly inside the destination.
proof fn lemma_rebased_inside(p: Seq<char>, src: Seq<char>, dst: Seq<char>)
    requires
        path_strictly_inside(p, src),
    ensures
        path_strictly_inside(rebased(p, src, dst), dst),
{
    let r = rebased(p, src, dst);
    assert(r.subrange(0, dst.len() as int) =~= dst);
    assert(r[dst.len() as int] == p[src.len() as int]);
}

/// On a well-formed model, one path carries at most one metadata value.
proof fn lemma_unique_meta(fs: Fs, p: Seq<char>, m0: FsMetaV)
    requires
        fs.wf(),
        fs.has_entry(p, m0),
    ensures
        forall|m: FsMetaV| #[trigger] fs.has_entry(p, m) ==> m == m0,
{
    assert forall|m: FsMetaV| #[trigger] fs.has_entry(p, m) implies m == m0 by {
        let w0 = choose|i: int|
            0 <= i < fs.entries@.len() && #[trigger] fs.entry_path(i) == p && fs.entries@[
                i].meta_v() == m0;
        let w = choose|i: int|
            0 <= i < fs.entries@.len() && #[trigger] fs.entry_path(i) == p && fs.entries@[
                i].meta_v() == m;
    }
}

/// Every collected entry lies strictly inside `base` and copies an
/// entry of `fs`.
pub open spec fn under_sound(fs: Fs, base: Seq<char>, out: Seq<FsEntry>) -> bool {
    forall|k: int|
        #![trigger out[k]]
        0 <= k < out.len() ==> path_strictly_inside(out[k].path@, base) && fs.has_entry(
            out[k].path@,
            out[k].meta_v(),
        )
}

/// Every one of the first `n` entries of `fs` that lies strictly inside
/// `base` has been collected.
pub open spec fn under_complete(fs: Fs, base: Seq<char>, n: int, out: Seq<FsEntry>) -> bool {
    forall|t: int|
        #![trigger fs.entry_path(t)]
        0 <= t < n && path_strictly_inside(fs.entry_path(t), base) ==> exists|k: int|
            #![trigger out[k]]
            0 <= k < out.len() && out[k].path@ == fs.entry_path(t) && out[k].meta_v()
                == fs.entries@[t].meta_v()
}

/// Every entry of `fs` strictly inside `base` appears in the collection.
pub open spec fn under_covers(fs: Fs, base: Seq<char>, out: Seq<FsEntry>) -> bool {
    forall|q: Seq<char>, m: FsMetaV|
        #![trigger fs.has_entry(q, m)]
        path_strictly_inside(q, base) && fs.has_entry(q, m) ==> exists|k: int|
            #![trigger out[k]]
            0 <= k < out.len() && out[k].path@ == q && out[k].meta_v() == m
}

/// Collecting entry `n` as well keeps the collection sound and complete.
proof fn lemma_under_extend_push(
    fs: Fs,
    base: Seq<char>,
    n: int,
    old_out: Seq<FsEntry>,
    out: Seq<FsEntry>,
)
    requires
        fs.wf(),
        0 <= n < fs.entries@.len(),
        under_sound(fs, base, old_out),
        under_complete(fs, base, n, old_out),
        out.len() == old_out.len() + 1,
        forall|k: int| #![trigger out[k]] 0 <= k < old_out.len() ==> out[k] == old_out[k],
        out[out.len() - 1].path@ == fs.entry_path(n),
        out[out.len() - 1].meta_v() == fs.entries@[n].meta_v(),
        path_strictly_inside(fs.entry_path(n), base),
    ensures
        under_sound(fs, base, out),
        under_complete(fs, base, n + 1, out),
{
    assert forall|k: int| #![trigger out[k]] 0 <= k < out.len() implies path_strictly_inside(
        out[k].path@,
        base,
    ) && fs.has_entry(out[k].path@, out[k].meta_v()) by {
        if k < old_out.len() {
            assert(out[k] == old_out[k]);
            assert(path_strictly_inside(old_out[k].path@, base) && fs.has_entry(
                old_out[k].path@,
                old_out[k].meta_v(),
            ));
        } else {
            assert(fs.entry_path(n) == out[k].path@ && fs.entries@[n].meta_v() == out[
                k].meta_v());
        }
    }
    assert forall|t: int|
        #![trigger fs.entry_path(t)]
        0 <= t < n + 1 && path_strictly_inside(fs.entry_path(t), base) implies exists|k: int|
        #![trigger out[k]]
        0 <= k < out.len() && out[k].path@ == fs.entry_path(t) && out[k].meta_v()
            == fs.entries@[t].meta_v() by {
        if t < n {
            let k = choose|k: int|
                #![trigger old_out[k]]
                0 <= k < old_out.len() && old_out[k].path@ == fs.entry_path(t) && old_out[
                    k].meta_v() == fs.entries@[t].meta_v();
            assert(out[k] == old_out[k]);
            assert(out[k].path@ == fs.entry_path(t));
        } else {
            assert(out[out.len() - 1].path@ == fs.entry_path(t));
        }
    }
}

/// Once the whole table is scanned, the collection covers every entry
/// strictly inside `base`.
proof fn lemma_under_finish(fs: Fs, base: Seq<char>, out: Seq<FsEntry>)
    requires
        fs.wf(),
        under_complete(fs, base, fs.entries@.len() as int, out),
    ensures
        under_covers(fs, base, out),
{
    assert forall|q: Seq<char>, m: FsMetaV|
        #![trigger fs.has_entry(q, m)]
        path_strictly_inside(q, base) && fs.has_entry(q, m) implies exists|k: int|
        #![trigger out[k]]
        0 <= k < out.len() && out[k].path@ == q && out[k].meta_v() == m by {
        let t = choose|t: int|
            0 <= t < fs.entries@.len() && #[trigger] fs.entry_path(t) == q && fs.entries@[
                t].meta_v() == m;
        let k = choose|k: int|
            #![trigger out[k]]
            0 <= k < out.len() && out[k].path@ == fs.entry_path(t) && out[k].meta_v()
                == fs.entries@[t].meta_v();
        assert(out[k].path@ == q && out[k].meta_v() == m);
    }
}

impl Fs {
    /// Every entry strictly inside `base`, copied out.
    pub fn entries_under(&self, base: &String) -> (r: Vec<FsEntry>)
        requires
            self.wf(),
        ensures
            under_sound(*self, base@, r@),
            under_covers(*self, base@, r@),
    {
        let ghost pre = *self;
        let mut out: Vec<FsEntry> = Vec::new();
        let mut i: usize = 0;
        while i < self.entries.len()
            invariant
                pre == *self,
                pre.wf(),
                i <= pre.entries@.len(),
                under_sound(pre, base@, out@),
                under_complete(pre, base@, i as int, out@),
            decreases pre.entries@.len() - i,
        {
            let ghost old_out = out@;
            let inside = path_is_contained(&self.entries[i].path, base);
            if inside {
                out.push(self.entries[i].duplicate());
                proof {
                    assert(out@[out@.len() - 1].path@ == pre.entry_path(i as int));
                    assert(out@[out@.len() - 1].meta_v() == pre.entries@[i as int].meta_v());
                    lemma_under_extend_push(pre, base@, i as int, old_out, out@);
                }
            }
            i = i + 1;
        }
        proof {
            lemma_under_finish(pre, base@, out@);
        }
        out
    }
}

/// Creates the home-base directory entry with its fixed ownership (the
/// privileged account) and permission bits, touching nothing else.
pub fn ensure_home_base_path(fs: &mut Fs, settings: &Config) -> (r: ())
    requires
        old(fs).wf(),
    ensures
        final(fs).wf(),
        final(fs).has_entry(settings.home_base_path@, dir_meta(home_base_mode(), 0, 0)),
        forall|q: Seq<char>, m: FsMetaV|
            q != settings.home_base_path@
                ==> (old(fs).has_entry(q, m) <==> #[trigger] final(fs).has_entry(q, m)),
        forall|q: Seq<char>|
            q != settings.home_base_path@
                ==> (old(fs).contains_path(q) <==> #[trigger] final(fs).contains_path(q)),
{
    fs.upsert(
        FsEntry {
            path: settings.home_base_path.clone(),
            is_dir: true,
            mode: 0o755,
            uid: 0,
            gid: 0,
        },
    );
}

/// Copies the tree under `gsrc` to under `gdst`, keeping each entry's
/// kind and permission bits but giving every copy the new owner.  When
/// `touch_topmost_directory` is set the destination directory itself is
/// created (or re-stamped) with the source's permission bits and the new
/// owner; otherwise it must already exist.
pub fn copy_dir_recursive_and_set_owner(
    fs: &mut Fs,
    gsrc: &String,
    gdst: &String,
    uid: u32,
    gid: u32,
    touch_topmost_directory: bool,
) -> (r: Result<(), ProvisionError>)
    requires
        old(fs).wf(),
        !path_strictly_inside(gdst@, gsrc@),
        !path_strictly_inside(gsrc@, gdst@),
        gsrc@ != gdst@,
    ensures
        final(fs).wf(),
        match r {
            Ok(()) => {
                &&& (touch_topmost_directory ==> exists|m: FsMetaV|
                    old(fs).has_entry(gsrc@, m) && #[trigger] final(fs).has_entry(
                        gdst@,
                        FsMetaV { is_dir: m.is_dir, mode: m.mode, uid: uid as int, gid: gid as int },
                    ))
                &&& (!touch_topmost_directory ==> exists|m: FsMetaV|
                    #[trigger] old(fs).has_entry(gdst@, m) && m.is_dir)
                &&& forall|q: Seq<char>, m: FsMetaV|
                    path_strictly_inside(q, gsrc@) && #[trigger] old(fs).has_entry(q, m)
                        ==> final(fs).has_entry(
                        rebased(q, gsrc@, gdst@),
                        FsMetaV { is_dir: m.is_dir, mode: m.mode, uid: uid as int, gid: gid as int },
                    )
                &&& forall|q: Seq<char>, m: FsMetaV|
                    !path_strictly_inside(q, gdst@) && (q != gdst@ || !touch_topmost_directory)
                        ==> (old(fs).has_entry(q, m) <==> #[trigger] final(fs).has_entry(q, m))
                &&& forall|q: Seq<char>|
                    !path_strictly_inside(q, gdst@) && (q != gdst@ || !touch_topmost_directory)
                        ==> (old(fs).contains_path(q) <==> #[trigger] final(fs).contains_path(q))
                &&& forall|q: Seq<char>|
                    path_strictly_inside(q, gdst@) && #[trigger] final(fs).contains_path(q) ==> old(
                        fs,
                    ).contains_path(q) || old(fs).contains_path(rebased(q, gdst@, gsrc@))
            },
            Err(ProvisionError::TemplateMissing) => !(exists|m: FsMetaV|
                old(fs).has_entry(gsrc@, m) && m.is_dir) && *final(fs) == *old(fs),
            Err(ProvisionError::DestinationMissing) => !touch_topmost_directory && !(exists|
                m: FsMetaV,
            |
                old(fs).has_entry(gdst@, m) && m.is_dir) && (exists|m: FsMetaV|
                old(fs).has_entry(gsrc@, m) && m.is_dir) && *final(fs) == *old(fs),
            _ => false,
        },
{
    let src_top = match fs.stat(gsrc) {
        Some(e) => {
            if !e.is_dir {
                proof {
                    lemma_unique_meta(*fs, gsrc@, e.meta_v());
                }
                return Err(ProvisionError::TemplateMissing);
            }
            e
        },
        None => {
            return Err(ProvisionError::TemplateMissing);
        },
    };
    if !touch_topmost_directory {
        match fs.stat(gdst) {
            Some(e) => {
                if !e.is_dir {
                    proof {
                        lemma_unique_meta(*fs, gdst@, e.meta_v());
                        lemma_unique_meta(*fs, gsrc@, src_top.meta_v());
                    }
                    return Err(ProvisionError::DestinationMissing);
                }
                proof {
                    assert(fs.has_entry(gdst@, e.meta_v()) && e.meta_v().is_dir);
                }
            },
            None => {
                proof {
                    lemma_unique_meta(*fs, gsrc@, src_top.meta_v());
                }
                return Err(ProvisionError::DestinationMissing);
            },
        }
    }
    let ghost pre = *fs;
    let children = fs.entries_under(gsrc);
    if touch_topmost_directory {
        let top = FsEntry {
            path: gdst.clone(),
            is_dir: src_top.is_dir,
            mode: src_top.mode,
            uid,
            gid,
        };
        fs.upsert(top);
    }
    let ghost mid = *fs;
    let gsl = gsrc.as_str().unicode_len();
    let mut j: usize = 0;
    while j < children.len()
        invariant
            fs.wf(),
            pre.wf(),
            gsl == gsrc@.len(),
            gsrc@ != gdst@,
            !path_strictly_inside(gdst@, gsrc@),
            !path_strictly_inside(gsrc@, gdst@),
            j <= children@.len(),
            under_sound(pre, gsrc@, children@),
            under_covers(pre, gsrc@, children@),
            forall|k: int|
                0 <= k < j ==> #[trigger] fs.has_entry(
                    rebased(children@[k].path@, gsrc@, gdst@),
                    FsMetaV {
                        is_dir: children@[k].meta_v().is_dir,
                        mode: children@[k].meta_v().mode,
                        uid: uid as int,
                        gid: gid as int,
                    },
                ),
            forall|q: Seq<char>, m: FsMetaV|
                !path_strictly_inside(q, gdst@) ==> (mid.has_entry(q, m)
                    <==> #[trigger] fs.has_entry(q, m)),
            forall|q: Seq<char>|
                !path_strictly_inside(q, gdst@) ==> (mid.contains_path(q)
                    <==> #[trigger] fs.contains_path(q)),
            forall|q: Seq<char>|
                path_strictly_inside(q, gdst@) && #[trigger] fs.contains_path(q)
                    ==> mid.contains_path(q) || pre.contains_path(rebased(q, gdst@, gsrc@)),
        decreases children@.len() - j,
    {
        let ghost fs_before = *fs;
        let child_len = children[j].path.as_str().unicode_len();
        proof {
            assert(path_strictly_inside(children@[j as int].path@, gsrc@));
        }
        let rel = children[j].path.as_str().substring_char(gsl, child_len);
        let mut newpath = gdst.clone();
        newpath.append(rel);
        proof {
            assert(newpath@ == rebased(children@[j as int].path@, gsrc@, gdst@));
            lemma_rebased_inside(children@[j as int].path@, gsrc@, gdst@);
        }
        let entry = FsEntry {
            path: newpath,
            is_dir: children[j].is_dir,
            mode: children[j].mode,
            uid,
            gid,
        };
        let ghost epath = entry.path@;
        fs.upsert(entry);
        proof {
            let cj = children@[j as int].path@;
            assert(fs.has_entry(
                rebased(cj, gsrc@, gdst@),
                FsMetaV {
                    is_dir: children@[j as int].meta_v().is_dir,
                    mode: children@[j as int].meta_v().mode,
                    uid: uid as int,
                    gid: gid as int,
                },
            ));
            assert forall|k: int| 0 <= k < j + 1 implies #[trigger] fs.has_entry(
                rebased(children@[k].path@, gsrc@, gdst@),
                FsMetaV {
                    is_dir: children@[k].meta_v().is_dir,
                    mode: children@[k].meta_v().mode,
                    uid: uid as int,
                    gid: gid as int,
                },
            ) by {
                let ck = children@[k];
                if k < j {
                    if rebased(children@[k].path@, gsrc@, gdst@) != epath {
                        assert(fs_before.has_entry(
                            rebased(children@[k].path@, gsrc@, gdst@),
                            FsMetaV {
                                is_dir: children@[k].meta_v().is_dir,
                                mode: children@[k].meta_v().mode,
                                uid: uid as int,
                                gid: gid as int,
                            },
                        ));
                    } else {
                        lemma_rebased_injective(children@[k].path@, cj, gsrc@, gdst@);
                        assert(pre.has_entry(cj, children@[j as int].meta_v()));
                        assert(pre.has_entry(cj, children@[k].meta_v()));
                        lemma_unique_meta(pre, cj, children@[j as int].meta_v());
                        assert(children@[k].meta_v() == children@[j as int].meta_v());
                    }
                }
            }
            assert forall|q: Seq<char>|
                path_strictly_inside(q, gdst@) && #[trigger] fs.contains_path(q) implies
                mid.contains_path(q) || pre.contains_path(rebased(q, gdst@, gsrc@)) by {
                if q != epath {
                    assert(fs_before.contains_path(q));
                } else {
                    lemma_inside_recompose(cj, gsrc@);
                    lemma_inside_recompose(q, gdst@);
                    assert(rebased(q, gdst@, gsrc@) =~= cj);
                    assert(pre.contains_path(cj));
                }
            }
        }
        j = j + 1;
    }
    proof {
        assert forall|q: Seq<char>, m: FsMetaV|
            path_strictly_inside(q, gsrc@) && #[trigger] pre.has_entry(q, m) implies fs.has_entry(
            rebased(q, gsrc@, gdst@),
            FsMetaV { is_dir: m.is_dir, mode: m.mode, uid: uid as int, gid: gid as int },
        ) by {
            let k = choose|k: int|
                #![trigger children@[k]]
                0 <= k < children@.len() && children@[k].path@ == q && children@[k].meta_v() == m;
            assert(fs.has_entry(
                rebased(children@[k].path@, gsrc@, gdst@),
                FsMetaV {
                    is_dir: children@[k].meta_v().is_dir,
                    mode: children@[k].meta_v().mode,
                    uid: uid as int,
                    gid: gid as int,
                },
            ));
        }
        if touch_topmost_directory {
            assert(pre.has_entry(gsrc@, src_top.meta_v()));
            assert(mid.has_entry(
                gdst@,
                FsMetaV {
                    is_dir: src_top.meta_v().is_dir,
                    mode: src_top.meta_v().mode,
                    uid: uid as int,
                    gid: gid as int,
                },
            ));
            assert(!path_strictly_inside(gdst@, gdst@));
            assert(fs.has_entry(
                gdst@,
                FsMetaV {
                    is_dir: src_top.meta_v().is_dir,
                    mode: src_top.meta_v().mode,
                    uid: uid as int,
                    gid: gid as int,
                },
            ));
        }
        assert forall|q: Seq<char>, m: FsMetaV|
            !path_strictly_inside(q, gdst@) && (q != gdst@ || !touch_topmost_directory) implies (
            pre.has_entry(q, m) <==> #[trigger] fs.has_entry(q, m)) by {
            assert(mid.has_entry(q, m) <==> fs.has_entry(q, m));
        }
        assert forall|q: Seq<char>|
            !path_strictly_inside(q, gdst@) && (q != gdst@ || !touch_topmost_directory) implies (
            pre.contains_path(q) <==> #[trigger] fs.contains_path(q)) by {
            assert(mid.contains_path(q) <==> fs.contains_path(q));
        }
        assert forall|q: Seq<char>|
            path_strictly_inside(q, gdst@) && #[trigger] fs.contains_path(q) implies
            pre.contains_path(q) || pre.contains_path(rebased(q, gdst@, gsrc@)) by {
            assert(mid.contains_path(q) || pre.contains_path(rebased(q, gdst@, gsrc@)));
            if mid.contains_path(q) {
                assert(q != gdst@);
                assert(pre.contains_path(q));
            }
        }
    }
    Ok(())
}

/// Strict containment is transitive.
proof fn lemma_inside_trans(p: Seq<char>, a: Seq<char>, b: Seq<char>)
    requires
        path_strictly_inside(p, a),
        path_strictly_inside(a, b),
    ensures
        path_strictly_inside(p, b),
{
    assert(p.subrange(0, b.len() as int) =~= a.subrange(0, b.len() as int));
}

/// Two directories containing one path are equal or nested.
proof fn lemma_ancestors_comparable(p: Seq<char>, a: Seq<char>, b: Seq<char>)
    requires
        path_strictly_inside(p, a),
        path_strictly_inside(p, b),
        a.len() <= b.len(),
    ensures
        a == b || path_strictly_inside(b, a),
{
    if a.len() == b.len() {
        assert(a =~= b);
    } else {
        assert(b.subrange(0, a.len() as int) =~= a) by {
            assert(b =~= p.subrange(0, b.len() as int));
        }
        assert(b[a.len() as int] == p[a.len() as int]);
    }
}

/// What a successful home creation guarantees: the target directory is
/// new, carries the fixed restrictive mode and the guest's ownership,
/// the home base carries its fixed mode and the privileged ownership,
/// the template tree is mirrored under the target with ownership
/// reassigned, nothing else changes, and nothing appears under the
/// target that does not stem from the template.
pub open spec fn created_home(
    pre: Fs,
    post: Fs,
    template: Seq<char>,
    target: Seq<char>,
    base: Seq<char>,
    uid: int,
    gid: int,
) -> bool {
    &&& !pre.contains_path(target)
    &&& post.has_entry(target, dir_meta(home_top_mode(), uid, gid))
    &&& post.has_entry(base, dir_meta(home_base_mode(), 0, 0))
    &&& forall|q: Seq<char>, m: FsMetaV|
        #![trigger pre.has_entry(q, m)]
        path_strictly_inside(q, template) && pre.has_entry(q, m) ==> post.has_entry(
            rebased(q, template, target),
            FsMetaV { is_dir: m.is_dir, mode: m.mode, uid: uid, gid: gid },
        )
    &&& forall|q: Seq<char>, m: FsMetaV|
        #![trigger pre.has_entry(q, m)]
        #![trigger post.has_entry(q, m)]
        q != base && q != target && !path_strictly_inside(q, target) ==> (pre.has_entry(q, m)
            <==> post.has_entry(q, m))
    &&& forall|q: Seq<char>|
        #![trigger pre.contains_path(q)]
        #![trigger post.contains_path(q)]
        q != base && q != target && !path_strictly_inside(q, target) ==> (pre.contains_path(q)
            <==> post.contains_path(q))
    &&& forall|q: Seq<char>|
        #![trigger post.contains_path(q)]
        path_strictly_inside(q, target) && post.contains_path(q) ==> pre.contains_path(q)
            || pre.contains_path(rebased(q, target, template))
}

/// What a completed home removal guarantees: the target and everything
/// under it are gone and every other path is exactly as it was.
pub open spec fn removed_home(pre: Fs, post: Fs, target: Seq<char>) -> bool {
    &&& forall|q: Seq<char>|
        #![trigger post.contains_path(q)]
        q == target || path_strictly_inside(q, target) ==> !post.contains_path(q)
    &&& forall|q: Seq<char>, m: FsMetaV|
        #![trigger pre.has_entry(q, m)]
        #![trigger post.has_entry(q, m)]
        q != target && !path_strictly_inside(q, target) ==> (pre.has_entry(q, m)
            <==> post.has_entry(q, m))
    &&& forall|q: Seq<char>|
        #![trigger pre.contains_path(q)]
        #![trigger post.contains_path(q)]
        q != target && !path_strictly_inside(q, target) ==> (pre.contains_path(q)
            <==> post.contains_path(q))
}

/// Builds a guest home directory at `target_dir` from the template tree
/// at `template_dir`.
///
/// The target must not exist yet; a pre-existing directory of the same
/// name indicates an allocation bug or stale state and is reported as a
/// conflict without touching anything.  On success the home base exists
/// with its fixed mode and privileged ownership, the template's contents
/// are mirrored with each entry's permission bits kept but ownership
/// reassigned to the guest, and the target's own top-level directory
/// carries the fixed restrictive mode no matter what mode the template
/// top carries.  The program driving the real disk re-checks that mode
/// after mirroring this operation.
pub fn create_home(
    fs: &mut Fs,
    template_dir: &String,
    target_dir: &String,
    home_base_dir: &String,
    owner_uid: u32,
    owner_gid: u32,
) -> (r: Result<(), ProvisionError>)
    requires
        old(fs).wf(),
        path_strictly_inside(target_dir@, home_base_dir@),
        template_dir@ != home_base_dir@,
        !path_strictly_inside(template_dir@, home_base_dir@),
        !path_strictly_inside(home_base_dir@, template_dir@),
    ensures
        final(fs).wf(),
        match r {
            Ok(()) => created_home(
                *old(fs),
                *final(fs),
                template_dir@,
                target_dir@,
                home_base_dir@,
                owner_uid as int,
                owner_gid as int,
            ),
            Err(ProvisionError::TargetConflict) => old(fs).contains_path(target_dir@)
                && *final(fs) == *old(fs),
            Err(ProvisionError::TemplateMissing) => !(exists|m: FsMetaV|
                old(fs).has_entry(template_dir@, m) && m.is_dir) && *final(fs) == *old(fs),
            _ => false,
        },
{
    proof {
        if path_strictly_inside(target_dir@, template_dir@) {
            if template_dir@.len() <= home_base_dir@.len() {
                lemma_ancestors_comparable(target_dir@, template_dir@, home_base_dir@);
            } else {
                lemma_ancestors_comparable(target_dir@, home_base_dir@, template_dir@);
            }
        }
        if path_strictly_inside(template_dir@, target_dir@) {
            lemma_inside_trans(template_dir@, target_dir@, home_base_dir@);
        }
    }
    if fs.exists_path(target_dir) {
        return Err(ProvisionError::TargetConflict);
    }
    match fs.stat(template_dir) {
        Some(e) => {
            if !e.is_dir {
                proof {
                    lemma_unique_meta(*fs, template_dir@, e.meta_v());
                }
                return Err(ProvisionError::TemplateMissing);
            }
        },
        None => {
            return Err(ProvisionError::TemplateMissing);
        },
    }
    let ghost fs0 = *fs;
    fs.upsert(
        FsEntry { path: home_base_dir.clone(), is_dir: true, mode: 0o755, uid: 0, gid: 0 },
    );
    fs.upsert(
        FsEntry {
            path: target_dir.clone(),
            is_dir: true,
            mode: 0o700,
            uid: owner_uid,
            gid: owner_gid,
        },
    );
    let ghost fs2 = *fs;
    proof {
        assert forall|q: Seq<char>, m: FsMetaV|
            path_strictly_inside(q, template_dir@) && #[trigger] fs0.has_entry(q, m) implies
            fs2.has_entry(q, m) by {
            if path_strictly_inside(q, home_base_dir@) || q == home_base_dir@ {
                if q == home_base_dir@ {
                    assert(path_strictly_inside(home_base_dir@, template_dir@));
                }
            }
            assert(q != home_base_dir@ && q != target_dir@);
        }
        assert(exists|m: FsMetaV| #[trigger] fs2.has_entry(template_dir@, m) && m.is_dir) by {
            let m0 = choose|m: FsMetaV| #[trigger] fs0.has_entry(template_dir@, m) && m.is_dir;
            assert(fs2.has_entry(template_dir@, m0));
        }
    }
    let copy_result = copy_dir_recursive_and_set_owner(
        fs,
        template_dir,
        target_dir,
        owner_uid,
        owner_gid,
        false,
    );
    match copy_result {
        Ok(()) => {
        },
        Err(_) => {
            proof {
                assert(false);
            }
            return Err(ProvisionError::TemplateMissing);
        },
    }
    proof {
        let post = *fs;
        let uid = owner_uid as int;
        let gid = owner_gid as int;
        assert(post.has_entry(target_dir@, dir_meta(home_top_mode(), uid, gid)));
        assert(post.has_entry(home_base_dir@, dir_meta(home_base_mode(), 0, 0))) by {
            assert(!path_strictly_inside(home_base_dir@, target_dir@));
            assert(fs2.has_entry(home_base_dir@, dir_meta(home_base_mode(), 0, 0)));
        }
        assert forall|q: Seq<char>, m: FsMetaV|
            path_strictly_inside(q, template_dir@) && #[trigger] fs0.has_entry(q, m) implies
            post.has_entry(
            rebased(q, template_dir@, target_dir@),
            FsMetaV { is_dir: m.is_dir, mode: m.mode, uid: uid, gid: gid },
        ) by {
            assert(fs2.has_entry(q, m));
        }
        assert forall|q: Seq<char>, m: FsMetaV|
            #![trigger fs0.has_entry(q, m)]
            #![trigger post.has_entry(q, m)]
            q != home_base_dir@ && q != target_dir@ && !path_strictly_inside(
                q,
                target_dir@,
            ) implies (fs0.has_entry(q, m) <==> post.has_entry(q, m)) by {
            assert(fs2.has_entry(q, m) <==> post.has_entry(q, m));
        }
        assert forall|q: Seq<char>|
            #![trigger fs0.contains_path(q)]
            #![trigger post.contains_path(q)]
            q != home_base_dir@ && q != target_dir@ && !path_strictly_inside(
                q,
                target_dir@,
            ) implies (fs0.contains_path(q) <==> post.contains_path(q)) by {
            assert(fs2.contains_path(q) <==> post.contains_path(q));
        }
        assert forall|q: Seq<char>|
            path_strictly_inside(q, target_dir@) && #[trigger] post.contains_path(q) implies
            fs0.contains_path(q) || fs0.contains_path(
            rebased(q, target_dir@, template_dir@),
        ) by {
            assert(fs2.contains_path(q) || fs2.contains_path(
                rebased(q, target_dir@, template_dir@),
            ));
            if fs2.contains_path(q) {
                assert(q != home_base_dir@ && q != target_dir@);
                assert(fs0.contains_path(q));
            } else if fs2.contains_path(rebased(q, target_dir@, template_dir@)) {
                let b = rebased(q, target_dir@, template_dir@);
                assert(path_strictly_inside(b, template_dir@)) by {
                    lemma_rebased_inside(q, target_dir@, template_dir@);
                }
                if b == target_dir@ || path_strictly_inside(b, target_dir@) {
                    if b == target_dir@ {
                        assert(path_strictly_inside(target_dir@, template_dir@));
                    } else {
                        if template_dir@.len() <= target_dir@.len() {
                            lemma_ancestors_comparable(b, template_dir@, target_dir@);
                        } else {
                            lemma_ancestors_comparable(b, target_dir@, template_dir@);
                        }
                        if path_strictly_inside(template_dir@, target_dir@) {
                            lemma_inside_trans(template_dir@, target_dir@, home_base_dir@);
                        }
                    }
                    if path_strictly_inside(target_dir@, template_dir@) {
                        if template_dir@.len() <= home_base_dir@.len() {
                            lemma_ancestors_comparable(
                                target_dir@,
                                template_dir@,
                                home_base_dir@,
                            );
                        } else {
                            lemma_ancestors_comparable(
                                target_dir@,
                                home_base_dir@,
                                template_dir@,
                            );
                        }
                    }
                    assert(false);
                }
                assert(b != home_base_dir@);
                assert(fs0.contains_path(b));
            }
        }
    }
    Ok(())
}

/// Tears a guest home down after re-checking that the target lies
/// lexically inside the home base; a target outside it is refused and
/// nothing is touched.  Removing an already absent home is a no-op, not
/// an error.
pub fn remove_home(fs: &mut Fs, target_dir: &String, home_base_dir: &String) -> (r: Result<
    (),
    ProvisionError,
>)
    requires
        old(fs).wf(),
    ensures
        final(fs).wf(),
        match r {
            Ok(()) => path_strictly_inside(target_dir@, home_base_dir@) && (if old(fs).contains_path(target_dir@) {
                removed_home(*old(fs), *final(fs), target_dir@)
            } else {
                *final(fs) == *old(fs)
            }),
            Err(ProvisionError::UnsafePath) => !path_strictly_inside(target_dir@, home_base_dir@)
                && *final(fs) == *old(fs),
            _ => false,
        },
{
    if !path_is_contained(target_dir, home_base_dir) {
        return Err(ProvisionError::UnsafePath);
    }
    if !fs.exists_path(target_dir) {
        return Ok(());
    }
    fs.remove_subtree(target_dir);
    Ok(())
}

/// Creating a home and at once removing it leaves no trace of the
/// target directory, and every path other than the home base and the
/// target subtree is exactly as it started.
pub proof fn lemma_create_then_remove_leaves_no_trace(
    fs0: Fs,
    fs1: Fs,
    fs2: Fs,
    template: Seq<char>,
    target: Seq<char>,
    base: Seq<char>,
    uid: int,
    gid: int,
)
    requires
        created_home(fs0, fs1, template, target, base, uid, gid),
        removed_home(fs1, fs2, target),
    ensures
        !fs2.contains_path(target),
        forall|q: Seq<char>|
            path_strictly_inside(q, target) ==> !#[trigger] fs2.contains_path(q),
        forall|q: Seq<char>, m: FsMetaV|
            #![trigger fs0.has_entry(q, m)]
            #![trigger fs2.has_entry(q, m)]
            q != base && q != target && !path_strictly_inside(q, target) ==> (fs0.has_entry(q, m)
                <==> fs2.has_entry(q, m)),
        forall|q: Seq<char>|
            #![trigger fs0.contains_path(q)]
            #![trigger fs2.contains_path(q)]
            q != base && q != target && !path_strictly_inside(q, target) ==> (fs0.contains_path(q)
                <==> fs2.contains_path(q)),
{
    assert forall|q: Seq<char>, m: FsMetaV|
        #![trigger fs0.has_entry(q, m)]
        #![trigger fs2.has_entry(q, m)]
        q != base && q != target && !path_strictly_inside(q, target) implies (fs0.has_entry(q, m)
        <==> fs2.has_entry(q, m)) by {
        assert(fs0.has_entry(q, m) <==> fs1.has_entry(q, m));
        assert(fs1.has_entry(q, m) <==> fs2.has_entry(q, m));
    }
    assert forall|q: Seq<char>|
        #![trigger fs0.contains_path(q)]
        #![trigger fs2.contains_path(q)]
        q != base && q != target && !path_strictly_inside(q, target) implies (fs0.contains_path(
        q,
    ) <==> fs2.contains_path(q)) by {
        assert(fs0.contains_path(q) <==> fs1.contains_path(q));
        assert(fs1.contains_path(q) <==> fs2.contains_path(q));
    }
}

} // verus!
