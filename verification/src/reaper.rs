//! The reaper: after a session-end notification, re-examines every
//! stored guest and removes the home directory of each one that no
//! longer holds an active session.  The notification carries no account
//! identity, so liveness is recomputed for all guests from scratch on
//! every event.

use vstd::prelude::*;
use crate::config::Config;
use crate::fs::{Fs, path_strictly_inside};
use crate::provision::remove_home;
use crate::sources::SessionSource;
use crate::store::{Store, UserV};

verus! {

/// A guest's home is ripe for removal: it exists, it lies inside the
/// home base, and the guest holds no active session.
pub open spec fn ripe(u: UserV, pre: Fs, base: Seq<char>, active: Set<Seq<char>>) -> bool {
    &&& pre.contains_path(u.home_path)
    &&& path_strictly_inside(u.home_path, base)
    &&& !active.contains(u.user_name)
}

/// No stored home is another stored home, nor inside one: the guests'
/// directories are independent of each other.
pub open spec fn homes_independent(users: Seq<UserV>) -> bool {
    forall|i: int, j: int|
        #![trigger users[i], users[j]]
        0 <= i < users.len() && 0 <= j < users.len() && i != j ==> users[i].home_path
            != users[j].home_path && !path_strictly_inside(users[i].home_path, users[j].home_path)
}

/// The path `q` is touched by none of the first `n` guests' removals.
pub open spec fn outside_reaped(
    users: Seq<UserV>,
    pre: Fs,
    base: Seq<char>,
    active: Set<Seq<char>>,
    n: int,
    q: Seq<char>,
) -> bool {
    forall|t: int|
        #![trigger users[t]]
        0 <= t < n && ripe(users[t], pre, base, active) ==> q != users[t].home_path
            && !path_strictly_inside(q, users[t].home_path)
}

/// Every ripe home among the first `n` is gone.
pub open spec fn reaped(
    users: Seq<UserV>,
    pre: Fs,
    post: Fs,
    base: Seq<char>,
    active: Set<Seq<char>>,
    n: int,
) -> bool {
    forall|t: int|
        #![trigger users[t]]
        0 <= t < n && ripe(users[t], pre, base, active) ==> !post.contains_path(
            users[t].home_path,
        )
}

/// Every path not under a ripe home among the first `n` is untouched.
pub open spec fn reap_frame(
    users: Seq<UserV>,
    pre: Fs,
    post: Fs,
    base: Seq<char>,
    active: Set<Seq<char>>,
    n: int,
) -> bool {
    &&& forall|q: Seq<char>, m: crate::fs::FsMetaV|
        #![trigger pre.has_entry(q, m)]
        #![trigger post.has_entry(q, m)]
        outside_reaped(users, pre, base, active, n, q) ==> (pre.has_entry(q, m)
            <==> post.has_entry(q, m))
    &&& forall|q: Seq<char>|
        #![trigger pre.contains_path(q)]
        #![trigger post.contains_path(q)]
        outside_reaped(users, pre, base, active, n, q) ==> (pre.contains_path(q)
            <==> post.contains_path(q))
}

/// One full reaper pass over every stored guest.
///
/// Each guest whose home directory exists, lies inside the home base,
/// and has no active session loses that directory; a home outside the
/// home base is skipped, never deleted; every other path on the
/// filesystem is untouched.  The store itself is only read: records
/// survive the pass.
pub fn session_end_cleanup<S: SessionSource>(
    store: &Store,
    fs: &mut Fs,
    config: &Config,
    sessions: &S,
) -> (r: ())
    requires
        store.wf(),
        old(fs).wf(),
        homes_independent(store.users_v()),
    ensures
        final(fs).wf(),
        reaped(
            store.users_v(),
            *old(fs),
            *final(fs),
            config.home_base_path@,
            sessions.active_names(),
            store.users_v().len() as int,
        ),
        reap_frame(
            store.users_v(),
            *old(fs),
            *final(fs),
            config.home_base_path@,
            sessions.active_names(),
            store.users_v().len() as int,
        ),
{
    let ghost pre = *fs;
    let ghost users = store.users_v();
    let ghost base = config.home_base_path@;
    let ghost active = sessions.active_names();
    let guests = store.get_users();
    let mut i: usize = 0;
    while i < guests.len()
        invariant
            store.wf(),
            fs.wf(),
            pre.wf(),
            i <= guests@.len(),
            users == store.users_v(),
            base == config.home_base_path@,
            active == sessions.active_names(),
            guests@.len() == users.len(),
            forall|k: int| 0 <= k < guests@.len() ==> (#[trigger] guests@[k])@ == users[k],
            homes_independent(users),
            reaped(users, pre, *fs, base, active, i as int),
            reap_frame(users, pre, *fs, base, active, i as int),
        decreases guests@.len() - i,
    {
        let ghost fs_before = *fs;
        let guest = &guests[i];
        let ghost gu = users[i as int];
        if fs.exists_path(&guest.home_path) {
            let contained = crate::fs::path_is_contained(
                &guest.home_path,
                &config.home_base_path,
            );
            if contained {
                let active_now = sessions.has_session_for(&guest.user_name);
                if !active_now {
                    proof {
                        assert(outside_reaped(users, pre, base, active, i as int, gu.home_path))
                            by {
                            assert forall|t: int|
                                0 <= t < i && ripe(#[trigger] users[t], pre, base, active) implies
                                gu.home_path != users[t].home_path && !path_strictly_inside(
                                gu.home_path,
                                users[t].home_path,
                            ) by {}
                        }
                    }
                    let removal = remove_home(fs, &guest.home_path, &config.home_base_path);
                    proof {
                        match removal {
                            Ok(()) => {
                                assert(fs_before.contains_path(gu.home_path));
                                assert(!fs.contains_path(gu.home_path));
                            },
                            Err(_) => {
                                assert(false);
                            },
                        }
                        lemma_reap_step_removed(users, pre, fs_before, *fs, base, active, i as int);
                    }
                } else {
                    proof {
                        lemma_reap_step_skip(users, pre, *fs, base, active, i as int);
                    }
                }
            } else {
                proof {
                    lemma_reap_step_skip(users, pre, *fs, base, active, i as int);
                }
            }
        } else {
            proof {
                assert(outside_reaped(users, pre, base, active, i as int, gu.home_path)) by {
                    assert forall|t: int|
                        0 <= t < i && ripe(#[trigger] users[t], pre, base, active) implies
                        gu.home_path != users[t].home_path && !path_strictly_inside(
                        gu.home_path,
                        users[t].home_path,
                    ) by {}
                }
                assert(!pre.contains_path(gu.home_path));
                lemma_reap_step_skip(users, pre, *fs, base, active, i as int);
            }
        }
        i = i + 1;
    }
    proof {
        assert(users.len() == guests@.len());
    }
}

/// A step that removed the ripe home of guest `n` extends both the
/// removal guarantee and the frame to `n + 1` guests.
proof fn lemma_reap_step_removed(
    users: Seq<UserV>,
    pre: Fs,
    mid: Fs,
    post: Fs,
    base: Seq<char>,
    active: Set<Seq<char>>,
    n: int,
)
    requires
        0 <= n < users.len(),
        homes_independent(users),
        reaped(users, pre, mid, base, active, n),
        reap_frame(users, pre, mid, base, active, n),
        ripe(users[n], pre, base, active),
        crate::provision::removed_home(mid, post, users[n].home_path),
    ensures
        reaped(users, pre, post, base, active, n + 1),
        reap_frame(users, pre, post, base, active, n + 1),
{
    let target = users[n].home_path;
    assert forall|t: int|
        0 <= t < n + 1 && ripe(#[trigger] users[t], pre, base, active) implies !post.contains_path(
        users[t].home_path,
    ) by {
        if t < n {
            assert(!mid.contains_path(users[t].home_path));
            assert(users[t].home_path != target && !path_strictly_inside(
                users[t].home_path,
                target,
            ));
        } else {
            assert(!post.contains_path(target));
        }
    }
    assert forall|q: Seq<char>, m: crate::fs::FsMetaV|
        #![trigger pre.has_entry(q, m)]
        #![trigger post.has_entry(q, m)]
        outside_reaped(users, pre, base, active, n + 1, q) implies (pre.has_entry(q, m)
        <==> post.has_entry(q, m)) by {
        assert(users[n].home_path == target);
        assert(q != target && !path_strictly_inside(q, target));
        assert(outside_reaped(users, pre, base, active, n, q));
        assert(pre.has_entry(q, m) <==> mid.has_entry(q, m));
        assert(mid.has_entry(q, m) <==> post.has_entry(q, m));
    }
    assert forall|q: Seq<char>|
        #![trigger pre.contains_path(q)]
        #![trigger post.contains_path(q)]
        outside_reaped(users, pre, base, active, n + 1, q) implies (pre.contains_path(q)
        <==> post.contains_path(q)) by {
        assert(users[n].home_path == target);
        assert(q != target && !path_strictly_inside(q, target));
        assert(outside_reaped(users, pre, base, active, n, q));
        assert(pre.contains_path(q) <==> mid.contains_path(q));
        assert(mid.contains_path(q) <==> post.contains_path(q));
    }
}

/// A step that touched nothing extends both guarantees to `n + 1`
/// guests, provided guest `n` is not ripe or its home is already gone.
proof fn lemma_reap_step_skip(
    users: Seq<UserV>,
    pre: Fs,
    post: Fs,
    base: Seq<char>,
    active: Set<Seq<char>>,
    n: int,
)
    requires
        0 <= n < users.len(),
        reaped(users, pre, post, base, active, n),
        reap_frame(users, pre, post, base, active, n),
        ripe(users[n], pre, base, active) ==> !post.contains_path(users[n].home_path),
    ensures
        reaped(users, pre, post, base, active, n + 1),
        reap_frame(users, pre, post, base, active, n + 1),
{
    assert forall|t: int|
        0 <= t < n + 1 && ripe(#[trigger] users[t], pre, base, active) implies !post.contains_path(
        users[t].home_path,
    ) by {
        if t < n {
            assert(!post.contains_path(users[t].home_path));
        }
    }
    assert forall|q: Seq<char>, m: crate::fs::FsMetaV|
        #![trigger pre.has_entry(q, m)]
        #![trigger post.has_entry(q, m)]
        outside_reaped(users, pre, base, active, n + 1, q) implies (pre.has_entry(q, m)
        <==> post.has_entry(q, m)) by {
        assert(outside_reaped(users, pre, base, active, n, q));
    }
    assert forall|q: Seq<char>|
        #![trigger pre.contains_path(q)]
        #![trigger post.contains_path(q)]
        outside_reaped(users, pre, base, active, n + 1, q) implies (pre.contains_path(q)
        <==> post.contains_path(q)) by {
        assert(outside_reaped(users, pre, base, active, n, q));
    }
}

} // verus!
