//! The allocator: finds the next free user or group identity number and
//! name, avoiding both the identity store and the live OS identity
//! database.  Allocation scans upward from the greatest stored identity
//! number (or from just below the configured minimum on an empty store),
//! so identity numbers are handed out monotonically and gaps left by
//! deleted accounts are never reclaimed within a run.

use vstd::prelude::*;
use crate::config::Config;
use crate::names::{format_guest_name, guest_name_text, lemma_guest_name_injective};
use crate::sources::IdentitySource;
use crate::store::{Store, UserV, GroupV};

verus! {

/// Failures of the allocator.
#[derive(Debug)]
pub enum AllocError {
    /// Every candidate identity number up to the configured maximum is
    /// taken.
    NoFreeIdentity,
}

/// The greatest identity number among the user records, 0 on none.
pub open spec fn max_user_id_of(s: Seq<UserV>) -> int
    decreases s.len(),
{
    if s.len() == 0 {
        0
    } else {
        let m = max_user_id_of(s.drop_last());
        if s.last().id > m {
            s.last().id
        } else {
            m
        }
    }
}

/// The greatest identity number among the group records, 0 on none.
pub open spec fn max_group_id_of(s: Seq<GroupV>) -> int
    decreases s.len(),
{
    if s.len() == 0 {
        0
    } else {
        let m = max_group_id_of(s.drop_last());
        if s.last().id > m {
            s.last().id
        } else {
            m
        }
    }
}

/// Where the user scan starts: the candidate just before the first one
/// tried.
pub open spec fn user_alloc_start(store: Store, cfg: Config) -> int {
    let lo = cfg.uid_minimum - 1;
    let m = max_user_id_of(store.users_v());
    if m > lo {
        m
    } else {
        lo
    }
}

/// Where the group scan starts.
pub open spec fn group_alloc_start(store: Store, cfg: Config) -> int {
    let lo = cfg.gid_minimum - 1;
    let m = max_group_id_of(store.groups_v());
    if m > lo {
        m
    } else {
        lo
    }
}

/// A candidate is free when neither its number nor its name is in use by
/// a live OS account.
pub open spec fn candidate_free(
    busy_ids: Set<int>,
    busy_names: Set<Seq<char>>,
    prefix: Seq<char>,
    c: int,
) -> bool {
    !busy_ids.contains(c) && !busy_names.contains(guest_name_text(prefix, c))
}

/// The first free candidate in `[c, maximum]`, scanning upward; `None`
/// when every one is taken.
pub open spec fn first_free(
    busy_ids: Set<int>,
    busy_names: Set<Seq<char>>,
    prefix: Seq<char>,
    c: int,
    maximum: int,
) -> Option<int>
    decreases maximum + 1 - c,
{
    if c > maximum {
        None
    } else if candidate_free(busy_ids, busy_names, prefix, c) {
        Some(c)
    } else {
        first_free(busy_ids, busy_names, prefix, c + 1, maximum)
    }
}

/// No user record's identity number exceeds the maximum of them all.
proof fn lemma_max_user_id_of_ub(s: Seq<UserV>)
    ensures
        forall|i: int| 0 <= i < s.len() ==> (#[trigger] s[i]).id <= max_user_id_of(s),
    decreases s.len(),
{
    if s.len() > 0 {
        lemma_max_user_id_of_ub(s.drop_last());
        assert forall|i: int| 0 <= i < s.len() implies (#[trigger] s[i]).id <= max_user_id_of(
            s,
        ) by {
            if i < s.len() - 1 {
                assert(s.drop_last()[i] == s[i]);
            }
        }
    }
}

/// On a non-empty sequence the maximum is one of the identity numbers,
/// provided they are all at least 1.
proof fn lemma_max_user_id_of_mem(s: Seq<UserV>)
    requires
        s.len() > 0,
        forall|i: int| 0 <= i < s.len() ==> (#[trigger] s[i]).id >= 1,
    ensures
        exists|i: int| 0 <= i < s.len() && (#[trigger] s[i]).id == max_user_id_of(s),
    decreases s.len(),
{
    if s.len() == 1 {
        assert(s.drop_last().len() == 0);
        assert(max_user_id_of(s.drop_last()) == 0);
        assert(s[0].id == max_user_id_of(s));
    } else {
        assert forall|i: int| 0 <= i < s.drop_last().len() implies (#[trigger] s.drop_last()[i]).id
            >= 1 by {
            assert(s.drop_last()[i] == s[i]);
        }
        lemma_max_user_id_of_mem(s.drop_last());
        let w = choose|i: int|
            0 <= i < s.drop_last().len() && (#[trigger] s.drop_last()[i]).id == max_user_id_of(
                s.drop_last(),
            );
        if s.last().id > max_user_id_of(s.drop_last()) {
            assert(s[s.len() - 1].id == max_user_id_of(s));
        } else {
            assert(s[w].id == max_user_id_of(s));
        }
    }
}

/// The group counterparts of the two lemmas above.
proof fn lemma_max_group_id_of_ub(s: Seq<GroupV>)
    ensures
        forall|i: int| 0 <= i < s.len() ==> (#[trigger] s[i]).id <= max_group_id_of(s),
    decreases s.len(),
{
    if s.len() > 0 {
        lemma_max_group_id_of_ub(s.drop_last());
        assert forall|i: int| 0 <= i < s.len() implies (#[trigger] s[i]).id <= max_group_id_of(
            s,
        ) by {
            if i < s.len() - 1 {
                assert(s.drop_last()[i] == s[i]);
            }
        }
    }
}

proof fn lemma_max_group_id_of_mem(s: Seq<GroupV>)
    requires
        s.len() > 0,
        forall|i: int| 0 <= i < s.len() ==> (#[trigger] s[i]).id >= 1,
    ensures
        exists|i: int| 0 <= i < s.len() && (#[trigger] s[i]).id == max_group_id_of(s),
    decreases s.len(),
{
    if s.len() == 1 {
        assert(s.drop_last().len() == 0);
        assert(max_group_id_of(s.drop_last()) == 0);
        assert(s[0].id == max_group_id_of(s));
    } else {
        assert forall|i: int| 0 <= i < s.drop_last().len() implies (#[trigger] s.drop_last()[i]).id
            >= 1 by {
            assert(s.drop_last()[i] == s[i]);
        }
        lemma_max_group_id_of_mem(s.drop_last());
        let w = choose|i: int|
            0 <= i < s.drop_last().len() && (#[trigger] s.drop_last()[i]).id == max_group_id_of(
                s.drop_last(),
            );
        if s.last().id > max_group_id_of(s.drop_last()) {
            assert(s[s.len() - 1].id == max_group_id_of(s));
        } else {
            assert(s[w].id == max_group_id_of(s));
        }
    }
}

/// A found candidate lies in the scanned range and is free.
proof fn lemma_first_free_some(
    busy_ids: Set<int>,
    busy_names: Set<Seq<char>>,
    prefix: Seq<char>,
    c: int,
    maximum: int,
    id: int,
)
    requires
        first_free(busy_ids, busy_names, prefix, c, maximum) == Some(id),
    ensures
        c <= id <= maximum,
        candidate_free(busy_ids, busy_names, prefix, id),
    decreases maximum + 1 - c,
{
    if c <= maximum && !candidate_free(busy_ids, busy_names, prefix, c) {
        lemma_first_free_some(busy_ids, busy_names, prefix, c + 1, maximum, id);
    }
}

/// The next free user identity number and its login name.
///
/// The scan starts just above the greater of `uid_minimum - 1` and the
/// greatest stored user identity number, and returns the first candidate
/// whose number and name are both unused by live OS accounts; it fails
/// once the candidate exceeds `uid_maximum`.
pub fn find_next_unused_user_id_and_name<I: IdentitySource>(
    store: &Store,
    config: &Config,
    ids: &I,
) -> (r: Result<(i64, String), AllocError>)
    requires
        store.wf(),
        config.valid(),
    ensures
        match r {
            Ok((id, name)) => {
                let start = user_alloc_start(*store, *config);
                &&& first_free(
                    ids.busy_uids(),
                    ids.busy_usernames(),
                    config.guest_username_prefix@,
                    start + 1,
                    config.uid_maximum as int,
                ) == Some(id as int)
                &&& name@ == guest_name_text(config.guest_username_prefix@, id as int)
                &&& config.uid_minimum <= id <= config.uid_maximum
                &&& id > start
                &&& !ids.busy_uids().contains(id as int)
                &&& !ids.busy_usernames().contains(name@)
                &&& !store.has_user_id(id as int)
            },
            Err(AllocError::NoFreeIdentity) => first_free(
                ids.busy_uids(),
                ids.busy_usernames(),
                config.guest_username_prefix@,
                user_alloc_start(*store, *config) + 1,
                config.uid_maximum as int,
            ) is None,
        },
{
    let mut start: i64 = (config.uid_minimum as i64) - 1;
    match store.max_user_id() {
        Some(m) => {
            proof {
                lemma_max_user_id_of_ub(store.users_v());
                lemma_max_user_id_of_mem(store.users_v());
            }
            if m > start {
                start = m;
            }
        },
        None => {
        },
    }
    proof {
        assert(start == user_alloc_start(*store, *config));
        lemma_max_user_id_of_ub(store.users_v());
    }
    let maximum: i64 = config.uid_maximum as i64;
    if start >= maximum {
        return Err(AllocError::NoFreeIdentity);
    }
    let ghost bi = ids.busy_uids();
    let ghost bn = ids.busy_usernames();
    let ghost prefix = config.guest_username_prefix@;
    let mut c: i64 = start + 1;
    while c <= maximum
        invariant
            store.wf(),
            config.valid(),
            bi == ids.busy_uids(),
            bn == ids.busy_usernames(),
            prefix == config.guest_username_prefix@,
            start == user_alloc_start(*store, *config),
            maximum == config.uid_maximum as int,
            start < c <= maximum + 1,
            start >= config.uid_minimum - 1,
            first_free(bi, bn, prefix, start + 1, maximum as int) == first_free(
                bi,
                bn,
                prefix,
                c as int,
                maximum as int,
            ),
            forall|i: int|
                0 <= i < store.users_v().len() ==> (#[trigger] store.users_v()[i]).id <= start,
        decreases maximum + 1 - c,
    {
        let name = format_guest_name(config.guest_username_prefix.as_str(), c as u64);
        let id_busy = ids.uid_in_use(c);
        let name_busy = ids.username_in_use(&name);
        if !id_busy && !name_busy {
            proof {
                assert(candidate_free(bi, bn, prefix, c as int));
                assert(first_free(bi, bn, prefix, c as int, maximum as int) == Some(c as int));
            }
            return Ok((c, name));
        }
        proof {
            assert(!candidate_free(bi, bn, prefix, c as int));
            assert(first_free(bi, bn, prefix, c as int, maximum as int) == first_free(
                bi,
                bn,
                prefix,
                c as int + 1,
                maximum as int,
            ));
        }
        c = c + 1;
    }
    Err(AllocError::NoFreeIdentity)
}

/// The next free group identity number and its group name, found the
/// same way over the group range.
pub fn find_next_unused_group_id_and_name<I: IdentitySource>(
    store: &Store,
    config: &Config,
    ids: &I,
) -> (r: Result<(i64, String), AllocError>)
    requires
        store.wf(),
        config.valid(),
    ensures
        match r {
            Ok((id, name)) => {
                let start = group_alloc_start(*store, *config);
                &&& first_free(
                    ids.busy_gids(),
                    ids.busy_groupnames(),
                    config.guest_group_name_prefix@,
                    start + 1,
                    config.gid_maximum as int,
                ) == Some(id as int)
                &&& name@ == guest_name_text(config.guest_group_name_prefix@, id as int)
                &&& config.gid_minimum <= id <= config.gid_maximum
                &&& id > start
                &&& !ids.busy_gids().contains(id as int)
                &&& !ids.busy_groupnames().contains(name@)
                &&& !store.has_group_id(id as int)
            },
            Err(AllocError::NoFreeIdentity) => first_free(
                ids.busy_gids(),
                ids.busy_groupnames(),
                config.guest_group_name_prefix@,
                group_alloc_start(*store, *config) + 1,
                config.gid_maximum as int,
            ) is None,
        },
{
    let mut start: i64 = (config.gid_minimum as i64) - 1;
    match store.max_group_id() {
        Some(m) => {
            proof {
                lemma_max_group_id_of_ub(store.groups_v());
                lemma_max_group_id_of_mem(store.groups_v());
            }
            if m > start {
                start = m;
            }
        },
        None => {
        },
    }
    proof {
        assert(start == group_alloc_start(*store, *config));
        lemma_max_group_id_of_ub(store.groups_v());
    }
    let maximum: i64 = config.gid_maximum as i64;
    if start >= maximum {
        return Err(AllocError::NoFreeIdentity);
    }
    let ghost bi = ids.busy_gids();
    let ghost bn = ids.busy_groupnames();
    let ghost prefix = config.guest_group_name_prefix@;
    let mut c: i64 = start + 1;
    while c <= maximum
        invariant
            store.wf(),
            config.valid(),
            bi == ids.busy_gids(),
            bn == ids.busy_groupnames(),
            prefix == config.guest_group_name_prefix@,
            start == group_alloc_start(*store, *config),
            maximum == config.gid_maximum as int,
            start < c <= maximum + 1,
            start >= config.gid_minimum - 1,
            first_free(bi, bn, prefix, start + 1, maximum as int) == first_free(
                bi,
                bn,
                prefix,
                c as int,
                maximum as int,
            ),
            forall|i: int|
                0 <= i < store.groups_v().len() ==> (#[trigger] store.groups_v()[i]).id <= start,
        decreases maximum + 1 - c,
    {
        let name = format_guest_name(config.guest_group_name_prefix.as_str(), c as u64);
        let id_busy = ids.gid_in_use(c);
        let name_busy = ids.groupname_in_use(&name);
        if !id_busy && !name_busy {
            proof {
                assert(candidate_free(bi, bn, prefix, c as int));
                assert(first_free(bi, bn, prefix, c as int, maximum as int) == Some(c as int));
            }
            return Ok((c, name));
        }
        proof {
            assert(!candidate_free(bi, bn, prefix, c as int));
            assert(first_free(bi, bn, prefix, c as int, maximum as int) == first_free(
                bi,
                bn,
                prefix,
                c as int + 1,
                maximum as int,
            ));
        }
        c = c + 1;
    }
    Err(AllocError::NoFreeIdentity)
}

/// Against an initially empty store that has grown by one user per
/// allocation, with no identity busy on the live system, the next
/// allocation hands out exactly `uid_minimum + k` (where `k` users are
/// stored so far), and fails with no free identity exactly when that
/// candidate lies beyond `uid_maximum`.  Applied inductively this says
/// the k-th successful allocation returns `uid_minimum + k - 1`.
pub proof fn lemma_allocation_sequence(store: Store, cfg: Config, k: int)
    requires
        store.wf(),
        cfg.valid(),
        store.users_v().len() == k,
        forall|i: int|
            0 <= i < k ==> (#[trigger] store.users_v()[i]).id == cfg.uid_minimum + i,
    ensures
        cfg.uid_minimum + k <= cfg.uid_maximum ==> first_free(
            Set::<int>::empty(),
            Set::<Seq<char>>::empty(),
            cfg.guest_username_prefix@,
            user_alloc_start(store, cfg) + 1,
            cfg.uid_maximum as int,
        ) == Some(cfg.uid_minimum + k),
        cfg.uid_minimum + k > cfg.uid_maximum ==> first_free(
            Set::<int>::empty(),
            Set::<Seq<char>>::empty(),
            cfg.guest_username_prefix@,
            user_alloc_start(store, cfg) + 1,
            cfg.uid_maximum as int,
        ) is None,
{
    lemma_max_user_id_of_ub(store.users_v());
    if k == 0 {
        assert(user_alloc_start(store, cfg) == cfg.uid_minimum - 1);
    } else {
        lemma_max_user_id_of_mem(store.users_v());
        let w = choose|i: int|
            0 <= i < store.users_v().len() && (#[trigger] store.users_v()[i]).id
                == max_user_id_of(store.users_v());
        assert(store.users_v()[k - 1].id == cfg.uid_minimum + k - 1);
        assert(max_user_id_of(store.users_v()) == cfg.uid_minimum + k - 1);
        assert(user_alloc_start(store, cfg) == cfg.uid_minimum + k - 1);
    }
}

/// One successful allocation-and-insert under a quiet system extends a
/// store holding exactly the identity numbers `uid_minimum .. uid_minimum
/// + k` to one holding exactly `uid_minimum .. uid_minimum + k + 1`:
/// together with the sequence lemma above, the k-th successful
/// allocation from an initially empty store returns `uid_minimum + k -
/// 1` until the range runs out.
pub proof fn lemma_allocation_sequence_step(
    pre: Store,
    post: Store,
    cfg: Config,
    k: int,
    u: UserV,
)
    requires
        pre.wf(),
        cfg.valid(),
        pre.users_v().len() == k,
        forall|i: int|
            0 <= i < k ==> (#[trigger] pre.users_v()[i]).id == cfg.uid_minimum + i,
        post.users_v() == pre.users_v().push(u),
        first_free(
            Set::<int>::empty(),
            Set::<Seq<char>>::empty(),
            cfg.guest_username_prefix@,
            user_alloc_start(pre, cfg) + 1,
            cfg.uid_maximum as int,
        ) == Some(u.id),
    ensures
        u.id == cfg.uid_minimum + k,
        post.users_v().len() == k + 1,
        forall|i: int|
            0 <= i < k + 1 ==> (#[trigger] post.users_v()[i]).id == cfg.uid_minimum + i,
{
    lemma_allocation_sequence(pre, cfg, k);
    lemma_first_free_some(
        Set::<int>::empty(),
        Set::<Seq<char>>::empty(),
        cfg.guest_username_prefix@,
        user_alloc_start(pre, cfg) + 1,
        cfg.uid_maximum as int,
        u.id,
    );
    assert(u.id == cfg.uid_minimum + k);
    assert forall|i: int|
        0 <= i < k + 1 implies (#[trigger] post.users_v()[i]).id == cfg.uid_minimum + i by {
        if i < k {
            assert(post.users_v()[i] == pre.users_v()[i]);
        } else {
            assert(post.users_v()[i] == u);
        }
    }
}

/// The allocator never hands out an identity number or name already
/// present in the store, nor one the live OS identity source reports as
/// busy.  The store-name half assumes stored login names follow the
/// configured naming scheme `{prefix}-{id}`.
pub proof fn lemma_allocator_result_fresh(
    store: Store,
    cfg: Config,
    busy_ids: Set<int>,
    busy_names: Set<Seq<char>>,
    id: int,
)
    requires
        store.wf(),
        cfg.valid(),
        first_free(
            busy_ids,
            busy_names,
            cfg.guest_username_prefix@,
            user_alloc_start(store, cfg) + 1,
            cfg.uid_maximum as int,
        ) == Some(id),
        forall|i: int|
            0 <= i < store.users_v().len() ==> (#[trigger] store.users_v()[i]).user_name
                == guest_name_text(
                cfg.guest_username_prefix@,
                store.users_v()[i].id,
            ),
    ensures
        !store.has_user_id(id),
        !store.has_user_name(guest_name_text(cfg.guest_username_prefix@, id)),
        !busy_ids.contains(id),
        !busy_names.contains(guest_name_text(cfg.guest_username_prefix@, id)),
{
    let start = user_alloc_start(store, cfg);
    lemma_max_user_id_of_ub(store.users_v());
    lemma_first_free_some(
        busy_ids,
        busy_names,
        cfg.guest_username_prefix@,
        start + 1,
        cfg.uid_maximum as int,
        id,
    );
    assert forall|i: int|
        0 <= i < store.users_v().len() implies (#[trigger] store.users_v()[i]).user_name
        != guest_name_text(cfg.guest_username_prefix@, id) by {
        if store.users_v()[i].user_name == guest_name_text(cfg.guest_username_prefix@, id) {
            lemma_guest_name_injective(
                cfg.guest_username_prefix@,
                store.users_v()[i].id,
                id,
            );
        }
    }
}

} // verus!
