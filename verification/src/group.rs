//! The group-database view of the guest groups: one entry per stored
//! group, listing its member users, plus the synthesized placeholder
//! group when it is enabled.

use vstd::prelude::*;
use crate::config::Config;
use crate::lookup::{LookupError, Response};
use crate::passwd::fits_os_id;
use crate::store::{Group, GroupV, PairViews, Store};

verus! {

/// One group entry, as the OS group database shows it.
pub struct GroupEntry {
    pub name: String,
    pub passwd: String,
    pub gid: u32,
    pub members: Vec<String>,
}

/// Some stored membership of the group points at a stored user with
/// this login name.
pub open spec fn is_member_name(s: Store, g: GroupV, name: Seq<char>) -> bool {
    exists|t: int|
        #![trigger s.memberships_v()[t]]
        0 <= t < s.memberships_v().len() && s.memberships_v()[t].group_id == g.id && (exists|
            j: int,
        |
            #![trigger s.users_v()[j]]
            0 <= j < s.users_v().len() && s.users_v()[j].user_id_matches(s.memberships_v()[t])
                && name == s.users_v()[j].user_name)
}

/// Every listed member name belongs to a stored membership of the group
/// paired with its stored user.
pub open spec fn members_sound(s: Store, g: GroupV, names: Seq<String>) -> bool {
    forall|k: int|
        #![trigger names[k]]
        0 <= k < names.len() ==> is_member_name(s, g, names[k]@)
}

/// Every stored member of the group is listed.
pub open spec fn members_complete(s: Store, g: GroupV, names: Seq<String>) -> bool {
    forall|t: int, j: int|
        #![trigger s.memberships_v()[t], s.users_v()[j]]
        0 <= t < s.memberships_v().len() && 0 <= j < s.users_v().len() && s.memberships_v()[
            t].group_id == g.id && s.users_v()[j].user_id_matches(s.memberships_v()[t])
            ==> exists|k: int|
            #![trigger names[k]]
            0 <= k < names.len() && names[k]@ == s.users_v()[j].user_name
}

/// Every stored group identity number fits the OS group database.
pub open spec fn group_ids_representable(s: Store) -> bool {
    forall|i: int| 0 <= i < s.groups_v().len() ==> fits_os_id((#[trigger] s.groups_v()[i]).id)
}

/// Member names read off sound membership pairs are sound.
proof fn lemma_members_sound_from_pairs(
    s: Store,
    g: GroupV,
    pairs: Seq<(crate::store::UserGroupMembership, crate::store::User)>,
    names: Seq<String>,
)
    requires
        s.sound_group_pairs(g, pairs),
        names.len() == pairs.len(),
        forall|k: int|
            #![trigger names[k]]
            0 <= k < names.len() ==> names[k]@ == pairs[k]._1_v().user_name,
    ensures
        members_sound(s, g, names),
{
    assert forall|k: int| #![trigger names[k]] 0 <= k < names.len() implies is_member_name(
        s,
        g,
        names[k]@,
    ) by {
        let pk = pairs[k];
        let t = choose|t: int|
            0 <= t < s.memberships_v().len() && #[trigger] s.memberships_v()[t] == pk._0_v();
        let j = choose|j: int|
            0 <= j < s.users_v().len() && #[trigger] s.users_v()[j] == pk._1_v();
        assert(s.users_v()[j].user_id_matches(s.memberships_v()[t]) && names[k]@
            == s.users_v()[j].user_name);
        assert(s.memberships_v()[t].group_id == g.id);
    }
}

/// Member names read off complete membership pairs are complete.
proof fn lemma_members_complete_from_pairs(
    s: Store,
    g: GroupV,
    pairs: Seq<(crate::store::UserGroupMembership, crate::store::User)>,
    names: Seq<String>,
)
    requires
        s.complete_group_pairs(g, s.memberships_v().len() as int, pairs),
        names.len() == pairs.len(),
        forall|k: int|
            #![trigger names[k]]
            0 <= k < names.len() ==> names[k]@ == pairs[k]._1_v().user_name,
    ensures
        members_complete(s, g, names),
{
    assert forall|t: int, j: int|
        #![trigger s.memberships_v()[t], s.users_v()[j]]
        0 <= t < s.memberships_v().len() && 0 <= j < s.users_v().len() && s.memberships_v()[
            t].group_id == g.id && s.users_v()[j].user_id_matches(
            s.memberships_v()[t],
        ) implies exists|k: int|
        #![trigger names[k]]
        0 <= k < names.len() && names[k]@ == s.users_v()[j].user_name by {
        let k = choose|k: int|
            0 <= k < pairs.len() && (#[trigger] pairs[k])._0_v() == s.memberships_v()[t]
                && pairs[k]._1_v() == s.users_v()[j];
        assert(names[k]@ == s.users_v()[j].user_name);
    }
}

/// The group entry for one stored guest group, members included.
pub fn db_to_group(db: &Store, group: &Group) -> (r: GroupEntry)
    requires
        db.wf(),
        fits_os_id(group@.id),
    ensures
        r.name@ == group@.group_name,
        r.passwd@ == seq!['x'],
        r.gid == group@.id,
        members_sound(*db, group@, r.members@),
        members_complete(*db, group@, r.members@),
{
    let pairs = db.find_users_for_group(group);
    let mut members: Vec<String> = Vec::new();
    let mut i: usize = 0;
    while i < pairs.len()
        invariant
            i <= pairs@.len(),
            members@.len() == i,
            forall|k: int|
                0 <= k < i ==> (#[trigger] members@[k])@ == pairs@[k]._1_v().user_name,
        decreases pairs@.len() - i,
    {
        let (_, user) = &pairs[i];
        members.push(user.user_name.clone());
        i = i + 1;
    }
    proof {
        lemma_members_sound_from_pairs(*db, group@, pairs@, members@);
        lemma_members_complete_from_pairs(*db, group@, pairs@, members@);
        reveal_strlit("x");
    }
    let r = GroupEntry {
        name: group.group_name.clone(),
        passwd: String::from_str("x"),
        gid: group.id as u32,
        members,
    };
    proof {
        assert(r.passwd@ =~= seq!['x']);
    }
    r
}

/// The synthesized placeholder group, when it is enabled; a group
/// identity number outside the OS range is refused.
pub fn get_ghost_group(global_settings: &Config) -> (r: Result<Option<GroupEntry>, LookupError>)
    ensures
        match r {
            Ok(Some(g)) => global_settings.enable_ghost_user && fits_os_id(
                global_settings.ghost_user_gid as int,
            ) && g.name@ == global_settings.guest_username_new_user@ && g.passwd@ == seq!['x']
                && g.gid == global_settings.ghost_user_gid && g.members@.len() == 1
                && g.members@[0]@ == global_settings.guest_username_new_user@,
            Ok(None) => !global_settings.enable_ghost_user,
            Err(LookupError::InvalidGhostId) => global_settings.enable_ghost_user && !fits_os_id(
                global_settings.ghost_user_gid as int,
            ),
        },
{
    if !global_settings.enable_ghost_user {
        return Ok(None);
    }
    if global_settings.ghost_user_gid < 0 || global_settings.ghost_user_gid > u32::MAX as i64 {
        return Err(LookupError::InvalidGhostId);
    }
    proof {
        reveal_strlit("x");
    }
    let mut members: Vec<String> = Vec::new();
    members.push(global_settings.guest_username_new_user.clone());
    let g = GroupEntry {
        name: global_settings.guest_username_new_user.clone(),
        passwd: String::from_str("x"),
        gid: global_settings.ghost_user_gid as u32,
        members,
    };
    proof {
        assert(g.passwd@ =~= seq!['x']);
    }
    Ok(Some(g))
}

/// Every guest group entry, with the placeholder group appended when
/// enabled.
pub fn get_all_entries(store: &Store, global_settings: &Config) -> (r: Result<
    Vec<GroupEntry>,
    LookupError,
>)
    requires
        store.wf(),
        group_ids_representable(*store),
    ensures
        match r {
            Ok(entries) => {
                let n = store.groups_v().len() as int;
                &&& entries@.len() == n + (if global_settings.enable_ghost_user {
                    1int
                } else {
                    0int
                })
                &&& forall|k: int|
                    0 <= k < n ==> {
                        let e = #[trigger] entries@[k];
                        &&& e.name@ == store.groups_v()[k].group_name
                        &&& e.gid == store.groups_v()[k].id
                        &&& members_sound(*store, store.groups_v()[k], e.members@)
                        &&& members_complete(*store, store.groups_v()[k], e.members@)
                    }
                &&& global_settings.enable_ghost_user ==> entries@.last().name@
                    == global_settings.guest_username_new_user@ && entries@.last().gid
                    == global_settings.ghost_user_gid
            },
            Err(LookupError::InvalidGhostId) => global_settings.enable_ghost_user && !fits_os_id(
                global_settings.ghost_user_gid as int,
            ),
        },
{
    let groups = store.get_groups();
    let mut entries: Vec<GroupEntry> = Vec::new();
    let mut i: usize = 0;
    while i < groups.len()
        invariant
            store.wf(),
            group_ids_representable(*store),
            groups@.len() == store.groups_v().len(),
            forall|k: int|
                0 <= k < groups@.len() ==> (#[trigger] groups@[k])@ == store.groups_v()[k],
            i <= groups@.len(),
            entries@.len() == i,
            forall|k: int|
                0 <= k < i ==> {
                    let e = #[trigger] entries@[k];
                    &&& e.name@ == store.groups_v()[k].group_name
                    &&& e.gid == store.groups_v()[k].id
                    &&& members_sound(*store, store.groups_v()[k], e.members@)
                    &&& members_complete(*store, store.groups_v()[k], e.members@)
                },
        decreases groups@.len() - i,
    {
        entries.push(db_to_group(store, &groups[i]));
        i = i + 1;
    }
    match get_ghost_group(global_settings) {
        Ok(Some(ghost)) => {
            entries.push(ghost);
        },
        Ok(None) => {
        },
        Err(e) => {
            return Err(e);
        },
    }
    Ok(entries)
}

/// The group entry carrying this identity number: a stored group first,
/// the placeholder second, none otherwise.
pub fn get_entry_by_gid(store: &Store, global_settings: &Config, gid: u32) -> (r: Result<
    Response<GroupEntry>,
    LookupError,
>)
    requires
        store.wf(),
        group_ids_representable(*store),
    ensures
        match r {
            Ok(Response::Success(g)) => (exists|i: int|
                0 <= i < store.groups_v().len() && (#[trigger] store.groups_v()[i]).id == gid
                    && g.name@ == store.groups_v()[i].group_name && g.gid == gid && members_sound(
                    *store,
                    store.groups_v()[i],
                    g.members@,
                ) && members_complete(*store, store.groups_v()[i], g.members@)) || (
            !store.has_group_id(gid as int) && global_settings.enable_ghost_user
                && global_settings.ghost_user_gid == gid && g.name@
                == global_settings.guest_username_new_user@),
            Ok(Response::NotFound) => !store.has_group_id(gid as int) && !(
            global_settings.enable_ghost_user && global_settings.ghost_user_gid == gid
                && fits_os_id(global_settings.ghost_user_gid as int)),
            Err(LookupError::InvalidGhostId) => !store.has_group_id(gid as int)
                && global_settings.enable_ghost_user && !fits_os_id(
                global_settings.ghost_user_gid as int,
            ),
        },
{
    match store.find_group_by_id(gid as i64) {
        Some(group) => {
            proof {
                assert(fits_os_id(group@.id)) by {
                    let w = choose|i: int|
                        0 <= i < store.groups_v().len() && #[trigger] store.groups_v()[i]
                            == group@;
                    assert(fits_os_id(store.groups_v()[w].id));
                }
            }
            return Ok(Response::Success(db_to_group(store, &group)));
        },
        None => {
        },
    }
    match get_ghost_group(global_settings)? {
        Some(ghost) => {
            if ghost.gid == gid {
                return Ok(Response::Success(ghost));
            }
        },
        None => {
        },
    }
    Ok(Response::NotFound)
}

/// The group entry carrying this name.
pub fn get_entry_by_name(store: &Store, global_settings: &Config, name: &String) -> (r: Result<
    Response<GroupEntry>,
    LookupError,
>)
    requires
        store.wf(),
        group_ids_representable(*store),
    ensures
        match r {
            Ok(Response::Success(g)) => (exists|i: int|
                0 <= i < store.groups_v().len() && (#[trigger] store.groups_v()[i]).group_name
                    == name@ && g.name@ == name@ && g.gid == store.groups_v()[i].id
                    && members_sound(*store, store.groups_v()[i], g.members@) && members_complete(
                    *store,
                    store.groups_v()[i],
                    g.members@,
                )) || (!store.has_group_name(name@) && global_settings.enable_ghost_user
                && global_settings.guest_username_new_user@ == name@),
            Ok(Response::NotFound) => !store.has_group_name(name@) && !(
            global_settings.enable_ghost_user && global_settings.guest_username_new_user@ == name@
                && fits_os_id(global_settings.ghost_user_gid as int)),
            Err(LookupError::InvalidGhostId) => !store.has_group_name(name@)
                && global_settings.enable_ghost_user && !fits_os_id(
                global_settings.ghost_user_gid as int,
            ),
        },
{
    match store.find_group_by_name(name) {
        Some(group) => {
            proof {
                assert(fits_os_id(group@.id)) by {
                    let w = choose|i: int|
                        0 <= i < store.groups_v().len() && #[trigger] store.groups_v()[i]
                            == group@;
                    assert(fits_os_id(store.groups_v()[w].id));
                }
            }
            return Ok(Response::Success(db_to_group(store, &group)));
        },
        None => {
        },
    }
    match get_ghost_group(global_settings)? {
        Some(ghost) => {
            if ghost.name == *name {
                return Ok(Response::Success(ghost));
            }
        },
        None => {
        },
    }
    Ok(Response::NotFound)
}

} // verus!
