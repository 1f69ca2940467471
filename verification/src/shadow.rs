//! The shadow-database view of the guest users.  A guest whose boot
//! epoch is stale or who holds no active session is shown deactivated,
//! which hides it from login screens.

use vstd::prelude::*;
use crate::config::Config;
use crate::lookup::{LookupError, Response};
use crate::sources::SessionSource;
use crate::store::{Store, User, UserV};

verus! {

/// One shadow entry, as the OS shadow database shows it.
pub struct Shadow {
    pub name: String,
    pub passwd: String,
    pub last_change: i64,
    pub change_min_days: i64,
    pub change_max_days: i64,
    pub change_warn_days: i64,
    pub change_inactive_days: i64,
    pub expire_date: i64,
    pub reserved: i64,
}

/// The mathematical value of a shadow entry.
pub struct ShadowV {
    pub name: Seq<char>,
    pub passwd: Seq<char>,
    pub last_change: int,
    pub change_min_days: int,
    pub change_max_days: int,
    pub change_warn_days: int,
    pub change_inactive_days: int,
    pub expire_date: int,
    pub reserved: int,
}

impl View for Shadow {
    type V = ShadowV;

    open spec fn view(&self) -> ShadowV {
        ShadowV {
            name: self.name@,
            passwd: self.passwd@,
            last_change: self.last_change as int,
            change_min_days: self.change_min_days as int,
            change_max_days: self.change_max_days as int,
            change_warn_days: self.change_warn_days as int,
            change_inactive_days: self.change_inactive_days as int,
            expire_date: self.expire_date as int,
            reserved: self.reserved as int,
        }
    }
}

/// A guest may still log in within this boot: its stored boot epoch is
/// the current one and it holds at least one active session.
pub open spec fn shadow_active(u: UserV, boot_id: Seq<char>, active: Set<Seq<char>>) -> bool {
    u.boot_id == boot_id && active.contains(u.user_name)
}

/// The shadow entry a stored guest is shown as: usable within its boot
/// while a session remains, deactivated otherwise.
pub open spec fn shadow_view_of(u: UserV, boot_id: Seq<char>, active: Set<Seq<char>>) -> ShadowV {
    ShadowV {
        name: u.user_name,
        passwd: if shadow_active(u, boot_id, active) {
            seq!['x']
        } else {
            seq!['!']
        },
        last_change: 0,
        change_min_days: 0,
        change_max_days: 99999,
        change_warn_days: 7,
        change_inactive_days: -1,
        expire_date: -1,
        reserved: 0,
    }
}

/// The shadow entry the placeholder account is shown as.
pub open spec fn ghost_shadow_view(cfg: Config) -> ShadowV {
    ShadowV {
        name: cfg.ghost_user_gecos_username@,
        passwd: seq!['x'],
        last_change: 0,
        change_min_days: 0,
        change_max_days: 99999,
        change_warn_days: 7,
        change_inactive_days: -1,
        expire_date: -1,
        reserved: 0,
    }
}

/// The shadow entry for one stored guest user.
pub fn db_to_shadow<S: SessionSource>(
    user: &User,
    current_boot_id: &String,
    sessions: &S,
) -> (r: Shadow)
    ensures
        r@ == shadow_view_of(user@, current_boot_id@, sessions.active_names()),
{
    proof {
        reveal_strlit("x");
        reveal_strlit("!");
    }
    let usable = user.boot_id == *current_boot_id && sessions.has_session_for(&user.user_name);
    let passwd = if usable {
        String::from_str("x")
    } else {
        String::from_str("!")
    };
    let r = Shadow {
        name: user.user_name.clone(),
        passwd,
        last_change: 0,
        change_min_days: 0,
        change_max_days: 99999,
        change_warn_days: 7,
        change_inactive_days: -1,
        expire_date: -1,
        reserved: 0,
    };
    proof {
        if usable {
            assert(r.passwd@ =~= seq!['x']);
        } else {
            assert(r.passwd@ =~= seq!['!']);
        }
    }
    r
}

/// The synthesized placeholder shadow entry, when enabled.
pub fn get_ghost_user(global_settings: &Config) -> (r: Option<Shadow>)
    ensures
        match r {
            Some(s) => global_settings.enable_ghost_user && s@ == ghost_shadow_view(
                *global_settings,
            ),
            None => !global_settings.enable_ghost_user,
        },
{
    if !global_settings.enable_ghost_user {
        return None;
    }
    proof {
        reveal_strlit("x");
    }
    let s = Shadow {
        name: global_settings.ghost_user_gecos_username.clone(),
        passwd: String::from_str("x"),
        last_change: 0,
        change_min_days: 0,
        change_max_days: 99999,
        change_warn_days: 7,
        change_inactive_days: -1,
        expire_date: -1,
        reserved: 0,
    };
    proof {
        assert(s.passwd@ =~= seq!['x']);
    }
    Some(s)
}

/// Every guest shadow entry, with the placeholder entry appended when
/// enabled.
pub fn get_all_entries<S: SessionSource>(
    store: &Store,
    global_settings: &Config,
    current_boot_id: &String,
    sessions: &S,
) -> (r: Vec<Shadow>)
    ensures
        r@.len() == store.users_v().len() + (if global_settings.enable_ghost_user {
            1int
        } else {
            0int
        }),
        forall|k: int|
            0 <= k < store.users_v().len() ==> (#[trigger] r@[k])@ == shadow_view_of(
                store.users_v()[k],
                current_boot_id@,
                sessions.active_names(),
            ),
        global_settings.enable_ghost_user ==> r@.last()@ == ghost_shadow_view(*global_settings),
{
    let users = store.get_users();
    let mut entries: Vec<Shadow> = Vec::new();
    let mut i: usize = 0;
    while i < users.len()
        invariant
            users@.len() == store.users_v().len(),
            forall|k: int| 0 <= k < users@.len() ==> (#[trigger] users@[k])@ == store.users_v()[k],
            i <= users@.len(),
            entries@.len() == i,
            forall|k: int|
                0 <= k < i ==> (#[trigger] entries@[k])@ == shadow_view_of(
                    store.users_v()[k],
                    current_boot_id@,
                    sessions.active_names(),
                ),
        decreases users@.len() - i,
    {
        entries.push(db_to_shadow(&users[i], current_boot_id, sessions));
        i = i + 1;
    }
    match get_ghost_user(global_settings) {
        Some(ghost) => {
            entries.push(ghost);
        },
        None => {
        },
    }
    entries
}

/// The shadow entry carrying this login name: a stored guest first, the
/// placeholder second, none otherwise.
pub fn get_entry_by_name<S: SessionSource>(
    store: &Store,
    global_settings: &Config,
    name: &String,
    current_boot_id: &String,
    sessions: &S,
) -> (r: Response<Shadow>)
    ensures
        match r {
            Response::Success(s) => (exists|i: int|
                0 <= i < store.users_v().len() && (#[trigger] store.users_v()[i]).user_name
                    == name@ && s@ == shadow_view_of(
                    store.users_v()[i],
                    current_boot_id@,
                    sessions.active_names(),
                )) || (!store.has_user_name(name@) && global_settings.enable_ghost_user
                && global_settings.ghost_user_gecos_username@ == name@ && s@ == ghost_shadow_view(
                *global_settings,
            )),
            Response::NotFound => !store.has_user_name(name@) && !(
            global_settings.enable_ghost_user && global_settings.ghost_user_gecos_username@
                == name@),
        },
{
    match store.find_user_by_name(name) {
        Some(user) => {
            return Response::Success(db_to_shadow(&user, current_boot_id, sessions));
        },
        None => {
        },
    }
    match get_ghost_user(global_settings) {
        Some(ghost) => {
            if ghost.name == *name {
                return Response::Success(ghost);
            }
        },
        None => {
        },
    }
    Response::NotFound
}

} // verus!
