//! The account-database view of the guest users: one entry per stored
//! guest, plus the synthesized placeholder entry when it is enabled.

use vstd::prelude::*;
use crate::config::Config;
use crate::gecos::{strip_commas, Gecos};
use crate::lookup::{LookupError, Response};
use crate::names::{dec_digits, decimal_string};
use crate::store::{Store, User, UserV};

verus! {

/// One account entry, as the OS account database shows it.
pub struct Passwd {
    pub name: String,
    pub passwd: String,
    pub uid: u32,
    pub gid: u32,
    pub gecos: String,
    pub dir: String,
    pub shell: String,
}

/// The mathematical value of an account entry.
pub struct PasswdV {
    pub name: Seq<char>,
    pub passwd: Seq<char>,
    pub uid: int,
    pub gid: int,
    pub gecos: Seq<char>,
    pub dir: Seq<char>,
    pub shell: Seq<char>,
}

impl View for Passwd {
    type V = PasswdV;

    open spec fn view(&self) -> PasswdV {
        PasswdV {
            name: self.name@,
            passwd: self.passwd@,
            uid: self.uid as int,
            gid: self.gid as int,
            gecos: self.gecos@,
            dir: self.dir@,
            shell: self.shell@,
        }
    }
}

/// The human-readable account description: `{prefix} ({id})`.
pub open spec fn full_name_text(prefix: Seq<char>, id: int) -> Seq<char> {
    prefix + seq![' ', '('] + dec_digits(id) + seq![')']
}

/// A comment field holding only the description part: the four later
/// fields stay empty.
pub open spec fn single_field_gecos(full: Seq<char>) -> Seq<char> {
    strip_commas(full) + seq![',', ',', ',', ',']
}

/// An identity number that fits the OS account database.
pub open spec fn fits_os_id(id: int) -> bool {
    0 <= id <= u32::MAX
}

/// Every stored identity number fits the OS account database.
pub open spec fn ids_representable(s: Store) -> bool {
    forall|i: int|
        0 <= i < s.users_v().len() ==> fits_os_id((#[trigger] s.users_v()[i]).id) && fits_os_id(
            s.users_v()[i].user_group_id,
        )
}

/// The account entry a stored guest is shown as.
pub open spec fn passwd_view_of(cfg: Config, u: UserV) -> PasswdV {
    PasswdV {
        name: u.user_name,
        passwd: seq!['x'],
        uid: u.id,
        gid: u.user_group_id,
        gecos: single_field_gecos(
            full_name_text(cfg.guest_username_human_readable_prefix@, u.id),
        ),
        dir: u.home_path,
        shell: cfg.guest_shell@,
    }
}

/// The account entry the placeholder account is shown as.
pub open spec fn ghost_passwd_view(cfg: Config) -> PasswdV {
    PasswdV {
        name: cfg.guest_username_new_user@,
        passwd: seq!['x'],
        uid: cfg.ghost_user_uid as int,
        gid: cfg.ghost_user_gid as int,
        gecos: single_field_gecos(cfg.ghost_user_gecos_username@),
        dir: seq!['/', 'd', 'e', 'v', '/', 'n', 'u', 'l', 'l'],
        shell: seq!['/', 'b', 'i', 'n', '/', 'f', 'a', 'l', 's', 'e'],
    }
}

/// Renders a comment field whose description is the given text and
/// whose other fields are empty.
fn single_field_gecos_string(full: String) -> (r: String)
    ensures
        r@ == single_field_gecos(full@),
{
    let ghost fullv = full@;
    let g = Gecos {
        full_name: Some(full),
        room_number: None,
        work_phone: None,
        home_phone: None,
        other: None,
    };
    let r = g.to_gecos_string();
    proof {
        assert(r@ =~= single_field_gecos(fullv));
    }
    r
}

/// Builds the description `{prefix} ({id})`.
fn format_full_name(prefix: &String, id: u64) -> (r: String)
    ensures
        r@ == full_name_text(prefix@, id as int),
{
    let mut out = prefix.clone();
    proof {
        reveal_strlit(" (");
        reveal_strlit(")");
    }
    out.append(" (");
    let digits = decimal_string(id);
    out.append(digits.as_str());
    out.append(")");
    proof {
        assert(out@ =~= full_name_text(prefix@, id as int));
    }
    out
}

/// The account entry for one stored guest user.
pub fn db_to_passwd(global_settings: &Config, user: &User) -> (r: Passwd)
    requires
        fits_os_id(user@.id),
        fits_os_id(user@.user_group_id),
    ensures
        r@ == passwd_view_of(*global_settings, user@),
{
    let full = format_full_name(
        &global_settings.guest_username_human_readable_prefix,
        user.id as u64,
    );
    let gecos = single_field_gecos_string(full);
    proof {
        reveal_strlit("x");
    }
    let r = Passwd {
        name: user.user_name.clone(),
        passwd: String::from_str("x"),
        uid: user.id as u32,
        gid: user.user_group_id as u32,
        gecos,
        dir: user.home_path.clone(),
        shell: global_settings.guest_shell.clone(),
    };
    proof {
        assert(r.passwd@ =~= seq!['x']);
    }
    r
}

/// The synthesized placeholder entry, when it is enabled; an identity
/// number outside the OS range is refused.
pub fn get_ghost_user(global_settings: &Config) -> (r: Result<Option<Passwd>, LookupError>)
    ensures
        match r {
            Ok(Some(p)) => global_settings.enable_ghost_user && fits_os_id(
                global_settings.ghost_user_uid as int,
            ) && fits_os_id(global_settings.ghost_user_gid as int) && p@ == ghost_passwd_view(
                *global_settings,
            ),
            Ok(None) => !global_settings.enable_ghost_user,
            Err(LookupError::InvalidGhostId) => global_settings.enable_ghost_user && !(fits_os_id(
                global_settings.ghost_user_uid as int,
            ) && fits_os_id(global_settings.ghost_user_gid as int)),
        },
{
    if !global_settings.enable_ghost_user {
        return Ok(None);
    }
    if global_settings.ghost_user_uid < 0 || global_settings.ghost_user_uid > u32::MAX as i64 {
        return Err(LookupError::InvalidGhostId);
    }
    if global_settings.ghost_user_gid < 0 || global_settings.ghost_user_gid > u32::MAX as i64 {
        return Err(LookupError::InvalidGhostId);
    }
    proof {
        reveal_strlit("x");
        reveal_strlit("/dev/null");
        reveal_strlit("/bin/false");
    }
    let gecos = single_field_gecos_string(global_settings.ghost_user_gecos_username.clone());
    let p = Passwd {
        name: global_settings.guest_username_new_user.clone(),
        passwd: String::from_str("x"),
        uid: global_settings.ghost_user_uid as u32,
        gid: global_settings.ghost_user_gid as u32,
        gecos,
        dir: String::from_str("/dev/null"),
        shell: String::from_str("/bin/false"),
    };
    proof {
        assert(p.passwd@ =~= seq!['x']);
        assert(p.dir@ =~= ghost_passwd_view(*global_settings).dir);
        assert(p.shell@ =~= ghost_passwd_view(*global_settings).shell);
    }
    Ok(Some(p))
}

/// Every guest account entry, with the placeholder entry appended when
/// enabled.
pub fn get_all_entries(store: &Store, global_settings: &Config) -> (r: Result<
    Vec<Passwd>,
    LookupError,
>)
    requires
        ids_representable(*store),
    ensures
        match r {
            Ok(entries) => {
                let n = store.users_v().len() as int;
                &&& entries@.len() == n + (if global_settings.enable_ghost_user {
                    1int
                } else {
                    0int
                })
                &&& forall|k: int|
                    0 <= k < n ==> (#[trigger] entries@[k])@ == passwd_view_of(
                        *global_settings,
                        store.users_v()[k],
                    )
                &&& global_settings.enable_ghost_user ==> entries@.last()@ == ghost_passwd_view(
                    *global_settings,
                )
            },
            Err(LookupError::InvalidGhostId) => global_settings.enable_ghost_user && !(fits_os_id(
                global_settings.ghost_user_uid as int,
            ) && fits_os_id(global_settings.ghost_user_gid as int)),
        },
{
    let users = store.get_users();
    let mut entries: Vec<Passwd> = Vec::new();
    let mut i: usize = 0;
    while i < users.len()
        invariant
            ids_representable(*store),
            users@.len() == store.users_v().len(),
            forall|k: int| 0 <= k < users@.len() ==> (#[trigger] users@[k])@ == store.users_v()[k],
            i <= users@.len(),
            entries@.len() == i,
            forall|k: int|
                0 <= k < i ==> (#[trigger] entries@[k])@ == passwd_view_of(
                    *global_settings,
                    store.users_v()[k],
                ),
        decreases users@.len() - i,
    {
        entries.push(db_to_passwd(global_settings, &users[i]));
        i = i + 1;
    }
    match get_ghost_user(global_settings) {
        Ok(Some(ghost)) => {
            entries.push(ghost);
        },
        Ok(None) => {
        },
        Err(e) => {
            return Err(e);
        },
    }
    Ok(entries)
}

/// The account entry carrying this identity number: a stored guest
/// first, the placeholder second, none otherwise.
pub fn get_entry_by_uid(store: &Store, global_settings: &Config, uid: u32) -> (r: Result<
    Response<Passwd>,
    LookupError,
>)
    requires
        ids_representable(*store),
    ensures
        match r {
            Ok(Response::Success(p)) => (exists|i: int|
                0 <= i < store.users_v().len() && (#[trigger] store.users_v()[i]).id == uid && p@
                    == passwd_view_of(*global_settings, store.users_v()[i]))
                || (!store.has_user_id(uid as int) && global_settings.enable_ghost_user
                && global_settings.ghost_user_uid == uid && p@ == ghost_passwd_view(
                *global_settings,
            )),
            Ok(Response::NotFound) => !store.has_user_id(uid as int) && !(
            global_settings.enable_ghost_user && global_settings.ghost_user_uid == uid
                && fits_os_id(global_settings.ghost_user_uid as int) && fits_os_id(
                global_settings.ghost_user_gid as int,
            )),
            Err(LookupError::InvalidGhostId) => !store.has_user_id(uid as int)
                && global_settings.enable_ghost_user && !(fits_os_id(
                global_settings.ghost_user_uid as int,
            ) && fits_os_id(global_settings.ghost_user_gid as int)),
        },
{
    match store.find_user_by_id(uid as i64) {
        Some(user) => {
            proof {
                assert(fits_os_id(user@.id) && fits_os_id(user@.user_group_id)) by {
                    let w = choose|i: int|
                        0 <= i < store.users_v().len() && #[trigger] store.users_v()[i] == user@;
                    assert(fits_os_id(store.users_v()[w].id));
                }
            }
            return Ok(Response::Success(db_to_passwd(global_settings, &user)));
        },
        None => {
        },
    }
    match get_ghost_user(global_settings)? {
        Some(ghost) => {
            if ghost.uid == uid {
                return Ok(Response::Success(ghost));
            }
        },
        None => {
        },
    }
    Ok(Response::NotFound)
}

/// The account entry carrying this login name.
pub fn get_entry_by_name(store: &Store, global_settings: &Config, name: &String) -> (r: Result<
    Response<Passwd>,
    LookupError,
>)
    requires
        ids_representable(*store),
    ensures
        match r {
            Ok(Response::Success(p)) => (exists|i: int|
                0 <= i < store.users_v().len() && (#[trigger] store.users_v()[i]).user_name
                    == name@ && p@ == passwd_view_of(*global_settings, store.users_v()[i])) || (
            !store.has_user_name(name@) && global_settings.enable_ghost_user
                && global_settings.guest_username_new_user@ == name@ && p@ == ghost_passwd_view(
                *global_settings,
            )),
            Ok(Response::NotFound) => !store.has_user_name(name@) && !(
            global_settings.enable_ghost_user && global_settings.guest_username_new_user@ == name@
                && fits_os_id(global_settings.ghost_user_uid as int) && fits_os_id(
                global_settings.ghost_user_gid as int,
            )),
            Err(LookupError::InvalidGhostId) => !store.has_user_name(name@)
                && global_settings.enable_ghost_user && !(fits_os_id(
                global_settings.ghost_user_uid as int,
            ) && fits_os_id(global_settings.ghost_user_gid as int)),
        },
{
    match store.find_user_by_name(name) {
        Some(user) => {
            proof {
                assert(fits_os_id(user@.id) && fits_os_id(user@.user_group_id)) by {
                    let w = choose|i: int|
                        0 <= i < store.users_v().len() && #[trigger] store.users_v()[i] == user@;
                    assert(fits_os_id(store.users_v()[w].id));
                }
            }
            return Ok(Response::Success(db_to_passwd(global_settings, &user)));
        },
        None => {
        },
    }
    match get_ghost_user(global_settings)? {
        Some(ghost) => {
            if ghost.name == *name {
                return Ok(Response::Success(ghost));
            }
        },
        None => {
        },
    }
    Ok(Response::NotFound)
}

} // verus!
