//! The session authority: arbitrates a login attempt against the
//! identity store, the current boot epoch and the live session table,
//! and carries out the creation of a brand new guest account.

use vstd::prelude::*;
use crate::AuthOutcome;
use crate::allocator::{
    AllocError, find_next_unused_group_id_and_name, find_next_unused_user_id_and_name,
    first_free, group_alloc_start, user_alloc_start,
};
use crate::config::Config;
use crate::fs::{Fs, path_strictly_inside};
use crate::names::guest_name_text;
use crate::provision::{
    create_home, created_home, dir_meta, home_base_mode, lemma_create_then_remove_leaves_no_trace,
    remove_home, ProvisionError,
};
use crate::sources::{IdentitySource, SessionSource};
use crate::store::{Group, GroupV, Store, StoreError, User, UserV};

verus! {

/// The absolute path of a guest's home directory: `{base}/{login_name}`.
pub open spec fn home_path_text(base: Seq<char>, name: Seq<char>) -> Seq<char> {
    base + seq!['/'] + name
}

/// Builds the home path `{base}/{login_name}`.
pub fn format_home_path(base: &String, name: &String) -> (r: String)
    ensures
        r@ == home_path_text(base@, name@),
{
    let mut out = base.clone();
    proof {
        reveal_strlit("/");
    }
    out.append("/");
    out.append(name.as_str());
    proof {
        assert(out@ =~= home_path_text(base@, name@));
    }
    out
}

/// A home path lies strictly inside its base.
proof fn lemma_home_path_inside(base: Seq<char>, name: Seq<char>)
    ensures
        path_strictly_inside(home_path_text(base, name), base),
{
    let p = home_path_text(base, name);
    assert(p.subrange(0, base.len() as int) =~= base);
    assert(p[base.len() as int] == '/');
}

/// Failures of guest account creation.
#[derive(Debug)]
pub enum CreateUserError {
    /// Every group identity number in the configured range is taken.
    NoFreeGroupIdentity,
    /// Every user identity number in the configured range is taken.
    NoFreeUserIdentity,
    /// The allocated home directory already exists on disk.
    HomeConflict,
    /// The template tree to copy from is absent.
    TemplateMissing,
    /// The store refused the new records; the created home directory has
    /// been rolled back.
    StoreConstraint,
}

/// What a successful account creation guarantees, relating the store
/// and filesystem states before and after it.
pub open spec fn created_guest_account(
    pre_s: Store,
    post_s: Store,
    pre_fs: Fs,
    post_fs: Fs,
    cfg: Config,
    busy_uids: Set<int>,
    busy_usernames: Set<Seq<char>>,
    busy_gids: Set<int>,
    busy_groupnames: Set<Seq<char>>,
    boot_id: Seq<char>,
    u: UserV,
) -> bool {
    &&& first_free(
        busy_gids,
        busy_groupnames,
        cfg.guest_group_name_prefix@,
        group_alloc_start(pre_s, cfg) + 1,
        cfg.gid_maximum as int,
    ) == Some(u.user_group_id)
    &&& first_free(
        busy_uids,
        busy_usernames,
        cfg.guest_username_prefix@,
        user_alloc_start(pre_s, cfg) + 1,
        cfg.uid_maximum as int,
    ) == Some(u.id)
    &&& u.user_name == guest_name_text(cfg.guest_username_prefix@, u.id)
    &&& u.home_path == home_path_text(cfg.home_base_path@, u.user_name)
    &&& u.boot_id == boot_id
    &&& post_s.users_v() == pre_s.users_v().push(u)
    &&& post_s.groups_v().len() == pre_s.groups_v().len() + 1
    &&& post_s.groups_v().last().id == u.user_group_id
    &&& post_s.groups_v().last().group_name == guest_name_text(
        cfg.guest_group_name_prefix@,
        u.user_group_id,
    )
    &&& forall|i: int|
        0 <= i < pre_s.groups_v().len() ==> post_s.groups_v()[i]
            == #[trigger] pre_s.groups_v()[i]
    &&& post_s.memberships_v() == pre_s.memberships_v()
    &&& created_home(
        pre_fs,
        post_fs,
        cfg.home_skel@,
        u.home_path,
        cfg.home_base_path@,
        u.id,
        u.user_group_id,
    )
}

/// The filesystem after a rolled-back creation of the guest with
/// identity number `uid_a`: no trace of the would-be home directory,
/// the home base freshly stamped, and every other path untouched.
pub open spec fn rolled_back_creation(pre_fs: Fs, post_fs: Fs, cfg: Config, uid_a: int) -> bool {
    let target = home_path_text(
        cfg.home_base_path@,
        guest_name_text(cfg.guest_username_prefix@, uid_a),
    );
    &&& !post_fs.contains_path(target)
    &&& forall|q: Seq<char>|
        path_strictly_inside(q, target) ==> !#[trigger] post_fs.contains_path(q)
    &&& post_fs.has_entry(cfg.home_base_path@, dir_meta(home_base_mode(), 0, 0))
    &&& forall|q: Seq<char>, m: crate::fs::FsMetaV|
        #![trigger pre_fs.has_entry(q, m)]
        #![trigger post_fs.has_entry(q, m)]
        q != cfg.home_base_path@ && q != target && !path_strictly_inside(q, target) ==> (
        pre_fs.has_entry(q, m) <==> post_fs.has_entry(q, m))
    &&& forall|q: Seq<char>|
        #![trigger pre_fs.contains_path(q)]
        #![trigger post_fs.contains_path(q)]
        q != cfg.home_base_path@ && q != target && !path_strictly_inside(q, target) ==> (
        pre_fs.contains_path(q) <==> post_fs.contains_path(q))
}

/// What a failed account creation guarantees, by error: no new record
/// is ever stored, and each error comes exactly from its own cause —
/// an exhausted group or user range, a pre-existing home directory, a
/// missing template, or a store that could not take the freshly
/// allocated pair (in which case the created directory was rolled
/// back).
pub open spec fn failed_guest_creation(
    pre_s: Store,
    post_s: Store,
    pre_fs: Fs,
    post_fs: Fs,
    cfg: Config,
    busy_uids: Set<int>,
    busy_usernames: Set<Seq<char>>,
    busy_gids: Set<int>,
    busy_groupnames: Set<Seq<char>>,
    boot_id: Seq<char>,
    e: CreateUserError,
) -> bool {
    let user_alloc = first_free(
        busy_uids,
        busy_usernames,
        cfg.guest_username_prefix@,
        user_alloc_start(pre_s, cfg) + 1,
        cfg.uid_maximum as int,
    );
    let group_alloc = first_free(
        busy_gids,
        busy_groupnames,
        cfg.guest_group_name_prefix@,
        group_alloc_start(pre_s, cfg) + 1,
        cfg.gid_maximum as int,
    );
    &&& post_s == pre_s
    &&& match e {
        CreateUserError::NoFreeGroupIdentity => group_alloc is None && post_fs == pre_fs,
        CreateUserError::NoFreeUserIdentity => user_alloc is None && post_fs == pre_fs,
        CreateUserError::HomeConflict => post_fs == pre_fs && exists|uid_a: int|
            user_alloc == Some(uid_a) && pre_fs.contains_path(
                home_path_text(
                    cfg.home_base_path@,
                    guest_name_text(cfg.guest_username_prefix@, uid_a),
                ),
            ),
        CreateUserError::TemplateMissing => !(exists|m: crate::fs::FsMetaV|
            pre_fs.has_entry(cfg.home_skel@, m) && m.is_dir) && post_fs == pre_fs,
        CreateUserError::StoreConstraint => exists|uid_a: int, gid_a: int|
            user_alloc == Some(uid_a) && group_alloc == Some(gid_a) && !pre_s.can_insert(
                UserV {
                    id: uid_a,
                    user_name: guest_name_text(cfg.guest_username_prefix@, uid_a),
                    user_group_id: gid_a,
                    home_path: home_path_text(
                        cfg.home_base_path@,
                        guest_name_text(cfg.guest_username_prefix@, uid_a),
                    ),
                    boot_id: boot_id,
                },
                GroupV {
                    id: gid_a,
                    group_name: guest_name_text(cfg.guest_group_name_prefix@, gid_a),
                },
            ) && rolled_back_creation(pre_fs, post_fs, cfg, uid_a),
    }
}

impl Store {
    /// Creates a brand new guest account: allocates a group and a user
    /// identity, provisions the home directory from the template, and
    /// stores both records as a single unit.  Any failure leaves no new
    /// record stored, and a store refusal after provisioning rolls the
    /// created directory back.
    ///
    /// The scan for a free identity and the eventual insert are not one
    /// atomic step across processes: a concurrent creation may take the
    /// same candidate first, which surfaces here as the store refusing
    /// the records, never as a silent overwrite.
    pub fn create_guest_user<I: IdentitySource>(
        &mut self,
        fs: &mut Fs,
        config: &Config,
        ids: &I,
        current_boot_id: &String,
    ) -> (r: Result<User, CreateUserError>)
        requires
            old(self).wf(),
            old(fs).wf(),
            config.valid(),
            config.home_skel@ != config.home_base_path@,
            !path_strictly_inside(config.home_skel@, config.home_base_path@),
            !path_strictly_inside(config.home_base_path@, config.home_skel@),
        ensures
            final(self).wf(),
            final(fs).wf(),
            match r {
                Ok(user) => created_guest_account(
                    *old(self),
                    *final(self),
                    *old(fs),
                    *final(fs),
                    *config,
                    ids.busy_uids(),
                    ids.busy_usernames(),
                    ids.busy_gids(),
                    ids.busy_groupnames(),
                    current_boot_id@,
                    user@,
                ),
                Err(e) => failed_guest_creation(
                    *old(self),
                    *final(self),
                    *old(fs),
                    *final(fs),
                    *config,
                    ids.busy_uids(),
                    ids.busy_usernames(),
                    ids.busy_gids(),
                    ids.busy_groupnames(),
                    current_boot_id@,
                    e,
                ),
            },
    {
        let (group_id, group_name) = match find_next_unused_group_id_and_name(
            self,
            config,
            ids,
        ) {
            Ok(p) => p,
            Err(AllocError::NoFreeIdentity) => {
                return Err(CreateUserError::NoFreeGroupIdentity);
            },
        };
        let target_group = Group { id: group_id, group_name };
        let (user_id, username) = match find_next_unused_user_id_and_name(self, config, ids) {
            Ok(p) => p,
            Err(AllocError::NoFreeIdentity) => {
                return Err(CreateUserError::NoFreeUserIdentity);
            },
        };
        let home_path = format_home_path(&config.home_base_path, &username);
        let target_user = User {
            id: user_id,
            user_name: username,
            user_group_id: group_id,
            home_path,
            boot_id: current_boot_id.clone(),
        };
        if fs.exists_path(&target_user.home_path) {
            proof {
                assert(old(fs).contains_path(
                    home_path_text(
                        config.home_base_path@,
                        guest_name_text(config.guest_username_prefix@, user_id as int),
                    ),
                ));
            }
            return Err(CreateUserError::HomeConflict);
        }
        proof {
            lemma_home_path_inside(config.home_base_path@, target_user.user_name@);
        }
        let create_result = create_home(
            fs,
            &config.home_skel,
            &target_user.home_path,
            &config.home_base_path,
            user_id as u32,
            group_id as u32,
        );
        match create_result {
            Ok(()) => {
            },
            Err(ProvisionError::TemplateMissing) => {
                return Err(CreateUserError::TemplateMissing);
            },
            Err(_) => {
                proof {
                    assert(false);
                }
                return Err(CreateUserError::HomeConflict);
            },
        }
        let ghost home = target_user.home_path@;
        let user_copy = target_user.duplicate();
        match self.insert_guest_account(target_user, target_group) {
            Ok(()) => Ok(user_copy),
            Err(StoreError::ConstraintViolation) => {
                let ghost fs1 = *fs;
                proof {
                    assert(fs1.contains_path(home));
                }
                let rollback = remove_home(fs, &user_copy.home_path, &config.home_base_path);
                match rollback {
                    Ok(()) => {
                    },
                    Err(_) => {
                        proof {
                            assert(false);
                        }
                    },
                }
                proof {
                    let uid_a = user_id as int;
                    let gid_a = group_id as int;
                    let uname = guest_name_text(config.guest_username_prefix@, uid_a);
                    let target = home_path_text(config.home_base_path@, uname);
                    assert(home == target);
                    lemma_create_then_remove_leaves_no_trace(
                        *old(fs),
                        fs1,
                        *fs,
                        config.home_skel@,
                        home,
                        config.home_base_path@,
                        uid_a,
                        gid_a,
                    );
                    assert(fs1.has_entry(
                        config.home_base_path@,
                        dir_meta(home_base_mode(), 0, 0),
                    ));
                    assert(fs.has_entry(config.home_base_path@, dir_meta(home_base_mode(), 0, 0)));
                    assert(rolled_back_creation(*old(fs), *fs, *config, uid_a));
                    assert(user_copy@ == UserV {
                        id: uid_a,
                        user_name: uname,
                        user_group_id: gid_a,
                        home_path: target,
                        boot_id: current_boot_id@,
                    });
                    assert(target_group@ == GroupV {
                        id: gid_a,
                        group_name: guest_name_text(config.guest_group_name_prefix@, gid_a),
                    });
                    assert(!old(self).can_insert(
                        UserV {
                            id: uid_a,
                            user_name: uname,
                            user_group_id: gid_a,
                            home_path: target,
                            boot_id: current_boot_id@,
                        },
                        GroupV {
                            id: gid_a,
                            group_name: guest_name_text(config.guest_group_name_prefix@, gid_a),
                        },
                    ));
                }
                Err(CreateUserError::StoreConstraint)
            },
        }
    }
}

/// The decision a login attempt ends in.
pub enum AuthDecision {
    /// The attempt may proceed as the carried guest user.
    Success(User),
    /// The attempt is denied.
    Reject,
    /// The login name is no concern of this subsystem.
    Ignore,
}

/// The subsystem's account-authority entry points, as consumed by the
/// OS authentication stack.
pub struct GuestUserPAMModule;

impl GuestUserPAMModule {
    /// Account management: a login name this subsystem stores is
    /// acknowledged, any other is left to other mechanisms.
    pub fn account_management(store: &Store, login_username: &String) -> (r: AuthOutcome)
        ensures
            store.has_user_name(login_username@) ==> r == AuthOutcome::Success,
            !store.has_user_name(login_username@) ==> r == AuthOutcome::Ignore,
    {
        match store.find_user_by_name(login_username) {
            Some(_) => AuthOutcome::Success,
            None => AuthOutcome::Ignore,
        }
    }

    /// Arbitrates one login attempt.
    ///
    /// The reserved new-guest name mints a new account, but only for a
    /// privileged caller.  A stored guest name resumes only when the
    /// stored boot epoch equals the current one, the caller is
    /// privileged or is that guest, and the guest still holds at least
    /// one active session.  Every other name is ignored.
    pub fn authenticate<I: IdentitySource, S: SessionSource>(
        store: &mut Store,
        fs: &mut Fs,
        config: &Config,
        login_username: &String,
        caller_is_root: bool,
        caller_uid: u32,
        current_boot_id: &String,
        ids: &I,
        sessions: &S,
    ) -> (r: Result<AuthDecision, CreateUserError>)
        requires
            old(store).wf(),
            old(fs).wf(),
            config.valid(),
            config.home_skel@ != config.home_base_path@,
            !path_strictly_inside(config.home_skel@, config.home_base_path@),
            !path_strictly_inside(config.home_base_path@, config.home_skel@),
        ensures
            final(store).wf(),
            final(fs).wf(),
            login_username@ != config.guest_username_new_user@ && !old(store).has_user_name(
                login_username@,
            ) ==> (r matches Ok(AuthDecision::Ignore)) && *final(store) == *old(store)
                && *final(fs) == *old(fs),
            login_username@ == config.guest_username_new_user@ && !caller_is_root ==> (
            r matches Ok(AuthDecision::Reject)) && *final(store) == *old(store) && *final(fs)
                == *old(fs),
            login_username@ == config.guest_username_new_user@ && caller_is_root ==> match r {
                Ok(AuthDecision::Success(u)) => created_guest_account(
                    *old(store),
                    *final(store),
                    *old(fs),
                    *final(fs),
                    *config,
                    ids.busy_uids(),
                    ids.busy_usernames(),
                    ids.busy_gids(),
                    ids.busy_groupnames(),
                    current_boot_id@,
                    u@,
                ),
                Ok(_) => false,
                Err(e) => failed_guest_creation(
                    *old(store),
                    *final(store),
                    *old(fs),
                    *final(fs),
                    *config,
                    ids.busy_uids(),
                    ids.busy_usernames(),
                    ids.busy_gids(),
                    ids.busy_groupnames(),
                    current_boot_id@,
                    e,
                ),
            },
            login_username@ != config.guest_username_new_user@ && old(store).has_user_name(
                login_username@,
            ) ==> *final(store) == *old(store) && *final(fs) == *old(fs) && forall|i: int|
                0 <= i < old(store).users_v().len() && (#[trigger] old(store).users_v()[i]).user_name
                    == login_username@ ==> {
                    let u = old(store).users_v()[i];
                    if u.boot_id != current_boot_id@ {
                        r matches Ok(AuthDecision::Reject)
                    } else if !caller_is_root && caller_uid as int != u.id {
                        r matches Ok(AuthDecision::Reject)
                    } else if !sessions.active_names().contains(u.user_name) {
                        r matches Ok(AuthDecision::Reject)
                    } else {
                        match r {
                            Ok(AuthDecision::Success(ru)) => ru@ == u,
                            _ => false,
                        }
                    }
                },
    {
        if *login_username == config.guest_username_new_user {
            if !caller_is_root {
                return Ok(AuthDecision::Reject);
            }
            match store.create_guest_user(fs, config, ids, current_boot_id) {
                Ok(new_user) => Ok(AuthDecision::Success(new_user)),
                Err(e) => Err(e),
            }
        } else {
            match store.find_user_by_name(login_username) {
                Some(user) => {
                    if !(user.boot_id == *current_boot_id) {
                        proof {
                            lemma_unique_user_name(*store, login_username@, user@);
                        }
                        return Ok(AuthDecision::Reject);
                    }
                    if !caller_is_root && !(user.id == caller_uid as i64) {
                        proof {
                            lemma_unique_user_name(*store, login_username@, user@);
                        }
                        return Ok(AuthDecision::Reject);
                    }
                    if !sessions.has_session_for(login_username) {
                        proof {
                            lemma_unique_user_name(*store, login_username@, user@);
                        }
                        return Ok(AuthDecision::Reject);
                    }
                    proof {
                        lemma_unique_user_name(*store, login_username@, user@);
                    }
                    Ok(AuthDecision::Success(user))
                },
                None => Ok(AuthDecision::Ignore),
            }
        }
    }
}

/// On a well-formed store, all stored users sharing a login name are
/// one record.
proof fn lemma_unique_user_name(s: Store, name: Seq<char>, u0: UserV)
    requires
        s.wf(),
        exists|i: int| 0 <= i < s.users_v().len() && #[trigger] s.users_v()[i] == u0,
        u0.user_name == name,
    ensures
        forall|i: int|
            0 <= i < s.users_v().len() && (#[trigger] s.users_v()[i]).user_name == name
                ==> s.users_v()[i] == u0,
{
    let w0 = choose|i: int| 0 <= i < s.users_v().len() && #[trigger] s.users_v()[i] == u0;
    assert forall|i: int|
        0 <= i < s.users_v().len() && (#[trigger] s.users_v()[i]).user_name == name implies
        s.users_v()[i] == u0 by {
        if i != w0 {
            assert(s.users_v()[i].user_name != s.users_v()[w0].user_name);
        }
    }
}

} // verus!
