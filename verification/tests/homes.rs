use guest_users::config::Config;
use guest_users::fs::{Fs, FsEntry};
use guest_users::provision::{create_home, remove_home, ProvisionError};
use guest_users::reaper::session_end_cleanup;
use guest_users::session::{AuthDecision, GuestUserPAMModule};
use guest_users::sources::{StaticIdentitySource, StaticSessionSource};
use guest_users::store::{Group, Store, User};
use guest_users::utmp::{has_active_user_sessions, sessions_from_utmp_bytes};
use guest_users::warn::guest_warning_notification;

fn test_config() -> Config {
    Config::builtin_defaults()
}

fn quiet_system() -> StaticIdentitySource {
    StaticIdentitySource { uids: vec![], usernames: vec![], gids: vec![], groupnames: vec![] }
}

fn no_sessions() -> StaticSessionSource {
    StaticSessionSource { names: vec![] }
}

fn sessions_for(names: &[&str]) -> StaticSessionSource {
    StaticSessionSource { names: names.iter().map(|n| n.to_string()).collect() }
}

fn dir_entry(path: &str, mode: u32, uid: u32, gid: u32) -> FsEntry {
    FsEntry { path: String::from(path), is_dir: true, mode, uid, gid }
}

fn file_entry(path: &str, mode: u32, uid: u32, gid: u32) -> FsEntry {
    FsEntry { path: String::from(path), is_dir: false, mode, uid, gid }
}

/// A disk holding the template tree, with the template top wide open to
/// show that the target's mode does not come from it.
fn disk_with_template() -> Fs {
    Fs {
        entries: vec![
            dir_entry("/etc/skel", 0o755, 0, 0),
            file_entry("/etc/skel/.bashrc", 0o644, 0, 0),
            dir_entry("/etc/skel/Desktop", 0o750, 0, 0),
            file_entry("/etc/skel/Desktop/readme", 0o600, 0, 0),
        ],
    }
}

fn guest_user(id: i64, boot: &str) -> User {
    User {
        id,
        user_name: format!("guest-{id}"),
        user_group_id: id,
        home_path: format!("/home/guest-users/guest-{id}"),
        boot_id: String::from(boot),
    }
}

fn guest_group(id: i64) -> Group {
    Group { id, group_name: format!("guest-{id}") }
}

#[test]
fn create_home_forces_the_restrictive_top_mode() {
    let mut fs = disk_with_template();
    let target = String::from("/home/guest-users/guest-31001");
    create_home(
        &mut fs,
        &String::from("/etc/skel"),
        &target,
        &String::from("/home/guest-users"),
        31001,
        31001,
    )
    .unwrap();
    let top = fs.stat(&target).unwrap();
    assert!(top.is_dir);
    assert_eq!(top.mode, 0o700);
    assert_eq!(top.uid, 31001);
    assert_eq!(top.gid, 31001);
    let base = fs.stat(&String::from("/home/guest-users")).unwrap();
    assert_eq!(base.mode, 0o755);
    assert_eq!(base.uid, 0);
    let copied = fs.stat(&String::from("/home/guest-users/guest-31001/.bashrc")).unwrap();
    assert_eq!(copied.mode, 0o644);
    assert_eq!(copied.uid, 31001);
    assert_eq!(copied.gid, 31001);
    let sub = fs.stat(&String::from("/home/guest-users/guest-31001/Desktop")).unwrap();
    assert!(sub.is_dir);
    assert_eq!(sub.mode, 0o750);
    assert_eq!(sub.uid, 31001);
}

#[test]
fn create_home_refuses_an_existing_target() {
    let mut fs = disk_with_template();
    let target = String::from("/home/guest-users/guest-31001");
    fs.upsert(dir_entry("/home/guest-users/guest-31001", 0o700, 31001, 31001));
    let r = create_home(
        &mut fs,
        &String::from("/etc/skel"),
        &target,
        &String::from("/home/guest-users"),
        31001,
        31001,
    );
    assert!(matches!(r, Err(ProvisionError::TargetConflict)));
}

#[test]
fn create_then_remove_leaves_no_trace_and_removal_is_idempotent() {
    let mut fs = disk_with_template();
    let target = String::from("/home/guest-users/guest-31001");
    let base = String::from("/home/guest-users");
    create_home(&mut fs, &String::from("/etc/skel"), &target, &base, 31001, 31001).unwrap();
    remove_home(&mut fs, &target, &base).unwrap();
    assert!(fs.stat(&target).is_none());
    assert!(fs.stat(&String::from("/home/guest-users/guest-31001/.bashrc")).is_none());
    assert!(fs.stat(&String::from("/home/guest-users/guest-31001/Desktop")).is_none());
    assert!(fs.stat(&String::from("/home/guest-users/guest-31001/Desktop/readme")).is_none());
    // the template survives untouched
    assert!(fs.stat(&String::from("/etc/skel/.bashrc")).is_some());
    // removing an already absent home is a no-op, not an error
    let again = remove_home(&mut fs, &target, &base);
    assert!(again.is_ok());
}

#[test]
fn remove_home_refuses_a_target_outside_the_base() {
    let mut fs = disk_with_template();
    let r = remove_home(
        &mut fs,
        &String::from("/etc"),
        &String::from("/home/guest-users"),
    );
    assert!(matches!(r, Err(ProvisionError::UnsafePath)));
    // nothing was touched
    assert!(fs.stat(&String::from("/etc/skel")).is_some());
    assert!(fs.stat(&String::from("/etc/skel/.bashrc")).is_some());
    assert_eq!(fs.entries.len(), disk_with_template().entries.len());
}

#[test]
fn privileged_new_guest_login_creates_the_first_account() {
    let mut store = Store::empty();
    let mut fs = disk_with_template();
    let cfg = test_config();
    let sys = quiet_system();
    let sessions = no_sessions();
    let r = GuestUserPAMModule::authenticate(
        &mut store,
        &mut fs,
        &cfg,
        &String::from("guest"),
        true,
        0,
        &String::from("boot-a"),
        &sys,
        &sessions,
    )
    .unwrap();
    let user = match r {
        AuthDecision::Success(u) => u,
        _ => panic!("expected a created guest"),
    };
    assert_eq!(user.id, 31001);
    assert_eq!(user.user_name, "guest-31001");
    assert_eq!(user.user_group_id, 31001);
    assert_eq!(user.home_path, "/home/guest-users/guest-31001");
    assert_eq!(user.boot_id, "boot-a");
    let top = fs.stat(&user.home_path).unwrap();
    assert!(top.is_dir);
    assert_eq!(top.mode, 0o700);
    assert!(store.find_user_by_id(31001).is_some());
    assert!(store.find_group_by_id(31001).is_some());
}

#[test]
fn unprivileged_new_guest_login_is_rejected() {
    let mut store = Store::empty();
    let mut fs = disk_with_template();
    let cfg = test_config();
    let r = GuestUserPAMModule::authenticate(
        &mut store,
        &mut fs,
        &cfg,
        &String::from("guest"),
        false,
        1000,
        &String::from("boot-a"),
        &quiet_system(),
        &no_sessions(),
    )
    .unwrap();
    assert!(matches!(r, AuthDecision::Reject));
    assert!(store.find_user_by_name(&String::from("guest-31001")).is_none());
}

#[test]
fn stale_boot_epoch_rejects_resumption_whatever_the_sessions_say() {
    let mut store = Store::empty();
    store
        .insert_guest_account(guest_user(31001, "boot-a"), guest_group(31001))
        .unwrap();
    let mut fs = disk_with_template();
    let cfg = test_config();
    let sessions = sessions_for(&["guest-31001"]);
    let r = GuestUserPAMModule::authenticate(
        &mut store,
        &mut fs,
        &cfg,
        &String::from("guest-31001"),
        true,
        0,
        &String::from("boot-b"),
        &quiet_system(),
        &sessions,
    )
    .unwrap();
    assert!(matches!(r, AuthDecision::Reject));
}

#[test]
fn a_guest_without_sessions_cannot_resume() {
    let mut store = Store::empty();
    store
        .insert_guest_account(guest_user(31001, "boot-a"), guest_group(31001))
        .unwrap();
    let mut fs = disk_with_template();
    let cfg = test_config();
    let r = GuestUserPAMModule::authenticate(
        &mut store,
        &mut fs,
        &cfg,
        &String::from("guest-31001"),
        true,
        0,
        &String::from("boot-a"),
        &quiet_system(),
        &no_sessions(),
    )
    .unwrap();
    assert!(matches!(r, AuthDecision::Reject));
}

#[test]
fn a_guest_with_a_live_session_resumes_within_its_boot() {
    let mut store = Store::empty();
    store
        .insert_guest_account(guest_user(31001, "boot-a"), guest_group(31001))
        .unwrap();
    let mut fs = disk_with_template();
    let cfg = test_config();
    let sessions = sessions_for(&["guest-31001"]);
    let r = GuestUserPAMModule::authenticate(
        &mut store,
        &mut fs,
        &cfg,
        &String::from("guest-31001"),
        false,
        31001,
        &String::from("boot-a"),
        &quiet_system(),
        &sessions,
    )
    .unwrap();
    match r {
        AuthDecision::Success(u) => assert_eq!(u.id, 31001),
        _ => panic!("expected resumption"),
    }
}

#[test]
fn another_unprivileged_user_cannot_resume_a_guest() {
    let mut store = Store::empty();
    store
        .insert_guest_account(guest_user(31001, "boot-a"), guest_group(31001))
        .unwrap();
    let mut fs = disk_with_template();
    let cfg = test_config();
    let sessions = sessions_for(&["guest-31001"]);
    let r = GuestUserPAMModule::authenticate(
        &mut store,
        &mut fs,
        &cfg,
        &String::from("guest-31001"),
        false,
        1000,
        &String::from("boot-a"),
        &quiet_system(),
        &sessions,
    )
    .unwrap();
    assert!(matches!(r, AuthDecision::Reject));
}

#[test]
fn unknown_login_names_are_ignored() {
    let mut store = Store::empty();
    let mut fs = disk_with_template();
    let cfg = test_config();
    let r = GuestUserPAMModule::authenticate(
        &mut store,
        &mut fs,
        &cfg,
        &String::from("alice"),
        false,
        1000,
        &String::from("boot-a"),
        &quiet_system(),
        &no_sessions(),
    )
    .unwrap();
    assert!(matches!(r, AuthDecision::Ignore));
}

#[test]
fn account_management_acknowledges_only_stored_guests() {
    let mut store = Store::empty();
    store
        .insert_guest_account(guest_user(31001, "boot-a"), guest_group(31001))
        .unwrap();
    let yes = GuestUserPAMModule::account_management(&store, &String::from("guest-31001"));
    assert!(matches!(yes, guest_users::AuthOutcome::Success));
    let no = GuestUserPAMModule::account_management(&store, &String::from("alice"));
    assert!(matches!(no, guest_users::AuthOutcome::Ignore));
}

#[test]
fn the_reaper_removes_only_the_sessionless_guest() {
    let store = Store::from_records(
        vec![guest_user(31001, "boot-a"), guest_user(31002, "boot-a")],
        vec![guest_group(31001), guest_group(31002)],
        vec![],
    )
    .ok()
    .unwrap();
    let mut fs = disk_with_template();
    fs.upsert(dir_entry("/home/guest-users/guest-31001", 0o700, 31001, 31001));
    fs.upsert(file_entry("/home/guest-users/guest-31001/data", 0o600, 31001, 31001));
    fs.upsert(dir_entry("/home/guest-users/guest-31002", 0o700, 31002, 31002));
    let cfg = test_config();
    let sessions = sessions_for(&["guest-31002"]);
    session_end_cleanup(&store, &mut fs, &cfg, &sessions);
    assert!(fs.stat(&String::from("/home/guest-users/guest-31001")).is_none());
    assert!(fs.stat(&String::from("/home/guest-users/guest-31001/data")).is_none());
    assert!(fs.stat(&String::from("/home/guest-users/guest-31002")).is_some());
    assert_eq!(store.get_users().len(), 2);
}

#[test]
fn the_reaper_skips_homes_outside_the_base() {
    let mut store = Store::empty();
    let stray = User {
        id: 31001,
        user_name: String::from("guest-31001"),
        user_group_id: 31001,
        home_path: String::from("/etc/skel"),
        boot_id: String::from("boot-a"),
    };
    store.insert_guest_account(stray, guest_group(31001)).unwrap();
    let mut fs = disk_with_template();
    let cfg = test_config();
    session_end_cleanup(&store, &mut fs, &cfg, &no_sessions());
    assert!(fs.stat(&String::from("/etc/skel")).is_some());
}

fn utmp_user_process_record(name: &str) -> Vec<u8> {
    // the native login record on this platform: 384 bytes, with the
    // record type in the first two bytes and the user name at offset 44
    let mut rec = vec![0u8; 384];
    rec[0] = 7; // a user process
    let name_bytes = name.as_bytes();
    rec[44..44 + name_bytes.len()].copy_from_slice(name_bytes);
    rec
}

#[test]
fn utmp_bytes_yield_the_active_login_names() {
    let mut bytes = utmp_user_process_record("guest-31001");
    bytes.extend(utmp_user_process_record("alice"));
    let sessions = sessions_from_utmp_bytes(&bytes).unwrap();
    assert!(has_active_user_sessions(&sessions, &String::from("guest-31001")));
    assert!(has_active_user_sessions(&sessions, &String::from("alice")));
    assert!(!has_active_user_sessions(&sessions, &String::from("guest-31002")));
}

#[test]
fn empty_utmp_bytes_yield_no_sessions() {
    let sessions = sessions_from_utmp_bytes(&vec![]).unwrap();
    assert!(!has_active_user_sessions(&sessions, &String::from("guest-31001")));
}

#[test]
fn non_user_process_records_carry_no_session() {
    let mut rec = utmp_user_process_record("guest-31001");
    rec[0] = 8; // a dead process record keeps its user field
    let sessions = sessions_from_utmp_bytes(&rec).unwrap();
    assert!(!has_active_user_sessions(&sessions, &String::from("guest-31001")));
}

#[test]
fn only_guests_are_warned() {
    let mut store = Store::empty();
    store
        .insert_guest_account(guest_user(31001, "boot-a"), guest_group(31001))
        .unwrap();
    let cfg = test_config();
    let n = guest_warning_notification(&store, &cfg, 31001).unwrap();
    assert_eq!(n.app_name, cfg.guest_user_warning_app_name);
    assert_eq!(n.title, cfg.guest_user_warning_title);
    assert_eq!(n.body, cfg.guest_user_warning_body);
    assert!(guest_warning_notification(&store, &cfg, 1000).is_none());
}

#[test]
fn copying_without_touch_refuses_a_missing_destination() {
    let mut fs = disk_with_template();
    let before = fs.entries.len();
    let r = guest_users::provision::copy_dir_recursive_and_set_owner(
        &mut fs,
        &String::from("/etc/skel"),
        &String::from("/home/guest-users/guest-31001"),
        31001,
        31001,
        false,
    );
    assert!(matches!(r, Err(ProvisionError::DestinationMissing)));
    // nothing was copied
    assert_eq!(fs.entries.len(), before);
    assert!(fs.stat(&String::from("/home/guest-users/guest-31001/.bashrc")).is_none());
}

#[test]
fn a_store_refusal_rolls_the_created_home_back() {
    // a stored guest whose name squats on the next free number: the
    // allocator picks 31006, whose name this record already holds
    let squatter = User {
        id: 31005,
        user_name: String::from("guest-31006"),
        user_group_id: 31005,
        home_path: String::from("/home/guest-users/guest-31005"),
        boot_id: String::from("boot-a"),
    };
    let mut store = Store::empty();
    store.insert_guest_account(squatter, guest_group(31005)).unwrap();
    let mut fs = disk_with_template();
    let cfg = test_config();
    let r = store.create_guest_user(
        &mut fs,
        &cfg,
        &quiet_system(),
        &String::from("boot-a"),
    );
    assert!(matches!(r, Err(guest_users::session::CreateUserError::StoreConstraint)));
    // the half-created home is gone again, the template survives
    assert!(fs.stat(&String::from("/home/guest-users/guest-31006")).is_none());
    assert!(fs.stat(&String::from("/home/guest-users/guest-31006/.bashrc")).is_none());
    assert!(fs.stat(&String::from("/etc/skel/.bashrc")).is_some());
    // no record was inserted
    assert_eq!(store.get_users().len(), 1);
    assert_eq!(store.get_groups().len(), 1);
}

#[test]
fn a_pre_existing_home_directory_is_reported_and_survives() {
    let mut store = Store::empty();
    let mut fs = disk_with_template();
    fs.upsert(file_entry("/home/guest-users/guest-31001", 0o644, 0, 0));
    let cfg = test_config();
    let r = store.create_guest_user(
        &mut fs,
        &cfg,
        &quiet_system(),
        &String::from("boot-a"),
    );
    assert!(matches!(r, Err(guest_users::session::CreateUserError::HomeConflict)));
    // the stale object is untouched and nothing was stored
    let stale = fs.stat(&String::from("/home/guest-users/guest-31001")).unwrap();
    assert!(!stale.is_dir);
    assert_eq!(stale.mode, 0o644);
    assert_eq!(store.get_users().len(), 0);
}
