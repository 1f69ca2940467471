use guest_users::config::Config;
use guest_users::group;
use guest_users::lookup::{LookupError, Response};
use guest_users::passwd;
use guest_users::shadow;
use guest_users::sources::StaticSessionSource;
use guest_users::store::{Group, Store, User, UserGroupMembership};

fn test_config() -> Config {
    Config::builtin_defaults()
}

fn guest_user(id: i64) -> User {
    User {
        id,
        user_name: format!("guest-{id}"),
        user_group_id: id,
        home_path: format!("/home/guest-users/guest-{id}"),
        boot_id: String::from("boot-a"),
    }
}

fn guest_group(id: i64) -> Group {
    Group { id, group_name: format!("guest-{id}") }
}

fn one_guest_store() -> Store {
    Store::from_records(
        vec![guest_user(31001)],
        vec![guest_group(31001)],
        vec![UserGroupMembership { id: 1, user_id: 31001, group_id: 31001 }],
    )
    .ok()
    .unwrap()
}

#[test]
fn passwd_entries_carry_the_account_fields() {
    let cfg = test_config();
    let p = passwd::db_to_passwd(&cfg, &guest_user(31001));
    assert_eq!(p.name, "guest-31001");
    assert_eq!(p.passwd, "x");
    assert_eq!(p.uid, 31001);
    assert_eq!(p.gid, 31001);
    assert_eq!(p.gecos, "Guest (31001),,,,");
    assert_eq!(p.dir, "/home/guest-users/guest-31001");
    assert_eq!(p.shell, "/bin/bash");
}

#[test]
fn the_placeholder_account_is_synthesized_from_configuration() {
    let cfg = test_config();
    let p = passwd::get_ghost_user(&cfg).unwrap().unwrap();
    assert_eq!(p.name, "guest");
    assert_eq!(p.uid, 31000);
    assert_eq!(p.gid, 31000);
    assert_eq!(p.gecos, "Guest,,,,");
    assert_eq!(p.dir, "/dev/null");
    assert_eq!(p.shell, "/bin/false");
    let mut off = test_config();
    off.enable_ghost_user = false;
    assert!(passwd::get_ghost_user(&off).unwrap().is_none());
}

#[test]
fn a_placeholder_identity_outside_the_os_range_is_refused() {
    let mut cfg = test_config();
    cfg.ghost_user_uid = -1;
    let r = passwd::get_ghost_user(&cfg);
    assert!(matches!(r, Err(LookupError::InvalidGhostId)));
}

#[test]
fn passwd_lookup_prefers_stored_guests_then_the_placeholder() {
    let cfg = test_config();
    let store = one_guest_store();
    match passwd::get_entry_by_uid(&store, &cfg, 31001).unwrap() {
        Response::Success(p) => assert_eq!(p.name, "guest-31001"),
        _ => panic!("expected the stored guest"),
    }
    match passwd::get_entry_by_uid(&store, &cfg, 31000).unwrap() {
        Response::Success(p) => assert_eq!(p.name, "guest"),
        _ => panic!("expected the placeholder"),
    }
    assert!(matches!(
        passwd::get_entry_by_uid(&store, &cfg, 31002).unwrap(),
        Response::NotFound
    ));
    match passwd::get_entry_by_name(&store, &cfg, &String::from("guest")).unwrap() {
        Response::Success(p) => assert_eq!(p.uid, 31000),
        _ => panic!("expected the placeholder"),
    }
}

#[test]
fn passwd_listing_appends_the_placeholder() {
    let cfg = test_config();
    let store = one_guest_store();
    let all = passwd::get_all_entries(&store, &cfg).unwrap();
    assert_eq!(all.len(), 2);
    assert_eq!(all[0].name, "guest-31001");
    assert_eq!(all[1].name, "guest");
}

#[test]
fn shadow_entries_deactivate_stale_or_sessionless_guests() {
    let boot = String::from("boot-a");
    let with_session = StaticSessionSource { names: vec![String::from("guest-31001")] };
    let without = StaticSessionSource { names: vec![] };
    let live = shadow::db_to_shadow(&guest_user(31001), &boot, &with_session);
    assert_eq!(live.passwd, "x");
    assert_eq!(live.name, "guest-31001");
    assert_eq!(live.change_max_days, 99999);
    assert_eq!(live.expire_date, -1);
    let idle = shadow::db_to_shadow(&guest_user(31001), &boot, &without);
    assert_eq!(idle.passwd, "!");
    let rebooted = shadow::db_to_shadow(&guest_user(31001), &String::from("boot-b"), &with_session);
    assert_eq!(rebooted.passwd, "!");
}

#[test]
fn shadow_lookup_covers_guests_and_the_placeholder() {
    let cfg = test_config();
    let store = one_guest_store();
    let boot = String::from("boot-a");
    let sessions = StaticSessionSource { names: vec![] };
    let all = shadow::get_all_entries(&store, &cfg, &boot, &sessions);
    assert_eq!(all.len(), 2);
    assert_eq!(all[1].name, "Guest");
    match shadow::get_entry_by_name(&store, &cfg, &String::from("guest-31001"), &boot, &sessions) {
        Response::Success(s) => assert_eq!(s.passwd, "!"),
        _ => panic!("expected the stored guest"),
    }
    assert!(matches!(
        shadow::get_entry_by_name(&store, &cfg, &String::from("alice"), &boot, &sessions),
        Response::NotFound
    ));
}

#[test]
fn group_entries_list_their_members() {
    let store = one_guest_store();
    let g = group::db_to_group(&store, &guest_group(31001));
    assert_eq!(g.name, "guest-31001");
    assert_eq!(g.gid, 31001);
    assert_eq!(g.passwd, "x");
    assert_eq!(g.members, vec![String::from("guest-31001")]);
}

#[test]
fn group_lookup_covers_groups_and_the_placeholder() {
    let cfg = test_config();
    let store = one_guest_store();
    let all = group::get_all_entries(&store, &cfg).unwrap();
    assert_eq!(all.len(), 2);
    assert_eq!(all[1].name, "guest");
    assert_eq!(all[1].gid, 31000);
    assert_eq!(all[1].members, vec![String::from("guest")]);
    match group::get_entry_by_gid(&store, &cfg, 31001).unwrap() {
        Response::Success(g) => assert_eq!(g.name, "guest-31001"),
        _ => panic!("expected the stored group"),
    }
    match group::get_entry_by_name(&store, &cfg, &String::from("guest")).unwrap() {
        Response::Success(g) => assert_eq!(g.gid, 31000),
        _ => panic!("expected the placeholder group"),
    }
    assert!(matches!(
        group::get_entry_by_gid(&store, &cfg, 31002).unwrap(),
        Response::NotFound
    ));
}

#[test]
fn a_bad_placeholder_group_identity_is_refused() {
    let mut cfg = test_config();
    cfg.ghost_user_gid = i64::from(u32::MAX) + 1;
    let r = group::get_ghost_group(&cfg);
    assert!(matches!(r, Err(LookupError::InvalidGhostId)));
}
