use guest_users::allocator::{
    find_next_unused_group_id_and_name, find_next_unused_user_id_and_name, AllocError,
};
use guest_users::config::Config;
use guest_users::gecos::Gecos;
use guest_users::names::{decimal_string, format_guest_name};
use guest_users::sources::StaticIdentitySource;
use guest_users::store::{Group, Store, StoreError, User, UserGroupMembership};

fn test_config() -> Config {
    Config::builtin_defaults()
}

fn quiet_system() -> StaticIdentitySource {
    StaticIdentitySource { uids: vec![], usernames: vec![], gids: vec![], groupnames: vec![] }
}

fn guest_user(id: i64) -> User {
    User {
        id,
        user_name: format!("guest-{id}"),
        user_group_id: id,
        home_path: format!("/home/guest-users/guest-{id}"),
        boot_id: String::from("boot-a"),
    }
}

fn guest_group(id: i64) -> Group {
    Group { id, group_name: format!("guest-{id}") }
}

#[test]
fn first_allocation_returns_the_minimum() {
    let store = Store::empty();
    let cfg = test_config();
    let sys = quiet_system();
    let (id, name) = find_next_unused_user_id_and_name(&store, &cfg, &sys).unwrap();
    assert_eq!(id, 31001);
    assert_eq!(name, "guest-31001");
}

#[test]
fn allocation_scans_upward_from_the_stored_maximum() {
    let store = Store::from_records(
        vec![guest_user(31001), guest_user(31002), guest_user(31003)],
        vec![guest_group(31001)],
        vec![],
    )
    .ok()
    .unwrap();
    let cfg = test_config();
    let sys = quiet_system();
    let (id, name) = find_next_unused_user_id_and_name(&store, &cfg, &sys).unwrap();
    assert_eq!(id, 31004);
    assert_eq!(name, "guest-31004");
}

#[test]
fn allocation_skips_identities_busy_on_the_system() {
    let store = Store::empty();
    let cfg = test_config();
    let sys = StaticIdentitySource {
        uids: vec![31001],
        usernames: vec![String::from("guest-31002")],
        gids: vec![],
        groupnames: vec![],
    };
    let (id, name) = find_next_unused_user_id_and_name(&store, &cfg, &sys).unwrap();
    assert_eq!(id, 31003);
    assert_eq!(name, "guest-31003");
}

#[test]
fn allocation_fails_once_the_range_is_exhausted() {
    let store = Store::empty();
    let mut cfg = test_config();
    cfg.uid_minimum = 31001;
    cfg.uid_maximum = 31002;
    let sys = StaticIdentitySource {
        uids: vec![31001, 31002],
        usernames: vec![],
        gids: vec![],
        groupnames: vec![],
    };
    let r = find_next_unused_user_id_and_name(&store, &cfg, &sys);
    assert!(matches!(r, Err(AllocError::NoFreeIdentity)));
}

#[test]
fn sequential_allocations_cover_the_range_and_then_fail() {
    let mut store = Store::empty();
    let mut cfg = test_config();
    cfg.uid_minimum = 31001;
    cfg.uid_maximum = 31003;
    cfg.gid_minimum = 31001;
    cfg.gid_maximum = 31003;
    let sys = quiet_system();
    for k in 0..3i64 {
        let (id, _) = find_next_unused_user_id_and_name(&store, &cfg, &sys).unwrap();
        assert_eq!(id, 31001 + k);
        let (gid, gname) = find_next_unused_group_id_and_name(&store, &cfg, &sys).unwrap();
        assert_eq!(gid, 31001 + k);
        store
            .insert_guest_account(guest_user(id), Group { id: gid, group_name: gname })
            .unwrap();
    }
    let r = find_next_unused_user_id_and_name(&store, &cfg, &sys);
    assert!(matches!(r, Err(AllocError::NoFreeIdentity)));
}

#[test]
fn allocation_never_returns_anything_busy_or_stored() {
    let busy_sets: Vec<(Vec<i64>, Vec<&str>)> = vec![
        (vec![], vec![]),
        (vec![31001, 31002, 31007], vec!["guest-31003"]),
        (vec![31004], vec!["guest-31001", "guest-31002"]),
        (vec![31001, 31003, 31005], vec!["guest-31002", "guest-31004", "guest-31006"]),
    ];
    let cfg = test_config();
    for (uids, names) in busy_sets {
        let store = Store::from_records(
            vec![guest_user(31001)],
            vec![guest_group(31001)],
            vec![],
        )
        .ok()
        .unwrap();
        let sys = StaticIdentitySource {
            uids: uids.clone(),
            usernames: names.iter().map(|n| n.to_string()).collect(),
            gids: vec![],
            groupnames: vec![],
        };
        let (id, name) = find_next_unused_user_id_and_name(&store, &cfg, &sys).unwrap();
        assert!(!uids.contains(&id));
        assert!(!names.contains(&name.as_str()));
        assert!(store.find_user_by_id(id).is_none());
        assert!(store.find_user_by_name(&name).is_none());
    }
}

#[test]
fn decimal_rendering_is_exact() {
    assert_eq!(decimal_string(0), "0");
    assert_eq!(decimal_string(7), "7");
    assert_eq!(decimal_string(31001), "31001");
    assert_eq!(decimal_string(1234567890), "1234567890");
}

#[test]
fn guest_names_join_prefix_and_number() {
    assert_eq!(format_guest_name("guest", 31001), "guest-31001");
    assert_eq!(format_guest_name("g", 1), "g-1");
}

#[test]
fn gecos_renders_five_comma_separated_fields() {
    let g = Gecos {
        full_name: Some(String::from("Guest")),
        room_number: None,
        work_phone: None,
        home_phone: None,
        other: None,
    };
    assert_eq!(g.to_gecos_string(), "Guest,,,,");
}

#[test]
fn gecos_strips_commas_inside_fields() {
    let g = Gecos {
        full_name: Some(String::from("a,b")),
        room_number: Some(String::from("1,2,3")),
        work_phone: Some(String::from(",")),
        home_phone: None,
        other: Some(String::from("x")),
    };
    assert_eq!(g.to_gecos_string(), "ab,123,,,x");
}

#[test]
fn store_insert_is_transactional_and_checked() {
    let mut store = Store::empty();
    store
        .insert_guest_account(guest_user(31001), guest_group(31001))
        .unwrap();
    let r = store.insert_guest_account(guest_user(31001), guest_group(31002));
    assert!(matches!(r, Err(StoreError::ConstraintViolation)));
    assert_eq!(store.get_users().len(), 1);
    assert_eq!(store.get_groups().len(), 1);
}

#[test]
fn store_queries_find_exactly_the_stored_records() {
    let mut store = Store::empty();
    store
        .insert_guest_account(guest_user(31001), guest_group(31001))
        .unwrap();
    let u = store.find_user_by_id(31001).unwrap();
    assert_eq!(u.user_name, "guest-31001");
    let u2 = store.find_user_by_name(&String::from("guest-31001")).unwrap();
    assert_eq!(u2.id, 31001);
    assert!(store.find_user_by_id(31002).is_none());
    assert!(store.find_user_by_name(&String::from("guest-31002")).is_none());
    let g = store.find_group_by_id(31001).unwrap();
    assert_eq!(g.group_name, "guest-31001");
    let g2 = store.find_group_by_name(&String::from("guest-31001")).unwrap();
    assert_eq!(g2.id, 31001);
    assert!(store.find_group_by_id(31002).is_none());
}

#[test]
fn from_records_rejects_duplicates_and_low_ids() {
    let dup = Store::from_records(
        vec![guest_user(31001), guest_user(31001)],
        vec![],
        vec![],
    );
    assert!(matches!(dup, Err(StoreError::ConstraintViolation)));
    let low = Store::from_records(vec![guest_user(0)], vec![], vec![]);
    assert!(matches!(low, Err(StoreError::ConstraintViolation)));
    let ok = Store::from_records(vec![guest_user(31001)], vec![guest_group(31001)], vec![]);
    assert!(ok.is_ok());
}

#[test]
fn memberships_pair_users_with_their_group() {
    let store = Store::from_records(
        vec![guest_user(31001), guest_user(31002)],
        vec![guest_group(31001)],
        vec![
            UserGroupMembership { id: 1, user_id: 31001, group_id: 31001 },
            UserGroupMembership { id: 2, user_id: 31002, group_id: 31001 },
            UserGroupMembership { id: 3, user_id: 31001, group_id: 31002 },
        ],
    )
    .ok()
    .unwrap();
    let pairs = store.find_users_for_group(&guest_group(31001));
    assert_eq!(pairs.len(), 2);
    assert!(pairs.iter().any(|(m, u)| m.user_id == 31001 && u.user_name == "guest-31001"));
    assert!(pairs.iter().any(|(m, u)| m.user_id == 31002 && u.user_name == "guest-31002"));
}

#[test]
fn builtin_defaults_match_the_documented_values() {
    let cfg = test_config();
    assert_eq!(cfg.guest_username_new_user, "guest");
    assert_eq!(cfg.home_base_path, "/home/guest-users");
    assert_eq!(cfg.home_skel, "/etc/skel");
    assert_eq!(cfg.uid_minimum, 31001);
    assert_eq!(cfg.uid_maximum, 31999);
    assert_eq!(cfg.ghost_user_uid, 31000);
    assert!(cfg.enable_ghost_user);
}
