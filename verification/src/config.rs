//! Configuration of the guest-account subsystem.
//!
//! The settings are loaded from a file by the surrounding program; this
//! module holds the plain settings record and the built-in defaults that
//! apply when no file is present.

use vstd::prelude::*;

verus! {

/// All settings the subsystem reads, as plain values.
pub struct Config {
    /// Reserved login name whose use requests a brand new guest account.
    pub guest_username_new_user: String,
    /// Prefix of every allocated guest login name (`{prefix}-{id}`).
    pub guest_username_prefix: String,
    /// Prefix used when showing a guest account to a human.
    pub guest_username_human_readable_prefix: String,
    /// Prefix of every allocated guest group name (`{prefix}-{id}`).
    pub guest_group_name_prefix: String,
    /// Directory under which every guest home directory lives.
    pub home_base_path: String,
    /// Template directory copied into each new home directory.
    pub home_skel: String,
    /// Login shell reported for guest accounts.
    pub guest_shell: String,
    /// Location of the persisted identity store.
    pub public_database_path: String,
    /// Smallest user identity number the allocator may hand out.
    pub uid_minimum: u32,
    /// Largest user identity number the allocator may hand out.
    pub uid_maximum: u32,
    /// Smallest group identity number the allocator may hand out.
    pub gid_minimum: u32,
    /// Largest group identity number the allocator may hand out.
    pub gid_maximum: u32,
    /// Application name shown on the guest warning notification.
    pub guest_user_warning_app_name: String,
    /// Title of the guest warning notification.
    pub guest_user_warning_title: String,
    /// Body of the guest warning notification.
    pub guest_user_warning_body: String,
    /// Whether lookups synthesize the placeholder account entry.
    pub enable_ghost_user: bool,
    /// Human-readable name of the placeholder account.
    pub ghost_user_gecos_username: String,
    /// Identity number the placeholder account is shown with.
    pub ghost_user_uid: i64,
    /// Group identity number the placeholder account is shown with.
    pub ghost_user_gid: i64,
}

impl Config {
    /// A configuration is usable when both identity ranges are non-empty
    /// and never reach below 1.
    pub open spec fn valid(self) -> bool {
        &&& 1 <= self.uid_minimum <= self.uid_maximum
        &&& 1 <= self.gid_minimum <= self.gid_maximum
    }

    /// The defaults that apply when no configuration file is present.
    pub fn builtin_defaults() -> (r: Config)
        ensures
            r.valid(),
            r.guest_username_new_user@ == "guest"@,
            r.guest_username_prefix@ == "guest"@,
            r.guest_username_human_readable_prefix@ == "Guest"@,
            r.guest_group_name_prefix@ == "guest"@,
            r.home_base_path@ == "/home/guest-users"@,
            r.home_skel@ == "/etc/skel"@,
            r.guest_shell@ == "/bin/bash"@,
            r.public_database_path@ == "/etc/guest-users/public.db"@,
            r.uid_minimum == 31001u32,
            r.uid_maximum == 31999u32,
            r.gid_minimum == 31001u32,
            r.gid_maximum == 31999u32,
            r.guest_user_warning_app_name@ == "Guest User"@,
            r.guest_user_warning_title@ == "You are using a guest account"@,
            r.enable_ghost_user == true,
            r.ghost_user_gecos_username@ == "Guest"@,
            r.ghost_user_uid == 31000i64,
            r.ghost_user_gid == 31000i64,
    {
        Config {
            guest_username_new_user: String::from_str("guest"),
            guest_username_prefix: String::from_str("guest"),
            guest_username_human_readable_prefix: String::from_str("Guest"),
            guest_group_name_prefix: String::from_str("guest"),
            home_base_path: String::from_str("/home/guest-users"),
            home_skel: String::from_str("/etc/skel"),
            guest_shell: String::from_str("/bin/bash"),
            public_database_path: String::from_str("/etc/guest-users/public.db"),
            uid_minimum: 31001,
            uid_maximum: 31999,
            gid_minimum: 31001,
            gid_maximum: 31999,
            guest_user_warning_app_name: String::from_str("Guest User"),
            guest_user_warning_title: String::from_str("You are using a guest account"),
            guest_user_warning_body: String::from_str(
                "All data will be deleted on logout. Make sure to store your data on a safe location apart from this device.",
            ),
            enable_ghost_user: true,
            ghost_user_gecos_username: String::from_str("Guest"),
            ghost_user_uid: 31000,
            ghost_user_gid: 31000,
        }
    }
}

} // verus!
