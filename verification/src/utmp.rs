//! Reading the OS session table: the raw bytes of the login-record file
//! are parsed by an outside crate, and the user names of the active
//! login processes become a session snapshot.

use vstd::prelude::*;
use crate::sources::StaticSessionSource;

verus! {

/// The login names of the user-process records that a login-record file
/// with these bytes holds, in file order.
pub uninterp spec fn utmp_active_users(bytes: Seq<u8>) -> Seq<Seq<char>>;

/// Whether these bytes parse as a whole number of well-formed login
/// records.
pub uninterp spec fn utmp_parses(bytes: Seq<u8>) -> bool;

/// Relies on utmp_rs::parse_from_reader: parsing reads nothing but the
/// given bytes, succeeds or fails as a function of them alone, and each
/// user-process record carries the user name that is extracted here.
#[verifier::external_body]
fn parse_utmp_user_processes(bytes: &Vec<u8>) -> (r: Option<Vec<String>>)
    ensures
        match r {
            Some(names) => utmp_parses(bytes@) && names@.map_values(|s: String| s@)
                == utmp_active_users(bytes@),
            None => !utmp_parses(bytes@),
        },
{
    match utmp_rs::parse_from_reader(bytes.as_slice()) {
        Ok(entries) => {
            let mut names = Vec::new();
            for entry in entries {
                match entry {
                    utmp_rs::UtmpEntry::UserProcess { user, .. } => names.push(user),
                    _ => {},
                }
            }
            Some(names)
        },
        Err(_) => None,
    }
}

/// Builds a session snapshot from the raw bytes of the login-record
/// file; `None` exactly when the bytes do not parse as login records.
pub fn sessions_from_utmp_bytes(bytes: &Vec<u8>) -> (r: Option<StaticSessionSource>)
    ensures
        match r {
            Some(s) => utmp_parses(bytes@) && s.names@.map_values(|n: String| n@)
                == utmp_active_users(bytes@),
            None => !utmp_parses(bytes@),
        },
{
    match parse_utmp_user_processes(bytes) {
        Some(names) => Some(StaticSessionSource { names }),
        None => None,
    }
}

/// Whether the snapshot reports at least one active session for this
/// login name.
pub fn has_active_user_sessions(sessions: &StaticSessionSource, user_name: &String) -> (r: bool)
    ensures
        r == crate::sources::text_set_of(sessions.names@).contains(user_name@),
{
    crate::sources::SessionSource::has_session_for(sessions, user_name)
}

} // verus!
