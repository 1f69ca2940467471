//! The oracles the subsystem consults about the live operating system:
//! which accounts exist outside the identity store, and which login
//! sessions are currently active.  Production callers back these with the
//! real OS tables; tests substitute fixed snapshots.

use vstd::prelude::*;

verus! {

/// A snapshot of the live OS identity database: which user and group
/// identity numbers and names are already taken by accounts outside the
/// identity store.
pub trait IdentitySource {
    /// The user identity numbers in use.
    spec fn busy_uids(&self) -> Set<int>;

    /// The user login names in use.
    spec fn busy_usernames(&self) -> Set<Seq<char>>;

    /// The group identity numbers in use.
    spec fn busy_gids(&self) -> Set<int>;

    /// The group names in use.
    spec fn busy_groupnames(&self) -> Set<Seq<char>>;

    /// Whether a live account already uses this user identity number.
    fn uid_in_use(&self, id: i64) -> (r: bool)
        ensures
            r == self.busy_uids().contains(id as int),
    ;

    /// Whether a live account already uses this login name.
    fn username_in_use(&self, name: &String) -> (r: bool)
        ensures
            r == self.busy_usernames().contains(name@),
    ;

    /// Whether a live account already uses this group identity number.
    fn gid_in_use(&self, id: i64) -> (r: bool)
        ensures
            r == self.busy_gids().contains(id as int),
    ;

    /// Whether a live account already uses this group name.
    fn groupname_in_use(&self, name: &String) -> (r: bool)
        ensures
            r == self.busy_groupnames().contains(name@),
    ;
}

/// The set of login names that currently hold at least one active
/// session.
pub trait SessionSource {
    /// The login names with an active session.
    spec fn active_names(&self) -> Set<Seq<char>>;

    /// Whether this login name holds at least one active session.
    fn has_session_for(&self, name: &String) -> (r: bool)
        ensures
            r == self.active_names().contains(name@),
    ;
}

/// A fixed identity snapshot held as plain lists.
pub struct StaticIdentitySource {
    pub uids: Vec<i64>,
    pub usernames: Vec<String>,
    pub gids: Vec<i64>,
    pub groupnames: Vec<String>,
}

/// The set of mathematical integers a list of numbers holds.
pub open spec fn int_set_of(v: Seq<i64>) -> Set<int> {
    Set::new(|x: int| exists|i: int| 0 <= i < v.len() && (#[trigger] v[i]) as int == x)
}

/// The set of texts a list of strings holds.
pub open spec fn text_set_of(v: Seq<String>) -> Set<Seq<char>> {
    Set::new(|x: Seq<char>| exists|i: int| 0 <= i < v.len() && (#[trigger] v[i])@ == x)
}

/// Whether a list of numbers holds this number.
fn contains_i64(v: &Vec<i64>, x: i64) -> (r: bool)
    ensures
        r == int_set_of(v@).contains(x as int),
{
    let mut i: usize = 0;
    while i < v.len()
        invariant
            i <= v.len(),
            forall|k: int| 0 <= k < i ==> (#[trigger] v@[k]) as int != x as int,
        decreases v.len() - i,
    {
        if v[i] == x {
            proof {
                assert((v@[i as int]) as int == x as int);
            }
            return true;
        }
        i = i + 1;
    }
    false
}

/// Whether a list of strings holds this text.
fn contains_text(v: &Vec<String>, x: &String) -> (r: bool)
    ensures
        r == text_set_of(v@).contains(x@),
{
    let mut i: usize = 0;
    while i < v.len()
        invariant
            i <= v.len(),
            forall|k: int| 0 <= k < i ==> (#[trigger] v@[k])@ != x@,
        decreases v.len() - i,
    {
        if v[i] == *x {
            proof {
                assert((v@[i as int])@ == x@);
            }
            return true;
        }
        i = i + 1;
    }
    false
}

impl IdentitySource for StaticIdentitySource {
    open spec fn busy_uids(&self) -> Set<int> {
        int_set_of(self.uids@)
    }

    open spec fn busy_usernames(&self) -> Set<Seq<char>> {
        text_set_of(self.usernames@)
    }

    open spec fn busy_gids(&self) -> Set<int> {
        int_set_of(self.gids@)
    }

    open spec fn busy_groupnames(&self) -> Set<Seq<char>> {
        text_set_of(self.groupnames@)
    }

    fn uid_in_use(&self, id: i64) -> (r: bool) {
        contains_i64(&self.uids, id)
    }

    fn username_in_use(&self, name: &String) -> (r: bool) {
        contains_text(&self.usernames, name)
    }

    fn gid_in_use(&self, id: i64) -> (r: bool) {
        contains_i64(&self.gids, id)
    }

    fn groupname_in_use(&self, name: &String) -> (r: bool) {
        contains_text(&self.groupnames, name)
    }
}

/// A fixed session snapshot: the login names with an active session.
pub struct StaticSessionSource {
    pub names: Vec<String>,
}

impl SessionSource for StaticSessionSource {
    open spec fn active_names(&self) -> Set<Seq<char>> {
        text_set_of(self.names@)
    }

    fn has_session_for(&self, name: &String) -> (r: bool) {
        contains_text(&self.names, name)
    }
}

} // verus!
