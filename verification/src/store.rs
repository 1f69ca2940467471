//! The persisted identity store: the records of allocated guest users and
//! groups, the uniqueness invariants over them, and the query and insert
//! operations.  The surrounding program loads the records from its storage
//! engine and hands them in as plain values.

use vstd::prelude::*;

verus! {

/// A stored guest user record.  Never mutated after creation.
pub struct User {
    pub id: i64,
    pub user_name: String,
    pub user_group_id: i64,
    pub home_path: String,
    pub boot_id: String,
}

/// A stored guest group record.
pub struct Group {
    pub id: i64,
    pub group_name: String,
}

/// An association of a user to a group.
pub struct UserGroupMembership {
    pub id: i64,
    pub user_id: i64,
    pub group_id: i64,
}

/// The mathematical value of a user record.
pub struct UserV {
    pub id: int,
    pub user_name: Seq<char>,
    pub user_group_id: int,
    pub home_path: Seq<char>,
    pub boot_id: Seq<char>,
}

/// The mathematical value of a group record.
pub struct GroupV {
    pub id: int,
    pub group_name: Seq<char>,
}

/// The mathematical value of a membership record.
pub struct MembershipV {
    pub id: int,
    pub user_id: int,
    pub group_id: int,
}

impl View for User {
    type V = UserV;

    open spec fn view(&self) -> UserV {
        UserV {
            id: self.id as int,
            user_name: self.user_name@,
            user_group_id: self.user_group_id as int,
            home_path: self.home_path@,
            boot_id: self.boot_id@,
        }
    }
}

impl View for Group {
    type V = GroupV;

    open spec fn view(&self) -> GroupV {
        GroupV { id: self.id as int, group_name: self.group_name@ }
    }
}

impl View for UserGroupMembership {
    type V = MembershipV;

    open spec fn view(&self) -> MembershipV {
        MembershipV {
            id: self.id as int,
            user_id: self.user_id as int,
            group_id: self.group_id as int,
        }
    }
}

impl User {
    /// An owned copy with the same value.
    pub fn duplicate(&self) -> (r: User)
        ensures
            r@ == self@,
    {
        User {
            id: self.id,
            user_name: self.user_name.clone(),
            user_group_id: self.user_group_id,
            home_path: self.home_path.clone(),
            boot_id: self.boot_id.clone(),
        }
    }
}

impl Group {
    /// An owned copy with the same value.
    pub fn duplicate(&self) -> (r: Group)
        ensures
            r@ == self@,
    {
        Group { id: self.id, group_name: self.group_name.clone() }
    }
}

impl UserGroupMembership {
    /// An owned copy with the same value.
    pub fn duplicate(&self) -> (r: UserGroupMembership)
        ensures
            r@ == self@,
    {
        UserGroupMembership { id: self.id, user_id: self.user_id, group_id: self.group_id }
    }
}

/// Failures the store surfaces.
#[derive(Debug)]
pub enum StoreError {
    /// A record would break the uniqueness invariants, or carries an
    /// identity number below 1.
    ConstraintViolation,
}

/// The identity store: the only owner of the persisted records.
pub struct Store {
    pub users: Vec<User>,
    pub groups: Vec<Group>,
    pub memberships: Vec<UserGroupMembership>,
}

impl Store {
    /// The stored user records, as mathematical values.
    pub open spec fn users_v(self) -> Seq<UserV> {
        self.users@.map_values(|u: User| u@)
    }

    /// The stored group records, as mathematical values.
    pub open spec fn groups_v(self) -> Seq<GroupV> {
        self.groups@.map_values(|g: Group| g@)
    }

    /// The stored membership records, as mathematical values.
    pub open spec fn memberships_v(self) -> Seq<MembershipV> {
        self.memberships@.map_values(|m: UserGroupMembership| m@)
    }

    /// Some stored user carries this identity number.
    pub open spec fn has_user_id(self, id: int) -> bool {
        exists|i: int| 0 <= i < self.users_v().len() && (#[trigger] self.users_v()[i]).id == id
    }

    /// Some stored user carries this login name.
    pub open spec fn has_user_name(self, name: Seq<char>) -> bool {
        exists|i: int|
            0 <= i < self.users_v().len() && (#[trigger] self.users_v()[i]).user_name == name
    }

    /// Some stored group carries this identity number.
    pub open spec fn has_group_id(self, id: int) -> bool {
        exists|i: int| 0 <= i < self.groups_v().len() && (#[trigger] self.groups_v()[i]).id == id
    }

    /// Some stored group carries this name.
    pub open spec fn has_group_name(self, name: Seq<char>) -> bool {
        exists|i: int|
            0 <= i < self.groups_v().len() && (#[trigger] self.groups_v()[i]).group_name == name
    }

    /// The store's invariants: no two users share an identity number or
    /// login name, no two groups share an identity number or name, and no
    /// identity number falls below 1.
    pub open spec fn wf(self) -> bool {
        &&& forall|i: int, j: int|
            #![trigger self.users_v()[i], self.users_v()[j]]
            0 <= i < self.users_v().len() && 0 <= j < self.users_v().len() && i != j
                ==> self.users_v()[i].id != self.users_v()[j].id && self.users_v()[i].user_name
                != self.users_v()[j].user_name
        &&& forall|i: int, j: int|
            #![trigger self.groups_v()[i], self.groups_v()[j]]
            0 <= i < self.groups_v().len() && 0 <= j < self.groups_v().len() && i != j
                ==> self.groups_v()[i].id != self.groups_v()[j].id
                && self.groups_v()[i].group_name != self.groups_v()[j].group_name
        &&& forall|i: int| 0 <= i < self.users_v().len() ==> (#[trigger] self.users_v()[i]).id >= 1
        &&& forall|i: int|
            0 <= i < self.groups_v().len() ==> (#[trigger] self.groups_v()[i]).id >= 1
    }

    /// A store with no records at all.
    pub fn empty() -> (r: Store)
        ensures
            r.wf(),
            r.users_v() == Seq::<UserV>::empty(),
            r.groups_v() == Seq::<GroupV>::empty(),
            r.memberships_v() == Seq::<MembershipV>::empty(),
    {
        let r = Store { users: Vec::new(), groups: Vec::new(), memberships: Vec::new() };
        proof {
            assert(r.users_v() =~= Seq::<UserV>::empty());
            assert(r.groups_v() =~= Seq::<GroupV>::empty());
            assert(r.memberships_v() =~= Seq::<MembershipV>::empty());
        }
        r
    }

    /// Whether these records respect the store's invariants.
    pub open spec fn records_valid(
        users: Seq<UserV>,
        groups: Seq<GroupV>,
    ) -> bool {
        &&& forall|i: int, j: int|
            #![trigger users[i], users[j]]
            0 <= i < users.len() && 0 <= j < users.len() && i != j ==> users[i].id != users[j].id
                && users[i].user_name != users[j].user_name
        &&& forall|i: int, j: int|
            #![trigger groups[i], groups[j]]
            0 <= i < groups.len() && 0 <= j < groups.len() && i != j ==> groups[i].id
                != groups[j].id && groups[i].group_name != groups[j].group_name
        &&& forall|i: int| 0 <= i < users.len() ==> (#[trigger] users[i]).id >= 1
        &&& forall|i: int| 0 <= i < groups.len() ==> (#[trigger] groups[i]).id >= 1
    }

    /// Builds a store from loaded records, accepting them only when they
    /// respect the uniqueness invariants and the identity floor.
    pub fn from_records(
        users: Vec<User>,
        groups: Vec<Group>,
        memberships: Vec<UserGroupMembership>,
    ) -> (r: Result<Store, StoreError>)
        ensures
            match r {
                Ok(s) => {
                    &&& s.wf()
                    &&& s.users_v() == users@.map_values(|u: User| u@)
                    &&& s.groups_v() == groups@.map_values(|g: Group| g@)
                    &&& s.memberships_v() == memberships@.map_values(
                        |m: UserGroupMembership| m@,
                    )
                },
                Err(StoreError::ConstraintViolation) => !Store::records_valid(
                    users@.map_values(|u: User| u@),
                    groups@.map_values(|g: Group| g@),
                ),
            },
    {
        let s = Store { users, groups, memberships };
        let mut i: usize = 0;
        while i < s.users.len()
            invariant
                s.users@ == users@,
                s.groups@ == groups@,
                i <= s.users_v().len(),
                forall|a: int, b: int|
                    #![trigger s.users_v()[a], s.users_v()[b]]
                    0 <= a < i && 0 <= b < s.users_v().len() && a != b ==> s.users_v()[a].id
                        != s.users_v()[b].id && s.users_v()[a].user_name
                        != s.users_v()[b].user_name,
                forall|a: int| 0 <= a < i ==> (#[trigger] s.users_v()[a]).id >= 1,
            decreases s.users_v().len() - i,
        {
            if s.users[i].id < 1 {
                proof {
                    assert((s.users_v()[i as int]).id < 1);
                    assert(s.users_v() =~= users@.map_values(|u: User| u@));
                    assert(s.groups_v() =~= groups@.map_values(|g: Group| g@));
                }
                return Err(StoreError::ConstraintViolation);
            }
            let mut j: usize = i + 1;
            while j < s.users.len()
                invariant
                    s.users@ == users@,
                    s.groups@ == groups@,
                    i < s.users_v().len(),
                    j <= s.users_v().len(),
                    i + 1 <= j,
                    forall|b: int|
                        i < b < j ==> (#[trigger] s.users_v()[b]).id != s.users_v()[i as int].id
                            && s.users_v()[b].user_name != s.users_v()[i as int].user_name,
                decreases s.users_v().len() - j,
            {
                if s.users[j].id == s.users[i].id || s.users[j].user_name == s.users[i].user_name {
                    proof {
                        assert(s.users_v()[i as int].id == s.users_v()[j as int].id
                            || s.users_v()[i as int].user_name == s.users_v()[j as int].user_name);
                        assert(s.users_v() =~= users@.map_values(|u: User| u@));
                        assert(s.groups_v() =~= groups@.map_values(|g: Group| g@));
                    }
                    return Err(StoreError::ConstraintViolation);
                }
                j = j + 1;
            }
            proof {
                assert forall|a: int, b: int|
                    #![trigger s.users_v()[a], s.users_v()[b]]
                    0 <= a < i + 1 && 0 <= b < s.users_v().len() && a != b implies s.users_v()[
                    a].id != s.users_v()[b].id && s.users_v()[a].user_name
                    != s.users_v()[b].user_name by {
                    if a == i && b > i {
                    } else if a == i && b < i {
                    }
                }
            }
            i = i + 1;
        }
        let mut i: usize = 0;
        while i < s.groups.len()
            invariant
                s.users@ == users@,
                s.groups@ == groups@,
                i <= s.groups_v().len(),
                forall|a: int, b: int|
                    #![trigger s.groups_v()[a], s.groups_v()[b]]
                    0 <= a < i && 0 <= b < s.groups_v().len() && a != b ==> s.groups_v()[a].id
                        != s.groups_v()[b].id && s.groups_v()[a].group_name
                        != s.groups_v()[b].group_name,
                forall|a: int| 0 <= a < i ==> (#[trigger] s.groups_v()[a]).id >= 1,
            decreases s.groups_v().len() - i,
        {
            if s.groups[i].id < 1 {
                proof {
                    assert((s.groups_v()[i as int]).id < 1);
                    assert(s.users_v() =~= users@.map_values(|u: User| u@));
                    assert(s.groups_v() =~= groups@.map_values(|g: Group| g@));
                }
                return Err(StoreError::ConstraintViolation);
            }
            let mut j: usize = i + 1;
            while j < s.groups.len()
                invariant
                    s.users@ == users@,
                    s.groups@ == groups@,
                    i < s.groups_v().len(),
                    j <= s.groups_v().len(),
                    i + 1 <= j,
                    forall|b: int|
                        i < b < j ==> (#[trigger] s.groups_v()[b]).id != s.groups_v()[i as int].id
                            && s.groups_v()[b].group_name != s.groups_v()[i as int].group_name,
                decreases s.groups_v().len() - j,
            {
                if s.groups[j].id == s.groups[i].id || s.groups[j].group_name == s.groups[
                    i].group_name {
                    proof {
                        assert(s.groups_v()[i as int].id == s.groups_v()[j as int].id
                            || s.groups_v()[i as int].group_name == s.groups_v()[
                            j as int].group_name);
                        assert(s.users_v() =~= users@.map_values(|u: User| u@));
                        assert(s.groups_v() =~= groups@.map_values(|g: Group| g@));
                    }
                    return Err(StoreError::ConstraintViolation);
                }
                j = j + 1;
            }
            proof {
                assert forall|a: int, b: int|
                    #![trigger s.groups_v()[a], s.groups_v()[b]]
                    0 <= a < i + 1 && 0 <= b < s.groups_v().len() && a != b implies s.groups_v()[
                    a].id != s.groups_v()[b].id && s.groups_v()[a].group_name
                    != s.groups_v()[b].group_name by {}
            }
            i = i + 1;
        }
        proof {
            assert(s.users_v() =~= users@.map_values(|u: User| u@));
            assert(s.groups_v() =~= groups@.map_values(|g: Group| g@));
            assert(s.memberships_v() =~= memberships@.map_values(|m: UserGroupMembership| m@));
        }
        Ok(s)
    }

    /// All stored user records, in storage order.
    pub fn get_users(&self) -> (r: Vec<User>)
        ensures
            r@.len() == self.users_v().len(),
            forall|k: int| 0 <= k < r@.len() ==> (#[trigger] r@[k])@ == self.users_v()[k],
    {
        let mut out: Vec<User> = Vec::new();
        let mut i: usize = 0;
        while i < self.users.len()
            invariant
                i <= self.users.len(),
                out@.len() == i,
                forall|k: int| 0 <= k < i ==> (#[trigger] out@[k])@ == self.users_v()[k],
            decreases self.users.len() - i,
        {
            out.push(self.users[i].duplicate());
            i = i + 1;
        }
        out
    }

    /// All stored group records, in storage order.
    pub fn get_groups(&self) -> (r: Vec<Group>)
        ensures
            r@.len() == self.groups_v().len(),
            forall|k: int| 0 <= k < r@.len() ==> (#[trigger] r@[k])@ == self.groups_v()[k],
    {
        let mut out: Vec<Group> = Vec::new();
        let mut i: usize = 0;
        while i < self.groups.len()
            invariant
                i <= self.groups.len(),
                out@.len() == i,
                forall|k: int| 0 <= k < i ==> (#[trigger] out@[k])@ == self.groups_v()[k],
            decreases self.groups.len() - i,
        {
            out.push(self.groups[i].duplicate());
            i = i + 1;
        }
        out
    }

    /// The stored user with this identity number, if any.
    pub fn find_user_by_id(&self, id: i64) -> (r: Option<User>)
        ensures
            match r {
                Some(u) => u@.id == id && exists|i: int|
                    0 <= i < self.users_v().len() && #[trigger] self.users_v()[i] == u@,
                None => !self.has_user_id(id as int),
            },
    {
        let mut i: usize = 0;
        while i < self.users.len()
            invariant
                i <= self.users.len(),
                forall|k: int| 0 <= k < i ==> (#[trigger] self.users_v()[k]).id != id,
            decreases self.users.len() - i,
        {
            if self.users[i].id == id {
                let u = self.users[i].duplicate();
                proof {
                    assert(self.users_v()[i as int] == u@);
                }
                return Some(u);
            }
            i = i + 1;
        }
        None
    }

    /// The stored user with this login name, if any.
    pub fn find_user_by_name(&self, name: &String) -> (r: Option<User>)
        ensures
            match r {
                Some(u) => u@.user_name == name@ && exists|i: int|
                    0 <= i < self.users_v().len() && #[trigger] self.users_v()[i] == u@,
                None => !self.has_user_name(name@),
            },
    {
        let mut i: usize = 0;
        while i < self.users.len()
            invariant
                i <= self.users.len(),
                forall|k: int| 0 <= k < i ==> (#[trigger] self.users_v()[k]).user_name != name@,
            decreases self.users.len() - i,
        {
            if self.users[i].user_name == *name {
                let u = self.users[i].duplicate();
                proof {
                    assert(self.users_v()[i as int] == u@);
                }
                return Some(u);
            }
            i = i + 1;
        }
        None
    }

    /// The stored group with this identity number, if any.
    pub fn find_group_by_id(&self, id: i64) -> (r: Option<Group>)
        ensures
            match r {
                Some(g) => g@.id == id && exists|i: int|
                    0 <= i < self.groups_v().len() && #[trigger] self.groups_v()[i] == g@,
                None => !self.has_group_id(id as int),
            },
    {
        let mut i: usize = 0;
        while i < self.groups.len()
            invariant
                i <= self.groups.len(),
                forall|k: int| 0 <= k < i ==> (#[trigger] self.groups_v()[k]).id != id,
            decreases self.groups.len() - i,
        {
            if self.groups[i].id == id {
                let g = self.groups[i].duplicate();
                proof {
                    assert(self.groups_v()[i as int] == g@);
                }
                return Some(g);
            }
            i = i + 1;
        }
        None
    }

    /// The stored group with this name, if any.
    pub fn find_group_by_name(&self, name: &String) -> (r: Option<Group>)
        ensures
            match r {
                Some(g) => g@.group_name == name@ && exists|i: int|
                    0 <= i < self.groups_v().len() && #[trigger] self.groups_v()[i] == g@,
                None => !self.has_group_name(name@),
            },
    {
        let mut i: usize = 0;
        while i < self.groups.len()
            invariant
                i <= self.groups.len(),
                forall|k: int| 0 <= k < i ==> (#[trigger] self.groups_v()[k]).group_name != name@,
            decreases self.groups.len() - i,
        {
            if self.groups[i].group_name == *name {
                let g = self.groups[i].duplicate();
                proof {
                    assert(self.groups_v()[i as int] == g@);
                }
                return Some(g);
            }
            i = i + 1;
        }
        None
    }

    /// The greatest stored user identity number, or `None` on an empty
    /// store.
    pub fn max_user_id(&self) -> (r: Option<i64>)
        ensures
            match r {
                Some(m) => self.has_user_id(m as int) && forall|i: int|
                    0 <= i < self.users_v().len() ==> (#[trigger] self.users_v()[i]).id <= m,
                None => self.users_v().len() == 0,
            },
    {
        let mut i: usize = 0;
        let mut best: Option<i64> = None;
        while i < self.users.len()
            invariant
                i <= self.users.len(),
                match best {
                    Some(m) => self.has_user_id(m as int) && forall|k: int|
                        0 <= k < i ==> (#[trigger] self.users_v()[k]).id <= m,
                    None => i == 0,
                },
            decreases self.users.len() - i,
        {
            let id = self.users[i].id;
            proof {
                assert(self.users_v()[i as int].id == id as int);
            }
            best = match best {
                Some(m) => if id > m {
                    Some(id)
                } else {
                    Some(m)
                },
                None => Some(id),
            };
            i = i + 1;
        }
        best
    }

    /// The greatest stored group identity number, or `None` on an empty
    /// store.
    pub fn max_group_id(&self) -> (r: Option<i64>)
        ensures
            match r {
                Some(m) => self.has_group_id(m as int) && forall|i: int|
                    0 <= i < self.groups_v().len() ==> (#[trigger] self.groups_v()[i]).id <= m,
                None => self.groups_v().len() == 0,
            },
    {
        let mut i: usize = 0;
        let mut best: Option<i64> = None;
        while i < self.groups.len()
            invariant
                i <= self.groups.len(),
                match best {
                    Some(m) => self.has_group_id(m as int) && forall|k: int|
                        0 <= k < i ==> (#[trigger] self.groups_v()[k]).id <= m,
                    None => i == 0,
                },
            decreases self.groups.len() - i,
        {
            let id = self.groups[i].id;
            proof {
                assert(self.groups_v()[i as int].id == id as int);
            }
            best = match best {
                Some(m) => if id > m {
                    Some(id)
                } else {
                    Some(m)
                },
                None => Some(id),
            };
            i = i + 1;
        }
        best
    }

    /// Whether a user and group pair may be inserted without breaking the
    /// invariants.
    pub open spec fn can_insert(self, user: UserV, group: GroupV) -> bool {
        &&& user.id >= 1
        &&& group.id >= 1
        &&& !self.has_user_id(user.id)
        &&& !self.has_user_name(user.user_name)
        &&& !self.has_group_id(group.id)
        &&& !self.has_group_name(group.group_name)
    }

    /// Inserts a guest user together with its group, as a single unit:
    /// either both records are stored or neither is.
    pub fn insert_guest_account(&mut self, user: User, group: Group) -> (r: Result<
        (),
        StoreError,
    >)
        requires
            old(self).wf(),
        ensures
            final(self).wf(),
            match r {
                Ok(()) => old(self).can_insert(user@, group@) && final(self).users_v() == old(
                    self,
                ).users_v().push(user@) && final(self).groups_v() == old(self).groups_v().push(
                    group@,
                ) && final(self).memberships_v() == old(self).memberships_v(),
                Err(StoreError::ConstraintViolation) => !old(self).can_insert(user@, group@)
                    && *final(self) == *old(self),
            },
    {
        if user.id < 1 || group.id < 1 {
            return Err(StoreError::ConstraintViolation);
        }
        if self.find_user_by_id(user.id).is_some() {
            return Err(StoreError::ConstraintViolation);
        }
        if self.find_user_by_name(&user.user_name).is_some() {
            return Err(StoreError::ConstraintViolation);
        }
        if self.find_group_by_id(group.id).is_some() {
            return Err(StoreError::ConstraintViolation);
        }
        if self.find_group_by_name(&group.group_name).is_some() {
            return Err(StoreError::ConstraintViolation);
        }
        let ghost pre = *self;
        self.users.push(user);
        self.groups.push(group);
        proof {
            assert(self.users_v() =~= pre.users_v().push(self.users@.last()@));
            assert(self.groups_v() =~= pre.groups_v().push(self.groups@.last()@));
            assert forall|i: int, j: int|
                #![trigger self.users_v()[i], self.users_v()[j]]
                0 <= i < self.users_v().len() && 0 <= j < self.users_v().len() && i
                    != j implies self.users_v()[i].id != self.users_v()[j].id
                && self.users_v()[i].user_name != self.users_v()[j].user_name by {
                if i < pre.users_v().len() && j < pre.users_v().len() {
                    assert(pre.users_v()[i] == self.users_v()[i]);
                    assert(pre.users_v()[j] == self.users_v()[j]);
                }
            }
            assert forall|i: int, j: int|
                #![trigger self.groups_v()[i], self.groups_v()[j]]
                0 <= i < self.groups_v().len() && 0 <= j < self.groups_v().len() && i
                    != j implies self.groups_v()[i].id != self.groups_v()[j].id
                && self.groups_v()[i].group_name != self.groups_v()[j].group_name by {
                if i < pre.groups_v().len() && j < pre.groups_v().len() {
                    assert(pre.groups_v()[i] == self.groups_v()[i]);
                    assert(pre.groups_v()[j] == self.groups_v()[j]);
                }
            }
        }
        Ok(())
    }

    /// The returned pairs all belong to the given group: each pair holds a
    /// stored membership of the group together with the stored member user.
    pub open spec fn sound_group_pairs(
        self,
        g: GroupV,
        pairs: Seq<(UserGroupMembership, User)>,
    ) -> bool {
        forall|k: int|
            0 <= k < pairs.len() ==> {
                &&& (#[trigger] pairs[k])._0_v().group_id == g.id
                &&& pairs[k]._1_v().id == pairs[k]._0_v().user_id
                &&& exists|t: int|
                    0 <= t < self.memberships_v().len() && #[trigger] self.memberships_v()[t]
                        == pairs[k]._0_v()
                &&& exists|t: int|
                    0 <= t < self.users_v().len() && #[trigger] self.users_v()[t]
                        == pairs[k]._1_v()
            }
    }

    /// Among the first `n` stored memberships, every one that belongs to
    /// the given group and has a stored member user appears in the pairs.
    pub open spec fn complete_group_pairs(
        self,
        g: GroupV,
        n: int,
        pairs: Seq<(UserGroupMembership, User)>,
    ) -> bool {
        forall|t: int, j: int|
            0 <= t < n && 0 <= j < self.users_v().len() && (
            #[trigger] self.memberships_v()[t]).group_id == g.id && (
            #[trigger] self.users_v()[j]).user_id_matches(self.memberships_v()[t])
                ==> exists|k: int|
                    0 <= k < pairs.len() && (#[trigger] pairs[k])._0_v()
                        == self.memberships_v()[t] && pairs[k]._1_v() == self.users_v()[j]
    }

    /// Every membership of the given group, paired with the member user.
    pub fn find_users_for_group(&self, match_group: &Group) -> (r: Vec<
        (UserGroupMembership, User),
    >)
        requires
            self.wf(),
        ensures
            self.sound_group_pairs(match_group@, r@),
            self.complete_group_pairs(match_group@, self.memberships_v().len() as int, r@),
    {
        let mut out: Vec<(UserGroupMembership, User)> = Vec::new();
        let mut i: usize = 0;
        while i < self.memberships.len()
            invariant
                self.wf(),
                i <= self.memberships.len(),
                self.sound_group_pairs(match_group@, out@),
                self.complete_group_pairs(match_group@, i as int, out@),
            decreases self.memberships.len() - i,
        {
            let ghost pre = out@;
            if self.memberships[i].group_id == match_group.id {
                match self.find_user_by_id(self.memberships[i].user_id) {
                    Some(u) => {
                        let m = self.memberships[i].duplicate();
                        proof {
                            assert(self.memberships_v()[i as int] == m@);
                        }
                        out.push((m, u));
                        proof {
                            assert forall|k: int| 0 <= k < out@.len() implies {
                                &&& (#[trigger] out@[k])._0_v().group_id == match_group@.id
                                &&& out@[k]._1_v().id == out@[k]._0_v().user_id
                                &&& exists|t: int|
                                    0 <= t < self.memberships_v().len()
                                        && #[trigger] self.memberships_v()[t] == out@[k]._0_v()
                                &&& exists|t: int|
                                    0 <= t < self.users_v().len() && #[trigger] self.users_v()[t]
                                        == out@[k]._1_v()
                            } by {
                                if k < pre.len() {
                                    assert(pre[k]._0_v().group_id == match_group@.id);
                                    assert(out@[k] == pre[k]);
                                } else {
                                    assert(out@[k] == (m, u));
                                    assert(self.memberships_v()[i as int] == m@);
                                }
                            }
                            assert forall|j: int|
                                0 <= j < self.users_v().len() && (
                                #[trigger] self.users_v()[j]).user_id_matches(
                                    self.memberships_v()[i as int],
                                ) implies self.users_v()[j] == u@ by {
                                let w = choose|t: int|
                                    0 <= t < self.users_v().len() && #[trigger] self.users_v()[t]
                                        == u@;
                                assert(self.users_v()[w].id == u@.id);
                            }
                            assert(out@[pre.len() as int] == (m, u));
                        }
                    },
                    None => {
                    },
                }
            }
            i = i + 1;
            proof {
                assert forall|t: int, j: int|
                    0 <= t < i && 0 <= j < self.users_v().len() && (
                    #[trigger] self.memberships_v()[t]).group_id == match_group@.id && (
                    #[trigger] self.users_v()[j]).user_id_matches(self.memberships_v()[t])
                        implies exists|k: int|
                        0 <= k < out@.len() && (#[trigger] out@[k])._0_v()
                            == self.memberships_v()[t] && out@[k]._1_v()
                            == self.users_v()[j] by {
                    if t < i - 1 {
                        let k = choose|k: int|
                            0 <= k < pre.len() && (#[trigger] pre[k])._0_v()
                                == self.memberships_v()[t] && pre[k]._1_v() == self.users_v()[j];
                        assert(out@[k] == pre[k]);
                        assert(out@[k]._0_v() == self.memberships_v()[t]);
                    } else {
                        assert(out@[out@.len() - 1]._0_v() == self.memberships_v()[t]);
                    }
                }
            }
        }
        out
    }
}

impl UserV {
    /// Whether this user is the member a membership record points at.
    pub open spec fn user_id_matches(self, m: MembershipV) -> bool {
        self.id == m.user_id
    }
}

/// The membership half of a returned pair, as a mathematical value.
pub trait PairViews {
    /// View of the membership component.
    spec fn _0_v(self) -> MembershipV;

    /// View of the user component.
    spec fn _1_v(self) -> UserV;
}

impl PairViews for (UserGroupMembership, User) {
    open spec fn _0_v(self) -> MembershipV {
        self.0@
    }

    open spec fn _1_v(self) -> UserV {
        self.1@
    }
}

} // verus!
