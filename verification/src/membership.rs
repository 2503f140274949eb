//! Mutations of the role and group state. Role membership and group
//! membership are separate relations that must move together: holding a role
//! makes the user a member of the role's backing group, so every operation
//! here writes both relations in one step — there is no path on which only
//! one of the two writes happens. Membership writes are idempotent: adding a
//! row that is already present leaves a single copy.

use vstd::prelude::*;

use crate::grants::{GroupKind, GroupRow, Permission, ResourceCreateError, RoleRow, UserGroup,
    UserRole};
use crate::ops::{Operations, CREATE_MASK};
use crate::resources::Type;
use crate::store::Store;

verus! {

/// Pushing a value extends the members of a sequence by exactly that value.
pub proof fn lemma_push_contains<T>(s: Seq<T>, v: T)
    ensures
        forall|x: T| #[trigger] s.push(v).contains(x) <==> (s.contains(x) || x == v),
{
    assert forall|x: T| #[trigger] s.push(v).contains(x) implies (s.contains(x) || x == v) by {
        let k = choose|k: int| 0 <= k < s.push(v).len() && s.push(v)[k] == x;
        if k < s.len() {
            assert(s[k] == x);
        }
    }
    assert forall|x: T| (s.contains(x) || x == v) implies #[trigger] s.push(v).contains(x) by {
        if s.contains(x) {
            let k = choose|k: int| 0 <= k < s.len() && s[k] == x;
            assert(s.push(v)[k] == x);
        } else {
            assert(s.push(v)[s.len() as int] == x);
        }
    }
}

/// Removing position `i` from a duplicate-free sequence removes exactly the
/// value at that position from the members, and keeps the rest
/// duplicate-free.
pub proof fn lemma_remove_contains<T>(s: Seq<T>, i: int)
    requires
        0 <= i < s.len(),
        forall|a: int, b: int| 0 <= a < b < s.len() ==> s[a] != s[b],
    ensures
        forall|x: T| #[trigger] s.remove(i).contains(x) <==> (s.contains(x) && x != s[i]),
        forall|a: int, b: int| 0 <= a < b < s.remove(i).len() ==> s.remove(i)[a] != s.remove(i)[b],
{
    s.remove_ensures(i);
    assert forall|x: T| #[trigger] s.remove(i).contains(x) implies (s.contains(x) && x != s[i]) by {
        let k = choose|k: int| 0 <= k < s.remove(i).len() && s.remove(i)[k] == x;
        if k < i {
            assert(s[k] == x);
        } else {
            assert(s[k + 1] == x);
        }
    }
    assert forall|x: T| (s.contains(x) && x != s[i]) implies #[trigger] s.remove(i).contains(x) by {
        let k = choose|k: int| 0 <= k < s.len() && s[k] == x;
        if k < i {
            assert(s.remove(i)[k] == x);
        } else {
            assert(k > i);
            assert(s.remove(i)[k - 1] == x);
        }
    }
}

impl Store {
    /// Adds a `user_has_role` row unless it is already present.
    fn insert_user_role(&mut self, user_id: i64, role_id: i64)
        requires
            old(self).wf(),
        ensures
            final(self).wf(),
            forall|ur: UserRole| #[trigger]
                final(self).user_has_role@.contains(ur) <==> (old(self).user_has_role@.contains(ur)
                    || ur == (UserRole { user_id, role_id })),
            final(self).user_in_group@ == old(self).user_in_group@,
            final(self).same_grants(*old(self)),
            final(self).same_catalog(*old(self)),
            old(self).spec_has_role(user_id, role_id) ==> *final(self) == *old(self),
    {
        let row = UserRole { user_id, role_id };
        if !self.has_role(user_id, role_id) {
            let ghost pre = self.user_has_role@;
            self.user_has_role.push(row);
            proof {
                lemma_push_contains(pre, row);
                assert forall|a: int, b: int|
                    0 <= a < b < self.user_has_role@.len() implies self.user_has_role@[a]
                    != self.user_has_role@[b] by {
                    if b < pre.len() {
                    } else {
                        assert(self.user_has_role@[b] == row);
                        assert(pre[a] == self.user_has_role@[a]);
                        assert(pre.contains(pre[a]));
                    }
                }
            }
        }
    }

    /// Adds a `user_in_group` row unless it is already present.
    fn insert_user_group(&mut self, user_id: i64, group_id: i64)
        requires
            old(self).wf(),
        ensures
            final(self).wf(),
            forall|ug: UserGroup| #[trigger]
                final(self).user_in_group@.contains(ug) <==> (old(self).user_in_group@.contains(ug)
                    || ug == (UserGroup { user_id, group_id })),
            final(self).user_has_role@ == old(self).user_has_role@,
            final(self).same_grants(*old(self)),
            final(self).same_catalog(*old(self)),
            old(self).spec_in_group(user_id, group_id) ==> *final(self) == *old(self),
    {
        let row = UserGroup { user_id, group_id };
        if !self.in_group(user_id, group_id) {
            let ghost pre = self.user_in_group@;
            self.user_in_group.push(row);
            proof {
                lemma_push_contains(pre, row);
                assert forall|a: int, b: int|
                    0 <= a < b < self.user_in_group@.len() implies self.user_in_group@[a]
                    != self.user_in_group@[b] by {
                    if b < pre.len() {
                    } else {
                        assert(self.user_in_group@[b] == row);
                        assert(pre[a] == self.user_in_group@[a]);
                        assert(pre.contains(pre[a]));
                    }
                }
            }
        }
    }

    /// Removes the `user_has_role` row if it is present.
    fn remove_user_role(&mut self, user_id: i64, role_id: i64)
        requires
            old(self).wf(),
        ensures
            final(self).wf(),
            forall|ur: UserRole| #[trigger]
                final(self).user_has_role@.contains(ur) <==> (old(self).user_has_role@.contains(ur)
                    && ur != (UserRole { user_id, role_id })),
            final(self).user_in_group@ == old(self).user_in_group@,
            final(self).same_grants(*old(self)),
            final(self).same_catalog(*old(self)),
    {
        let row = UserRole { user_id, role_id };
        let mut i: usize = 0;
        while i < self.user_has_role.len()
            invariant
                0 <= i <= self.user_has_role@.len(),
                self == old(self),
                self.wf(),
                row == (UserRole { user_id, role_id }),
                forall|j: int| 0 <= j < i ==> self.user_has_role@[j] != row,
            decreases self.user_has_role@.len() - i,
        {
            if self.user_has_role[i] == row {
                let ghost pre = self.user_has_role@;
                self.user_has_role.remove(i);
                proof {
                    lemma_remove_contains(pre, i as int);
                    assert(pre[i as int] == row);
                }
                return ;
            }
            i += 1;
        }
        assert(!self.user_has_role@.contains(row));
    }

    /// Removes the `user_in_group` row if it is present.
    fn remove_user_group(&mut self, user_id: i64, group_id: i64)
        requires
            old(self).wf(),
        ensures
            final(self).wf(),
            forall|ug: UserGroup| #[trigger]
                final(self).user_in_group@.contains(ug) <==> (old(self).user_in_group@.contains(ug)
                    && ug != (UserGroup { user_id, group_id })),
            final(self).user_has_role@ == old(self).user_has_role@,
            final(self).same_grants(*old(self)),
            final(self).same_catalog(*old(self)),
    {
        let row = UserGroup { user_id, group_id };
        let mut i: usize = 0;
        while i < self.user_in_group.len()
            invariant
                0 <= i <= self.user_in_group@.len(),
                self == old(self),
                self.wf(),
                row == (UserGroup { user_id, group_id }),
                forall|j: int| 0 <= j < i ==> self.user_in_group@[j] != row,
            decreases self.user_in_group@.len() - i,
        {
            if self.user_in_group[i] == row {
                let ghost pre = self.user_in_group@;
                self.user_in_group.remove(i);
                proof {
                    lemma_remove_contains(pre, i as int);
                    assert(pre[i as int] == row);
                }
                return ;
            }
            i += 1;
        }
        assert(!self.user_in_group@.contains(row));
    }

    /// Looks the role up by id: `None` when no row has the id, `Some(g)`
    /// when the role exists with backing group `g`.
    fn find_role_group(&self, role_id: i64) -> (r: Option<Option<i64>>)
        requires
            self.wf(),
        ensures
            match r {
                None => !self.spec_role_exists(role_id),
                Some(g) => self.spec_role_exists(role_id) && Some(g)
                    == Some(self.spec_role_group(role_id)),
            },
    {
        let mut i: usize = 0;
        while i < self.roles.len()
            invariant
                0 <= i <= self.roles@.len(),
                self.wf(),
                forall|j: int| 0 <= j < i ==> (#[trigger] self.roles@[j]).role_id != role_id,
            decreases self.roles@.len() - i,
        {
            if self.roles[i].role_id == role_id {
                proof {
                    assert(self.roles@[i as int].role_id == role_id);
                    let k = choose|k: int|
                        0 <= k < self.roles@.len() && (#[trigger] self.roles@[k]).role_id
                            == role_id;
                    if k != i as int {
                        assert(false);
                    }
                }
                return Some(self.roles[i].group);
            }
            i += 1;
        }
        None
    }


    /// Assigns one role: adds the `user_has_role` row and the membership in
    /// the role's backing group, in one step. Fails, leaving the store
    /// unchanged, when no role row has the id or the role has no backing
    /// group. Assigning a role the user already holds changes nothing: the
    /// user ends up with a single copy of each row.
    pub fn assign_role(&mut self, user_id: i64, role_id: i64) -> (r: Result<
        (),
        ResourceCreateError,
    >)
        requires
            old(self).wf(),
        ensures
            final(self).wf(),
            final(self).same_grants(*old(self)),
            final(self).same_catalog(*old(self)),
            r is Err ==> *final(self) == *old(self) && r == Err::<(), ResourceCreateError>(
                ResourceCreateError::Store,
            ),
            r is Ok <==> old(self).spec_role_exists(role_id) && old(self).spec_role_group(role_id)
                is Some,
            r is Ok ==> forall|ur: UserRole| #[trigger]
                final(self).user_has_role@.contains(ur) <==> (old(self).user_has_role@.contains(ur)
                    || ur == (UserRole { user_id, role_id })),
            r is Ok ==> forall|ug: UserGroup| #[trigger]
                final(self).user_in_group@.contains(ug) <==> (old(self).user_in_group@.contains(ug)
                    || (ug.user_id == user_id && Some(ug.group_id) == old(self).spec_role_group(
                    role_id,
                ))),
            old(self).spec_has_role(user_id, role_id) && (forall|g: i64|
                old(self).spec_role_group(role_id) == Some(g) ==> old(self).spec_in_group(
                    user_id,
                    g,
                )) ==> *final(self) == *old(self),
    {
        match self.find_role_group(role_id) {
            None => Err(ResourceCreateError::Store),
            Some(None) => Err(ResourceCreateError::Store),
            Some(Some(g)) => {
                self.insert_user_role(user_id, role_id);
                self.insert_user_group(user_id, g);
                Ok(())
            },
        }
    }

    /// Unassigns one role: removes the `user_has_role` row and the
    /// membership in the role's backing group, in one step. Removing a role
    /// the user does not hold changes nothing; a role id with no row only
    /// has no backing group to resolve, so only the `user_has_role` side
    /// could have a row to lose.
    pub fn unassign_role(&mut self, user_id: i64, role_id: i64)
        requires
            old(self).wf(),
        ensures
            final(self).wf(),
            final(self).same_grants(*old(self)),
            final(self).same_catalog(*old(self)),
            forall|ur: UserRole| #[trigger]
                final(self).user_has_role@.contains(ur) <==> (old(self).user_has_role@.contains(ur)
                    && ur != (UserRole { user_id, role_id })),
            forall|ug: UserGroup| #[trigger]
                final(self).user_in_group@.contains(ug) <==> (old(self).user_in_group@.contains(ug)
                    && !(ug.user_id == user_id && Some(ug.group_id) == old(self).spec_role_group(
                    role_id,
                ))),
    {
        let found = self.find_role_group(role_id);
        self.remove_user_role(user_id, role_id);
        if let Some(Some(g)) = found {
            self.remove_user_group(user_id, g);
        }
    }

    /// Assigns a set of roles in one step: every `user_has_role` row and
    /// every backing-group membership, or, when any of the roles cannot be
    /// resolved, none of them. An empty set is malformed.
    pub fn assign_roles(&mut self, user_id: i64, role_ids: &Vec<i64>) -> (r: Result<
        (),
        ResourceCreateError,
    >)
        requires
            old(self).wf(),
        ensures
            final(self).wf(),
            final(self).same_grants(*old(self)),
            final(self).same_catalog(*old(self)),
            r is Err ==> *final(self) == *old(self),
            r == Err::<(), ResourceCreateError>(ResourceCreateError::BadParam) <==> role_ids@.len()
                == 0,
            r is Ok <==> role_ids@.len() > 0 && forall|k: int|
                0 <= k < role_ids@.len() ==> old(self).spec_role_exists(#[trigger] role_ids@[k])
                    && old(self).spec_role_group(role_ids@[k]) is Some,
            r is Err && role_ids@.len() > 0 ==> r == Err::<(), ResourceCreateError>(
                ResourceCreateError::Store,
            ),
            r is Ok ==> forall|ur: UserRole| #[trigger]
                final(self).user_has_role@.contains(ur) <==> (old(self).user_has_role@.contains(ur)
                    || (ur.user_id == user_id && role_ids@.contains(ur.role_id))),
            r is Ok ==> forall|ug: UserGroup| #[trigger]
                final(self).user_in_group@.contains(ug) <==> (old(self).user_in_group@.contains(ug)
                    || (ug.user_id == user_id && exists|k: int|
                    0 <= k < role_ids@.len() && Some(ug.group_id) == old(self).spec_role_group(
                        #[trigger] role_ids@[k],
                    ))),
            (forall|k: int|
                0 <= k < role_ids@.len() ==> old(self).spec_has_role(
                    user_id,
                    #[trigger] role_ids@[k],
                ) && (forall|g: i64|
                    old(self).spec_role_group(role_ids@[k]) == Some(g) ==> old(self).spec_in_group(
                        user_id,
                        g,
                    ))) ==> *final(self) == *old(self),
    {
        if role_ids.len() == 0 {
            return Err(ResourceCreateError::BadParam);
        }
        let mut v: usize = 0;
        while v < role_ids.len()
            invariant
                0 <= v <= role_ids@.len(),
                self == old(self),
                self.wf(),
                forall|k: int|
                    0 <= k < v ==> self.spec_role_exists(#[trigger] role_ids@[k])
                        && self.spec_role_group(role_ids@[k]) is Some,
            decreases role_ids@.len() - v,
        {
            match self.find_role_group(role_ids[v]) {
                Some(Some(_)) => {},
                _ => {
                    return Err(ResourceCreateError::Store);
                },
            }
            v += 1;
        }
        let mut i: usize = 0;
        while i < role_ids.len()
            invariant
                0 <= i <= role_ids@.len(),
                self.wf(),
                self.same_grants(*old(self)),
                self.same_catalog(*old(self)),
                forall|k: int|
                    0 <= k < role_ids@.len() ==> old(self).spec_role_exists(
                        #[trigger] role_ids@[k],
                    ) && old(self).spec_role_group(role_ids@[k]) is Some,
                forall|ur: UserRole| #[trigger]
                    self.user_has_role@.contains(ur) <==> (old(self).user_has_role@.contains(ur)
                        || (ur.user_id == user_id && exists|k: int|
                        0 <= k < i && ur.role_id == #[trigger] role_ids@[k])),
                forall|ug: UserGroup| #[trigger]
                    self.user_in_group@.contains(ug) <==> (old(self).user_in_group@.contains(ug)
                        || (ug.user_id == user_id && exists|k: int|
                        0 <= k < i && Some(ug.group_id) == old(self).spec_role_group(
                            #[trigger] role_ids@[k],
                        ))),
                (forall|k: int|
                    0 <= k < role_ids@.len() ==> old(self).spec_has_role(
                        user_id,
                        #[trigger] role_ids@[k],
                    ) && (forall|g: i64|
                        old(self).spec_role_group(role_ids@[k]) == Some(g) ==> old(
                            self,
                        ).spec_in_group(user_id, g))) ==> *self == *old(self),
            decreases role_ids@.len() - i,
        {
            let ghost all_held = forall|k: int|
                0 <= k < role_ids@.len() ==> old(self).spec_has_role(
                    user_id,
                    #[trigger] role_ids@[k],
                ) && (forall|g: i64|
                    old(self).spec_role_group(role_ids@[k]) == Some(g) ==> old(self).spec_in_group(
                        user_id,
                        g,
                    ));
            proof {
                assert(old(self).spec_role_exists(role_ids@[i as int]));
                assert(self.roles@ == old(self).roles@);
                assert(self.spec_role_exists(role_ids@[i as int]));
                assert(self.spec_role_group(role_ids@[i as int]) == old(self).spec_role_group(
                    role_ids@[i as int],
                ));
            }
            let ghost mid = *self;
            let res = self.assign_role(user_id, role_ids[i]);
            proof {
                assert(res is Ok);
                if all_held {
                    assert(mid == *old(self));
                    assert(mid.spec_has_role(user_id, role_ids@[i as int]));
                    assert(forall|g: i64|
                        mid.spec_role_group(role_ids@[i as int]) == Some(g)
                            ==> mid.spec_in_group(user_id, g));
                    assert(*self == *old(self));
                }
                assert forall|ur: UserRole| #[trigger]
                    self.user_has_role@.contains(ur) implies (old(
                    self,
                ).user_has_role@.contains(ur) || (ur.user_id == user_id && exists|k: int|
                    0 <= k < i + 1 && ur.role_id == #[trigger] role_ids@[k])) by {
                    if mid.user_has_role@.contains(ur) {
                    } else {
                        assert(ur == (UserRole { user_id, role_id: role_ids@[i as int] }));
                        assert(ur.role_id == role_ids@[i as int]);
                    }
                }
                assert forall|ur: UserRole|
                    (old(self).user_has_role@.contains(ur) || (ur.user_id == user_id && exists|
                        k: int,
                    | 0 <= k < i + 1 && ur.role_id == #[trigger] role_ids@[k])) implies #[trigger]
                    self.user_has_role@.contains(ur) by {}
                assert forall|ug: UserGroup| #[trigger]
                    self.user_in_group@.contains(ug) implies (old(
                    self,
                ).user_in_group@.contains(ug) || (ug.user_id == user_id && exists|k: int|
                    0 <= k < i + 1 && Some(ug.group_id) == old(self).spec_role_group(
                        #[trigger] role_ids@[k],
                    ))) by {
                    if mid.user_in_group@.contains(ug) {
                    } else {
                        assert(Some(ug.group_id) == mid.spec_role_group(role_ids@[i as int]));
                        assert(mid.spec_role_group(role_ids@[i as int]) == old(
                            self,
                        ).spec_role_group(role_ids@[i as int]));
                    }
                }
                assert forall|ug: UserGroup|
                    (old(self).user_in_group@.contains(ug) || (ug.user_id == user_id && exists|
                        k: int,
                    | 0 <= k < i + 1 && Some(ug.group_id) == old(self).spec_role_group(
                        #[trigger] role_ids@[k],
                    ))) implies #[trigger] self.user_in_group@.contains(ug) by {
                    if !old(self).user_in_group@.contains(ug) {
                        let k = choose|k: int|
                            0 <= k < i + 1 && Some(ug.group_id) == old(self).spec_role_group(
                                #[trigger] role_ids@[k],
                            );
                        if k < i {
                            assert(mid.user_in_group@.contains(ug));
                        } else {
                            assert(Some(ug.group_id) == mid.spec_role_group(role_ids@[i as int]));
                        }
                    }
                }
            }
            i += 1;
        }
        proof {
            assert forall|ur: UserRole| #[trigger]
                self.user_has_role@.contains(ur) <==> (old(self).user_has_role@.contains(ur) || (
            ur.user_id == user_id && role_ids@.contains(ur.role_id))) by {}
        }
        Ok(())
    }

    /// Unassigns a set of roles in one step: for every given role, the
    /// `user_has_role` row and the backing-group membership both go; roles
    /// that do not resolve, or that the user does not hold, change nothing.
    pub fn unassign_roles(&mut self, user_id: i64, role_ids: &Vec<i64>)
        requires
            old(self).wf(),
        ensures
            final(self).wf(),
            final(self).same_grants(*old(self)),
            final(self).same_catalog(*old(self)),
            forall|ur: UserRole| #[trigger]
                final(self).user_has_role@.contains(ur) <==> (old(self).user_has_role@.contains(ur)
                    && !(ur.user_id == user_id && role_ids@.contains(ur.role_id))),
            forall|ug: UserGroup| #[trigger]
                final(self).user_in_group@.contains(ug) <==> (old(self).user_in_group@.contains(ug)
                    && !(ug.user_id == user_id && exists|k: int|
                    0 <= k < role_ids@.len() && Some(ug.group_id) == old(self).spec_role_group(
                        #[trigger] role_ids@[k],
                    ))),
    {
        let mut i: usize = 0;
        while i < role_ids.len()
            invariant
                0 <= i <= role_ids@.len(),
                self.wf(),
                self.same_grants(*old(self)),
                self.same_catalog(*old(self)),
                forall|ur: UserRole| #[trigger]
                    self.user_has_role@.contains(ur) <==> (old(self).user_has_role@.contains(ur)
                        && !(ur.user_id == user_id && exists|k: int|
                        0 <= k < i && ur.role_id == #[trigger] role_ids@[k])),
                forall|ug: UserGroup| #[trigger]
                    self.user_in_group@.contains(ug) <==> (old(self).user_in_group@.contains(ug)
                        && !(ug.user_id == user_id && exists|k: int|
                        0 <= k < i && Some(ug.group_id) == old(self).spec_role_group(
                            #[trigger] role_ids@[k],
                        ))),
            decreases role_ids@.len() - i,
        {
            let ghost mid = *self;
            proof {
                assert(self.roles@ == old(self).roles@);
            }
            self.unassign_role(user_id, role_ids[i]);
            proof {
                assert(mid.spec_role_group(role_ids@[i as int]) == old(self).spec_role_group(
                    role_ids@[i as int],
                ));
                assert forall|ug: UserGroup| #[trigger]
                    self.user_in_group@.contains(ug) implies (old(
                    self,
                ).user_in_group@.contains(ug) && !(ug.user_id == user_id && exists|k: int|
                    0 <= k < i + 1 && Some(ug.group_id) == old(self).spec_role_group(
                        #[trigger] role_ids@[k],
                    ))) by {
                    assert(mid.user_in_group@.contains(ug));
                    if ug.user_id == user_id {
                        assert(!(exists|k: int|
                            0 <= k < i && Some(ug.group_id) == old(self).spec_role_group(
                                #[trigger] role_ids@[k],
                            )));
                        assert(Some(ug.group_id) != mid.spec_role_group(role_ids@[i as int]));
                    }
                }
                assert forall|ug: UserGroup|
                    (old(self).user_in_group@.contains(ug) && !(ug.user_id == user_id && exists|
                        k: int,
                    | 0 <= k < i + 1 && Some(ug.group_id) == old(self).spec_role_group(
                        #[trigger] role_ids@[k],
                    ))) implies #[trigger] self.user_in_group@.contains(ug) by {
                    if ug.user_id == user_id {
                        assert forall|k: int| 0 <= k < i implies Some(ug.group_id) != old(
                            self,
                        ).spec_role_group(#[trigger] role_ids@[k]) by {}
                        assert(Some(ug.group_id) != old(self).spec_role_group(
                            role_ids@[i as int],
                        ));
                    }
                    assert(mid.user_in_group@.contains(ug));
                }
            }
            i += 1;
        }
    }


    /// Whether a role row carries the name.
    fn role_name_taken(&self, name: &String) -> (r: bool)
        ensures
            r == self.spec_role_name_taken(name@),
    {
        let mut i: usize = 0;
        while i < self.roles.len()
            invariant
                0 <= i <= self.roles@.len(),
                forall|j: int| 0 <= j < i ==> (#[trigger] self.roles@[j]).name@ != name@,
            decreases self.roles@.len() - i,
        {
            if self.roles[i].name == *name {
                assert(self.roles@[i as int].name@ == name@);
                return true;
            }
            i += 1;
        }
        false
    }

    /// Whether a group row carries the name.
    fn group_name_taken(&self, name: &String) -> (r: bool)
        ensures
            r == self.spec_group_name_taken(name@),
    {
        let mut i: usize = 0;
        while i < self.groups.len()
            invariant
                0 <= i <= self.groups@.len(),
                forall|j: int| 0 <= j < i ==> (#[trigger] self.groups@[j]).name@ != name@,
            decreases self.groups@.len() - i,
        {
            if self.groups[i].name == *name {
                assert(self.groups@[i as int].name@ == name@);
                return true;
            }
            i += 1;
        }
        false
    }

    /// The ids of the roles the user holds.
    pub fn roles_of_user(&self, user_id: i64) -> (r: Vec<i64>)
        requires
            self.wf(),
        ensures
            forall|rid: i64| #[trigger] r@.contains(rid) == self.spec_has_role(user_id, rid),
            forall|a: int, b: int| 0 <= a < b < r@.len() ==> r@[a] != r@[b],
    {
        let mut out: Vec<i64> = Vec::new();
        let mut i: usize = 0;
        while i < self.user_has_role.len()
            invariant
                0 <= i <= self.user_has_role@.len(),
                self.wf(),
                forall|a: int, b: int| 0 <= a < b < out@.len() ==> out@[a] != out@[b],
                forall|rid: i64| #[trigger]
                    out@.contains(rid) == exists|j: int|
                        0 <= j < i && #[trigger] self.user_has_role@[j] == (UserRole {
                            user_id,
                            role_id: rid,
                        }),
            decreases self.user_has_role@.len() - i,
        {
            let row = self.user_has_role[i];
            if row.user_id == user_id {
                let ghost pre = out@;
                proof {
                    if pre.contains(row.role_id) {
                        let j = choose|j: int|
                            0 <= j < i && #[trigger] self.user_has_role@[j] == (UserRole {
                                user_id,
                                role_id: row.role_id,
                            });
                        assert(self.user_has_role@[j] == self.user_has_role@[i as int]);
                        assert(false);
                    }
                }
                out.push(row.role_id);
                proof {
                    lemma_push_contains(pre, row.role_id);
                    assert(self.user_has_role@[i as int] == (UserRole {
                        user_id,
                        role_id: row.role_id,
                    }));
                    assert forall|a: int, b: int|
                        0 <= a < b < out@.len() implies out@[a] != out@[b] by {
                        if b == pre.len() {
                            assert(out@[b] == row.role_id);
                            assert(pre[a] == out@[a]);
                            assert(pre.contains(pre[a]));
                        }
                    }
                }
            }
            i += 1;
        }
        out
    }

    /// The ids of the groups the user is a member of.
    pub fn groups_of_user(&self, user_id: i64) -> (r: Vec<i64>)
        requires
            self.wf(),
        ensures
            forall|gid: i64| #[trigger] r@.contains(gid) == self.spec_in_group(user_id, gid),
            forall|a: int, b: int| 0 <= a < b < r@.len() ==> r@[a] != r@[b],
    {
        let mut out: Vec<i64> = Vec::new();
        let mut i: usize = 0;
        while i < self.user_in_group.len()
            invariant
                0 <= i <= self.user_in_group@.len(),
                self.wf(),
                forall|a: int, b: int| 0 <= a < b < out@.len() ==> out@[a] != out@[b],
                forall|gid: i64| #[trigger]
                    out@.contains(gid) == exists|j: int|
                        0 <= j < i && #[trigger] self.user_in_group@[j] == (UserGroup {
                            user_id,
                            group_id: gid,
                        }),
            decreases self.user_in_group@.len() - i,
        {
            let row = self.user_in_group[i];
            if row.user_id == user_id {
                let ghost pre = out@;
                proof {
                    if pre.contains(row.group_id) {
                        let j = choose|j: int|
                            0 <= j < i && #[trigger] self.user_in_group@[j] == (UserGroup {
                                user_id,
                                group_id: row.group_id,
                            });
                        assert(self.user_in_group@[j] == self.user_in_group@[i as int]);
                        assert(false);
                    }
                }
                out.push(row.group_id);
                proof {
                    lemma_push_contains(pre, row.group_id);
                    assert(self.user_in_group@[i as int] == (UserGroup {
                        user_id,
                        group_id: row.group_id,
                    }));
                    assert forall|a: int, b: int|
                        0 <= a < b < out@.len() implies out@[a] != out@[b] by {
                        if b == pre.len() {
                            assert(out@[b] == row.group_id);
                            assert(pre[a] == out@[a]);
                            assert(pre.contains(pre[a]));
                        }
                    }
                }
            }
            i += 1;
        }
        out
    }

    /// The ids of the users that hold the role.
    pub fn users_of_role(&self, role_id: i64) -> (r: Vec<i64>)
        requires
            self.wf(),
        ensures
            forall|uid: i64| #[trigger] r@.contains(uid) == self.spec_has_role(uid, role_id),
            forall|a: int, b: int| 0 <= a < b < r@.len() ==> r@[a] != r@[b],
    {
        let mut out: Vec<i64> = Vec::new();
        let mut i: usize = 0;
        while i < self.user_has_role.len()
            invariant
                0 <= i <= self.user_has_role@.len(),
                self.wf(),
                forall|a: int, b: int| 0 <= a < b < out@.len() ==> out@[a] != out@[b],
                forall|uid: i64| #[trigger]
                    out@.contains(uid) == exists|j: int|
                        0 <= j < i && #[trigger] self.user_has_role@[j] == (UserRole {
                            user_id: uid,
                            role_id,
                        }),
            decreases self.user_has_role@.len() - i,
        {
            let row = self.user_has_role[i];
            if row.role_id == role_id {
                let ghost pre = out@;
                proof {
                    if pre.contains(row.user_id) {
                        let j = choose|j: int|
                            0 <= j < i && #[trigger] self.user_has_role@[j] == (UserRole {
                                user_id: row.user_id,
                                role_id,
                            });
                        assert(self.user_has_role@[j] == self.user_has_role@[i as int]);
                        assert(false);
                    }
                }
                out.push(row.user_id);
                proof {
                    lemma_push_contains(pre, row.user_id);
                    assert(self.user_has_role@[i as int] == (UserRole {
                        user_id: row.user_id,
                        role_id,
                    }));
                    assert forall|a: int, b: int|
                        0 <= a < b < out@.len() implies out@[a] != out@[b] by {
                        if b == pre.len() {
                            assert(out@[b] == row.user_id);
                            assert(pre[a] == out@[a]);
                            assert(pre.contains(pre[a]));
                        }
                    }
                }
            }
            i += 1;
        }
        out
    }

    /// The ids of the users in the group.
    pub fn users_of_group(&self, group_id: i64) -> (r: Vec<i64>)
        requires
            self.wf(),
        ensures
            forall|uid: i64| #[trigger] r@.contains(uid) == self.spec_in_group(uid, group_id),
            forall|a: int, b: int| 0 <= a < b < r@.len() ==> r@[a] != r@[b],
    {
        let mut out: Vec<i64> = Vec::new();
        let mut i: usize = 0;
        while i < self.user_in_group.len()
            invariant
                0 <= i <= self.user_in_group@.len(),
                self.wf(),
                forall|a: int, b: int| 0 <= a < b < out@.len() ==> out@[a] != out@[b],
                forall|uid: i64| #[trigger]
                    out@.contains(uid) == exists|j: int|
                        0 <= j < i && #[trigger] self.user_in_group@[j] == (UserGroup {
                            user_id: uid,
                            group_id,
                        }),
            decreases self.user_in_group@.len() - i,
        {
            let row = self.user_in_group[i];
            if row.group_id == group_id {
                let ghost pre = out@;
                proof {
                    if pre.contains(row.user_id) {
                        let j = choose|j: int|
                            0 <= j < i && #[trigger] self.user_in_group@[j] == (UserGroup {
                                user_id: row.user_id,
                                group_id,
                            });
                        assert(self.user_in_group@[j] == self.user_in_group@[i as int]);
                        assert(false);
                    }
                }
                out.push(row.user_id);
                proof {
                    lemma_push_contains(pre, row.user_id);
                    assert(self.user_in_group@[i as int] == (UserGroup {
                        user_id: row.user_id,
                        group_id,
                    }));
                    assert forall|a: int, b: int|
                        0 <= a < b < out@.len() implies out@[a] != out@[b] by {
                        if b == pre.len() {
                            assert(out@[b] == row.user_id);
                            assert(pre[a] == out@[a]);
                            assert(pre.contains(pre[a]));
                        }
                    }
                }
            }
            i += 1;
        }
        out
    }

    /// Creates a role together with its backing group, in one step: the
    /// group row of kind `Role` and the role row pointing at it both appear,
    /// or, on a name collision, neither does.
    pub fn create_role(&mut self, name: String, permissions: Vec<Permission>) -> (r: Result<
        i64,
        ResourceCreateError,
    >)
        requires
            old(self).wf(),
            old(self).next_role_id < i64::MAX,
            old(self).next_group_id < i64::MAX,
        ensures
            final(self).wf(),
            final(self).same_grants(*old(self)),
            final(self).user_has_role@ == old(self).user_has_role@,
            final(self).user_in_group@ == old(self).user_in_group@,
            r is Err ==> *final(self) == *old(self) && r == Err::<i64, ResourceCreateError>(
                ResourceCreateError::Conflict,
            ),
            r is Err <==> (old(self).spec_role_name_taken(name@) || old(
                self,
            ).spec_group_name_taken(name@)),
            r matches Ok(id) ==> {
                &&& id == old(self).next_role_id
                &&& final(self).roles@.len() == old(self).roles@.len() + 1
                &&& final(self).roles@.subrange(0, old(self).roles@.len() as int) == old(
                    self,
                ).roles@
                &&& final(self).roles@.last().role_id == old(self).next_role_id
                &&& final(self).roles@.last().name@ == name@
                &&& final(self).roles@.last().permissions == permissions
                &&& final(self).roles@.last().group == Some(old(self).next_group_id)
                &&& final(self).groups@.len() == old(self).groups@.len() + 1
                &&& final(self).groups@.subrange(0, old(self).groups@.len() as int) == old(
                    self,
                ).groups@
                &&& final(self).groups@.last().group_id == old(self).next_group_id
                &&& final(self).groups@.last().name@ == name@
                &&& final(self).groups@.last().shortname@ == name@
                &&& final(self).groups@.last().kind == GroupKind::Role
                &&& final(self).groups@.last().parent is None
                &&& final(self).next_role_id == old(self).next_role_id + 1
                &&& final(self).next_group_id == old(self).next_group_id + 1
            },
    {
        if self.role_name_taken(&name) {
            return Err(ResourceCreateError::Conflict);
        }
        if self.group_name_taken(&name) {
            return Err(ResourceCreateError::Conflict);
        }
        let group_id = self.next_group_id;
        let role_id = self.next_role_id;
        let group_name = name.clone();
        let group_shortname = name.clone();
        self.groups.push(
            GroupRow {
                group_id,
                name: group_name,
                shortname: group_shortname,
                kind: GroupKind::Role,
                parent: None,
            },
        );
        self.roles.push(RoleRow { role_id, name, permissions, group: Some(group_id) });
        self.next_group_id = group_id + 1;
        self.next_role_id = role_id + 1;
        proof {
            assert(self.roles@.subrange(0, old(self).roles@.len() as int) =~= old(self).roles@);
            assert(self.groups@.subrange(0, old(self).groups@.len() as int) =~= old(self).groups@);
        }
        Ok(role_id)
    }


    /// Replaces the user's whole role set in one step: every role the user
    /// held goes, together with its backing-group membership, and the given
    /// roles are assigned in their place, each with its backing-group
    /// membership. When the set is empty or a given role cannot be
    /// resolved, nothing changes. Group memberships that did not come from a
    /// role are kept.
    pub fn replace_roles(&mut self, user_id: i64, role_ids: &Vec<i64>) -> (r: Result<
        (),
        ResourceCreateError,
    >)
        requires
            old(self).wf(),
        ensures
            final(self).wf(),
            final(self).same_grants(*old(self)),
            final(self).same_catalog(*old(self)),
            r is Err ==> *final(self) == *old(self),
            r == Err::<(), ResourceCreateError>(ResourceCreateError::BadParam) <==> role_ids@.len()
                == 0,
            r is Ok <==> role_ids@.len() > 0 && forall|k: int|
                0 <= k < role_ids@.len() ==> old(self).spec_role_exists(#[trigger] role_ids@[k])
                    && old(self).spec_role_group(role_ids@[k]) is Some,
            r is Err && role_ids@.len() > 0 ==> r == Err::<(), ResourceCreateError>(
                ResourceCreateError::Store,
            ),
            r is Ok ==> forall|ur: UserRole| #[trigger]
                final(self).user_has_role@.contains(ur) <==> ((ur.user_id != user_id && old(
                    self,
                ).user_has_role@.contains(ur)) || (ur.user_id == user_id && role_ids@.contains(
                    ur.role_id,
                ))),
            r is Ok ==> forall|ug: UserGroup| #[trigger]
                final(self).user_in_group@.contains(ug) <==> ((old(self).user_in_group@.contains(
                    ug,
                ) && !(ug.user_id == user_id && exists|rid: i64|
                    #[trigger] old(self).spec_has_role(user_id, rid) && Some(ug.group_id) == old(
                        self,
                    ).spec_role_group(rid))) || (ug.user_id == user_id && exists|k: int|
                    0 <= k < role_ids@.len() && Some(ug.group_id) == old(self).spec_role_group(
                        #[trigger] role_ids@[k],
                    ))),
    {
        if role_ids.len() == 0 {
            return Err(ResourceCreateError::BadParam);
        }
        let mut v: usize = 0;
        while v < role_ids.len()
            invariant
                0 <= v <= role_ids@.len(),
                self == old(self),
                self.wf(),
                forall|k: int|
                    0 <= k < v ==> self.spec_role_exists(#[trigger] role_ids@[k])
                        && self.spec_role_group(role_ids@[k]) is Some,
            decreases role_ids@.len() - v,
        {
            match self.find_role_group(role_ids[v]) {
                Some(Some(_)) => {},
                _ => {
                    return Err(ResourceCreateError::Store);
                },
            }
            v += 1;
        }
        let current = self.roles_of_user(user_id);
        let ghost pre = *self;
        self.unassign_roles(user_id, &current);
        let ghost mid = *self;
        proof {
            assert forall|ur: UserRole| #[trigger]
                mid.user_has_role@.contains(ur) <==> (old(self).user_has_role@.contains(ur)
                    && ur.user_id != user_id) by {
                if old(self).user_has_role@.contains(ur) && ur.user_id == user_id {
                    assert(old(self).spec_has_role(user_id, ur.role_id));
                    assert(current@.contains(ur.role_id));
                }
            }
            assert forall|k: int|
                0 <= k < role_ids@.len() implies mid.spec_role_exists(#[trigger] role_ids@[k])
                && mid.spec_role_group(role_ids@[k]) is Some by {
                assert(mid.roles@ == old(self).roles@);
            }
        }
        let res = self.assign_roles(user_id, role_ids);
        proof {
            assert(res is Ok);
            assert forall|ur: UserRole| #[trigger]
                self.user_has_role@.contains(ur) <==> ((ur.user_id != user_id && old(
                self,
            ).user_has_role@.contains(ur)) || (ur.user_id == user_id && role_ids@.contains(
                ur.role_id,
            ))) by {}
            assert forall|ug: UserGroup| #[trigger]
                self.user_in_group@.contains(ug) implies ((old(self).user_in_group@.contains(ug)
                && !(ug.user_id == user_id && exists|rid: i64|
                #[trigger] old(self).spec_has_role(user_id, rid) && Some(ug.group_id) == old(
                    self,
                ).spec_role_group(rid))) || (ug.user_id == user_id && exists|k: int|
                0 <= k < role_ids@.len() && Some(ug.group_id) == old(self).spec_role_group(
                    #[trigger] role_ids@[k],
                ))) by {
                if mid.user_in_group@.contains(ug) {
                    // a row that survived the unassignment: either not the
                    // user's, or not a membership derived from an old role
                    if ug.user_id == user_id {
                        assert(!(exists|k: int|
                            0 <= k < current@.len() && Some(ug.group_id) == pre.spec_role_group(
                                #[trigger] current@[k],
                            )));
                        assert forall|rid: i64| #[trigger]
                            old(self).spec_has_role(user_id, rid) implies Some(ug.group_id) != old(
                            self,
                        ).spec_role_group(rid) by {
                            assert(current@.contains(rid));
                            let k = choose|k: int|
                                0 <= k < current@.len() && current@[k] == rid;
                            assert(pre.spec_role_group(current@[k]) == old(self).spec_role_group(
                                rid,
                            ));
                        }
                    }
                } else {
                    let k = choose|k: int|
                        0 <= k < role_ids@.len() && Some(ug.group_id) == mid.spec_role_group(
                            #[trigger] role_ids@[k],
                        );
                    assert(mid.spec_role_group(role_ids@[k]) == old(self).spec_role_group(
                        role_ids@[k],
                    ));
                }
            }
            assert forall|ug: UserGroup|
                ((old(self).user_in_group@.contains(ug) && !(ug.user_id == user_id && exists|
                    rid: i64,
                |
                #[trigger] old(self).spec_has_role(user_id, rid) && Some(ug.group_id) == old(
                    self,
                ).spec_role_group(rid))) || (ug.user_id == user_id && exists|k: int|
                0 <= k < role_ids@.len() && Some(ug.group_id) == old(self).spec_role_group(
                    #[trigger] role_ids@[k],
                ))) implies #[trigger] self.user_in_group@.contains(ug) by {
                if old(self).user_in_group@.contains(ug) && !(ug.user_id == user_id && exists|
                    rid: i64,
                |
                old(self).spec_has_role(user_id, rid) && Some(ug.group_id) == old(
                    self,
                ).spec_role_group(rid)) {
                    assert forall|k: int|
                        0 <= k < current@.len() implies Some(ug.group_id) != pre.spec_role_group(
                        #[trigger] current@[k],
                    ) || ug.user_id != user_id by {
                        if ug.user_id == user_id {
                            assert(current@.contains(current@[k]));
                            assert(old(self).spec_has_role(user_id, current@[k]));
                            assert(pre.spec_role_group(current@[k]) == old(self).spec_role_group(
                                current@[k],
                            ));
                        }
                    }
                    assert(mid.user_in_group@.contains(ug));
                } else {
                    let k = choose|k: int|
                        0 <= k < role_ids@.len() && Some(ug.group_id) == old(self).spec_role_group(
                            #[trigger] role_ids@[k],
                        );
                    assert(mid.spec_role_group(role_ids@[k]) == old(self).spec_role_group(
                        role_ids@[k],
                    ));
                }
            }
        }
        Ok(())
    }


    /// Adds the user to each given group, in one step: all of them, or,
    /// when the set is empty or a group id has no row, none. Memberships
    /// already present stay as the single copy they are.
    pub fn add_to_groups(&mut self, user_id: i64, group_ids: &Vec<i64>) -> (r: Result<
        (),
        ResourceCreateError,
    >)
        requires
            old(self).wf(),
        ensures
            final(self).wf(),
            final(self).same_grants(*old(self)),
            final(self).same_catalog(*old(self)),
            final(self).user_has_role@ == old(self).user_has_role@,
            r is Err ==> *final(self) == *old(self),
            r == Err::<(), ResourceCreateError>(ResourceCreateError::BadParam) <==> group_ids@.len()
                == 0,
            r is Ok <==> group_ids@.len() > 0 && forall|k: int|
                0 <= k < group_ids@.len() ==> old(self).spec_group_exists(#[trigger] group_ids@[k]),
            r is Err && group_ids@.len() > 0 ==> r == Err::<(), ResourceCreateError>(
                ResourceCreateError::Store,
            ),
            r is Ok ==> forall|ug: UserGroup| #[trigger]
                final(self).user_in_group@.contains(ug) <==> (old(self).user_in_group@.contains(ug)
                    || (ug.user_id == user_id && group_ids@.contains(ug.group_id))),
    {
        if group_ids.len() == 0 {
            return Err(ResourceCreateError::BadParam);
        }
        let mut v: usize = 0;
        while v < group_ids.len()
            invariant
                0 <= v <= group_ids@.len(),
                self == old(self),
                self.wf(),
                forall|k: int| 0 <= k < v ==> self.spec_group_exists(#[trigger] group_ids@[k]),
            decreases group_ids@.len() - v,
        {
            if !self.group_exists(group_ids[v]) {
                return Err(ResourceCreateError::Store);
            }
            v += 1;
        }
        let mut i: usize = 0;
        while i < group_ids.len()
            invariant
                0 <= i <= group_ids@.len(),
                self.wf(),
                self.same_grants(*old(self)),
                self.same_catalog(*old(self)),
                self.user_has_role@ == old(self).user_has_role@,
                forall|ug: UserGroup| #[trigger]
                    self.user_in_group@.contains(ug) <==> (old(self).user_in_group@.contains(ug)
                        || (ug.user_id == user_id && exists|k: int|
                        0 <= k < i && ug.group_id == #[trigger] group_ids@[k])),
            decreases group_ids@.len() - i,
        {
            let ghost mid = *self;
            self.insert_user_group(user_id, group_ids[i]);
            proof {
                assert forall|ug: UserGroup| #[trigger]
                    self.user_in_group@.contains(ug) implies (old(
                    self,
                ).user_in_group@.contains(ug) || (ug.user_id == user_id && exists|k: int|
                    0 <= k < i + 1 && ug.group_id == #[trigger] group_ids@[k])) by {
                    if !mid.user_in_group@.contains(ug) {
                        assert(ug.group_id == group_ids@[i as int]);
                    }
                }
            }
            i += 1;
        }
        Ok(())
    }

    /// Removes the user from each given group. Groups the user is not in
    /// change nothing. Role membership is left as it is: this is the raw
    /// group relation.
    pub fn remove_from_groups(&mut self, user_id: i64, group_ids: &Vec<i64>)
        requires
            old(self).wf(),
        ensures
            final(self).wf(),
            final(self).same_grants(*old(self)),
            final(self).same_catalog(*old(self)),
            final(self).user_has_role@ == old(self).user_has_role@,
            forall|ug: UserGroup| #[trigger]
                final(self).user_in_group@.contains(ug) <==> (old(self).user_in_group@.contains(ug)
                    && !(ug.user_id == user_id && group_ids@.contains(ug.group_id))),
    {
        let mut i: usize = 0;
        while i < group_ids.len()
            invariant
                0 <= i <= group_ids@.len(),
                self.wf(),
                self.same_grants(*old(self)),
                self.same_catalog(*old(self)),
                self.user_has_role@ == old(self).user_has_role@,
                forall|ug: UserGroup| #[trigger]
                    self.user_in_group@.contains(ug) <==> (old(self).user_in_group@.contains(ug)
                        && !(ug.user_id == user_id && exists|k: int|
                        0 <= k < i && ug.group_id == #[trigger] group_ids@[k])),
            decreases group_ids@.len() - i,
        {
            let ghost mid = *self;
            self.remove_user_group(user_id, group_ids[i]);
            proof {
                assert forall|ug: UserGroup|
                    (old(self).user_in_group@.contains(ug) && !(ug.user_id == user_id && exists|
                        k: int,
                    | 0 <= k < i + 1 && ug.group_id == #[trigger] group_ids@[k]))
                    implies #[trigger] self.user_in_group@.contains(ug) by {
                    assert(mid.user_in_group@.contains(ug));
                    assert(ug != (UserGroup { user_id, group_id: group_ids@[i as int] }));
                }
            }
            i += 1;
        }
    }

    /// Replaces the user's whole group membership in one step: every
    /// membership row of the user goes — role-derived ones included — and
    /// the given groups take their place. When the set is empty or a group
    /// id has no row, nothing changes.
    pub fn replace_groups(&mut self, user_id: i64, group_ids: &Vec<i64>) -> (r: Result<
        (),
        ResourceCreateError,
    >)
        requires
            old(self).wf(),
        ensures
            final(self).wf(),
            final(self).same_grants(*old(self)),
            final(self).same_catalog(*old(self)),
            final(self).user_has_role@ == old(self).user_has_role@,
            r is Err ==> *final(self) == *old(self),
            r == Err::<(), ResourceCreateError>(ResourceCreateError::BadParam) <==> group_ids@.len()
                == 0,
            r is Ok <==> group_ids@.len() > 0 && forall|k: int|
                0 <= k < group_ids@.len() ==> old(self).spec_group_exists(#[trigger] group_ids@[k]),
            r is Err && group_ids@.len() > 0 ==> r == Err::<(), ResourceCreateError>(
                ResourceCreateError::Store,
            ),
            r is Ok ==> forall|ug: UserGroup| #[trigger]
                final(self).user_in_group@.contains(ug) <==> ((ug.user_id != user_id && old(
                    self,
                ).user_in_group@.contains(ug)) || (ug.user_id == user_id && group_ids@.contains(
                    ug.group_id,
                ))),
    {
        if group_ids.len() == 0 {
            return Err(ResourceCreateError::BadParam);
        }
        let mut v: usize = 0;
        while v < group_ids.len()
            invariant
                0 <= v <= group_ids@.len(),
                self == old(self),
                self.wf(),
                forall|k: int| 0 <= k < v ==> self.spec_group_exists(#[trigger] group_ids@[k]),
            decreases group_ids@.len() - v,
        {
            if !self.group_exists(group_ids[v]) {
                return Err(ResourceCreateError::Store);
            }
            v += 1;
        }
        let current = self.groups_of_user(user_id);
        self.remove_from_groups(user_id, &current);
        let ghost mid = *self;
        proof {
            assert forall|ug: UserGroup| #[trigger]
                mid.user_in_group@.contains(ug) <==> (old(self).user_in_group@.contains(ug)
                    && ug.user_id != user_id) by {
                if old(self).user_in_group@.contains(ug) && ug.user_id == user_id {
                    assert(old(self).spec_in_group(user_id, ug.group_id));
                    assert(current@.contains(ug.group_id));
                }
            }
            assert(forall|k: int|
                0 <= k < group_ids@.len() ==> mid.spec_group_exists(#[trigger] group_ids@[k]));
        }
        let res = self.add_to_groups(user_id, group_ids);
        proof {
            assert(res is Ok);
        }
        Ok(())
    }

    /// Whether a group row with the id exists.
    fn group_exists(&self, group_id: i64) -> (r: bool)
        ensures
            r == self.spec_group_exists(group_id),
    {
        let mut i: usize = 0;
        while i < self.groups.len()
            invariant
                0 <= i <= self.groups@.len(),
                forall|j: int| 0 <= j < i ==> (#[trigger] self.groups@[j]).group_id != group_id,
            decreases self.groups@.len() - i,
        {
            if self.groups[i].group_id == group_id {
                assert(self.groups@[i as int].group_id == group_id);
                return true;
            }
            i += 1;
        }
        false
    }

    /// Adds each given user to the group, in one step: all of them, or,
    /// when the set is empty or the group has no row, none.
    pub fn group_add_users(&mut self, group_id: i64, user_ids: &Vec<i64>) -> (r: Result<
        (),
        ResourceCreateError,
    >)
        requires
            old(self).wf(),
        ensures
            final(self).wf(),
            final(self).same_grants(*old(self)),
            final(self).same_catalog(*old(self)),
            final(self).user_has_role@ == old(self).user_has_role@,
            r is Err ==> *final(self) == *old(self),
            r == Err::<(), ResourceCreateError>(ResourceCreateError::BadParam) <==> user_ids@.len()
                == 0,
            r == Err::<(), ResourceCreateError>(ResourceCreateError::NotFound) <==> (
            user_ids@.len() > 0 && !old(self).spec_group_exists(group_id)),
            r is Ok <==> user_ids@.len() > 0 && old(self).spec_group_exists(group_id),
            r is Ok ==> forall|ug: UserGroup| #[trigger]
                final(self).user_in_group@.contains(ug) <==> (old(self).user_in_group@.contains(ug)
                    || (ug.group_id == group_id && user_ids@.contains(ug.user_id))),
    {
        if user_ids.len() == 0 {
            return Err(ResourceCreateError::BadParam);
        }
        if !self.group_exists(group_id) {
            return Err(ResourceCreateError::NotFound);
        }
        let mut i: usize = 0;
        while i < user_ids.len()
            invariant
                0 <= i <= user_ids@.len(),
                self.wf(),
                self.same_grants(*old(self)),
                self.same_catalog(*old(self)),
                self.user_has_role@ == old(self).user_has_role@,
                forall|ug: UserGroup| #[trigger]
                    self.user_in_group@.contains(ug) <==> (old(self).user_in_group@.contains(ug)
                        || (ug.group_id == group_id && exists|k: int|
                        0 <= k < i && ug.user_id == #[trigger] user_ids@[k])),
            decreases user_ids@.len() - i,
        {
            let ghost mid = *self;
            self.insert_user_group(user_ids[i], group_id);
            proof {
                assert forall|ug: UserGroup| #[trigger]
                    self.user_in_group@.contains(ug) implies (old(
                    self,
                ).user_in_group@.contains(ug) || (ug.group_id == group_id && exists|k: int|
                    0 <= k < i + 1 && ug.user_id == #[trigger] user_ids@[k])) by {
                    if !mid.user_in_group@.contains(ug) {
                        assert(ug.user_id == user_ids@[i as int]);
                    }
                }
            }
            i += 1;
        }
        Ok(())
    }

    /// Removes each given user from the group. Users not in the group
    /// change nothing.
    pub fn group_delete_users(&mut self, group_id: i64, user_ids: &Vec<i64>)
        requires
            old(self).wf(),
        ensures
            final(self).wf(),
            final(self).same_grants(*old(self)),
            final(self).same_catalog(*old(self)),
            final(self).user_has_role@ == old(self).user_has_role@,
            forall|ug: UserGroup| #[trigger]
                final(self).user_in_group@.contains(ug) <==> (old(self).user_in_group@.contains(ug)
                    && !(ug.group_id == group_id && user_ids@.contains(ug.user_id))),
    {
        let mut i: usize = 0;
        while i < user_ids.len()
            invariant
                0 <= i <= user_ids@.len(),
                self.wf(),
                self.same_grants(*old(self)),
                self.same_catalog(*old(self)),
                self.user_has_role@ == old(self).user_has_role@,
                forall|ug: UserGroup| #[trigger]
                    self.user_in_group@.contains(ug) <==> (old(self).user_in_group@.contains(ug)
                        && !(ug.group_id == group_id && exists|k: int|
                        0 <= k < i && ug.user_id == #[trigger] user_ids@[k])),
            decreases user_ids@.len() - i,
        {
            let ghost mid = *self;
            self.remove_user_group(user_ids[i], group_id);
            proof {
                assert forall|ug: UserGroup|
                    (old(self).user_in_group@.contains(ug) && !(ug.group_id == group_id && exists|
                        k: int,
                    | 0 <= k < i + 1 && ug.user_id == #[trigger] user_ids@[k]))
                    implies #[trigger] self.user_in_group@.contains(ug) by {
                    assert(mid.user_in_group@.contains(ug));
                    assert(ug != (UserGroup { user_id: user_ids@[i as int], group_id }));
                }
            }
            i += 1;
        }
    }

    /// Replaces the group's whole membership in one step: every member of
    /// the group goes and the given users take their place. When the group
    /// has no row or the set is empty, nothing changes.
    pub fn group_replace_users(&mut self, group_id: i64, user_ids: &Vec<i64>) -> (r: Result<
        (),
        ResourceCreateError,
    >)
        requires
            old(self).wf(),
        ensures
            final(self).wf(),
            final(self).same_grants(*old(self)),
            final(self).same_catalog(*old(self)),
            final(self).user_has_role@ == old(self).user_has_role@,
            r is Err ==> *final(self) == *old(self),
            r == Err::<(), ResourceCreateError>(ResourceCreateError::NotFound) <==> !old(
                self,
            ).spec_group_exists(group_id),
            r == Err::<(), ResourceCreateError>(ResourceCreateError::BadParam) <==> (old(
                self,
            ).spec_group_exists(group_id) && user_ids@.len() == 0),
            r is Ok <==> old(self).spec_group_exists(group_id) && user_ids@.len() > 0,
            r is Ok ==> forall|ug: UserGroup| #[trigger]
                final(self).user_in_group@.contains(ug) <==> ((ug.group_id != group_id && old(
                    self,
                ).user_in_group@.contains(ug)) || (ug.group_id == group_id && user_ids@.contains(
                    ug.user_id,
                ))),
    {
        if !self.group_exists(group_id) {
            return Err(ResourceCreateError::NotFound);
        }
        if user_ids.len() == 0 {
            return Err(ResourceCreateError::BadParam);
        }
        let current = self.users_of_group(group_id);
        let ghost pre = *self;
        let mut i: usize = 0;
        while i < current.len()
            invariant
                0 <= i <= current@.len(),
                self.wf(),
                self.same_grants(pre),
                self.same_catalog(pre),
                self.user_has_role@ == pre.user_has_role@,
                forall|ug: UserGroup| #[trigger]
                    self.user_in_group@.contains(ug) <==> (pre.user_in_group@.contains(ug) && !(
                    ug.group_id == group_id && exists|k: int|
                        0 <= k < i && ug.user_id == #[trigger] current@[k])),
            decreases current@.len() - i,
        {
            let ghost mid = *self;
            self.remove_user_group(current[i], group_id);
            proof {
                assert forall|ug: UserGroup|
                    (pre.user_in_group@.contains(ug) && !(ug.group_id == group_id && exists|k: int|
                        0 <= k < i + 1 && ug.user_id == #[trigger] current@[k]))
                    implies #[trigger] self.user_in_group@.contains(ug) by {
                    assert(mid.user_in_group@.contains(ug));
                    assert(ug != (UserGroup { user_id: current@[i as int], group_id }));
                }
            }
            i += 1;
        }
        proof {
            assert forall|ug: UserGroup| #[trigger]
                self.user_in_group@.contains(ug) <==> (pre.user_in_group@.contains(ug)
                    && ug.group_id != group_id) by {
                if pre.user_in_group@.contains(ug) && ug.group_id == group_id {
                    assert(pre.spec_in_group(ug.user_id, group_id));
                    assert(current@.contains(ug.user_id));
                }
            }
            assert(self.spec_group_exists(group_id));
        }
        let res = self.group_add_users(group_id, user_ids);
        proof {
            assert(res is Ok);
        }
        Ok(())
    }

    /// Adds each given user to the role, in one step per user: the
    /// `user_has_role` row and the backing-group membership together. All of
    /// the users, or, when the set is empty, the role has no row, or the
    /// role has no backing group, none of them.
    pub fn role_add_users(&mut self, role_id: i64, user_ids: &Vec<i64>) -> (r: Result<
        (),
        ResourceCreateError,
    >)
        requires
            old(self).wf(),
        ensures
            final(self).wf(),
            final(self).same_grants(*old(self)),
            final(self).same_catalog(*old(self)),
            r is Err ==> *final(self) == *old(self),
            r == Err::<(), ResourceCreateError>(ResourceCreateError::BadParam) <==> user_ids@.len()
                == 0,
            r == Err::<(), ResourceCreateError>(ResourceCreateError::NotFound) <==> (
            user_ids@.len() > 0 && !old(self).spec_role_exists(role_id)),
            r is Ok <==> user_ids@.len() > 0 && old(self).spec_role_exists(role_id) && old(
                self,
            ).spec_role_group(role_id) is Some,
            r is Ok ==> forall|ur: UserRole| #[trigger]
                final(self).user_has_role@.contains(ur) <==> (old(self).user_has_role@.contains(ur)
                    || (ur.role_id == role_id && user_ids@.contains(ur.user_id))),
            r is Ok ==> forall|ug: UserGroup| #[trigger]
                final(self).user_in_group@.contains(ug) <==> (old(self).user_in_group@.contains(ug)
                    || (Some(ug.group_id) == old(self).spec_role_group(role_id)
                    && user_ids@.contains(ug.user_id))),
    {
        if user_ids.len() == 0 {
            return Err(ResourceCreateError::BadParam);
        }
        let group = match self.find_role_group(role_id) {
            None => {
                return Err(ResourceCreateError::NotFound);
            },
            Some(None) => {
                return Err(ResourceCreateError::Store);
            },
            Some(Some(g)) => g,
        };
        let mut i: usize = 0;
        while i < user_ids.len()
            invariant
                0 <= i <= user_ids@.len(),
                self.wf(),
                self.same_grants(*old(self)),
                self.same_catalog(*old(self)),
                Some(group) == old(self).spec_role_group(role_id),
                forall|ur: UserRole| #[trigger]
                    self.user_has_role@.contains(ur) <==> (old(self).user_has_role@.contains(ur)
                        || (ur.role_id == role_id && exists|k: int|
                        0 <= k < i && ur.user_id == #[trigger] user_ids@[k])),
                forall|ug: UserGroup| #[trigger]
                    self.user_in_group@.contains(ug) <==> (old(self).user_in_group@.contains(ug)
                        || (ug.group_id == group && exists|k: int|
                        0 <= k < i && ug.user_id == #[trigger] user_ids@[k])),
            decreases user_ids@.len() - i,
        {
            let ghost mid = *self;
            self.insert_user_role(user_ids[i], role_id);
            let ghost mid2 = *self;
            self.insert_user_group(user_ids[i], group);
            proof {
                assert forall|ur: UserRole| #[trigger]
                    self.user_has_role@.contains(ur) implies (old(
                    self,
                ).user_has_role@.contains(ur) || (ur.role_id == role_id && exists|k: int|
                    0 <= k < i + 1 && ur.user_id == #[trigger] user_ids@[k])) by {
                    if !mid.user_has_role@.contains(ur) {
                        assert(ur.user_id == user_ids@[i as int]);
                    }
                }
                assert forall|ug: UserGroup| #[trigger]
                    self.user_in_group@.contains(ug) implies (old(
                    self,
                ).user_in_group@.contains(ug) || (ug.group_id == group && exists|k: int|
                    0 <= k < i + 1 && ug.user_id == #[trigger] user_ids@[k])) by {
                    if !mid2.user_in_group@.contains(ug) {
                        assert(ug.user_id == user_ids@[i as int]);
                    }
                }
            }
            i += 1;
        }
        Ok(())
    }

    /// Removes each given user from the role, in one step per user: the
    /// `user_has_role` row and the backing-group membership together. Users
    /// that do not hold the role change nothing; a role with no row only
    /// has `user_has_role` rows to lose.
    pub fn role_delete_users(&mut self, role_id: i64, user_ids: &Vec<i64>)
        requires
            old(self).wf(),
        ensures
            final(self).wf(),
            final(self).same_grants(*old(self)),
            final(self).same_catalog(*old(self)),
            forall|ur: UserRole| #[trigger]
                final(self).user_has_role@.contains(ur) <==> (old(self).user_has_role@.contains(ur)
                    && !(ur.role_id == role_id && user_ids@.contains(ur.user_id))),
            forall|ug: UserGroup| #[trigger]
                final(self).user_in_group@.contains(ug) <==> (old(self).user_in_group@.contains(ug)
                    && !(Some(ug.group_id) == old(self).spec_role_group(role_id)
                    && user_ids@.contains(ug.user_id))),
    {
        let group = self.find_role_group(role_id);
        let mut i: usize = 0;
        while i < user_ids.len()
            invariant
                0 <= i <= user_ids@.len(),
                self.wf(),
                self.same_grants(*old(self)),
                self.same_catalog(*old(self)),
                group == Some(old(self).spec_role_group(role_id)) || (group is None && !old(
                    self,
                ).spec_role_exists(role_id)),
                forall|ur: UserRole| #[trigger]
                    self.user_has_role@.contains(ur) <==> (old(self).user_has_role@.contains(ur)
                        && !(ur.role_id == role_id && exists|k: int|
                        0 <= k < i && ur.user_id == #[trigger] user_ids@[k])),
                forall|ug: UserGroup| #[trigger]
                    self.user_in_group@.contains(ug) <==> (old(self).user_in_group@.contains(ug)
                        && !(Some(ug.group_id) == old(self).spec_role_group(role_id) && exists|
                        k: int,
                    | 0 <= k < i && ug.user_id == #[trigger] user_ids@[k])),
            decreases user_ids@.len() - i,
        {
            let ghost mid = *self;
            self.remove_user_role(user_ids[i], role_id);
            let ghost mid2 = *self;
            if let Some(Some(g)) = group {
                self.remove_user_group(user_ids[i], g);
            }
            proof {
                assert forall|ur: UserRole|
                    (old(self).user_has_role@.contains(ur) && !(ur.role_id == role_id && exists|
                        k: int,
                    | 0 <= k < i + 1 && ur.user_id == #[trigger] user_ids@[k]))
                    implies #[trigger] self.user_has_role@.contains(ur) by {
                    assert(mid.user_has_role@.contains(ur));
                    assert(ur != (UserRole { user_id: user_ids@[i as int], role_id }));
                }
                assert forall|ug: UserGroup|
                    (old(self).user_in_group@.contains(ug) && !(Some(ug.group_id) == old(
                        self,
                    ).spec_role_group(role_id) && exists|k: int|
                        0 <= k < i + 1 && ug.user_id == #[trigger] user_ids@[k]))
                    implies #[trigger] self.user_in_group@.contains(ug) by {
                    assert(mid2.user_in_group@.contains(ug));
                }
            }
            i += 1;
        }
    }

    /// Replaces the role's whole membership in one step: every holder of
    /// the role loses it together with the backing-group membership, and the
    /// given users are assigned it, each with the backing-group membership.
    /// When the role has no row, the set is empty, or the role has no
    /// backing group, nothing changes. Other group memberships of the
    /// removed users are kept.
    pub fn role_replace_users(&mut self, role_id: i64, user_ids: &Vec<i64>) -> (r: Result<
        (),
        ResourceCreateError,
    >)
        requires
            old(self).wf(),
        ensures
            final(self).wf(),
            final(self).same_grants(*old(self)),
            final(self).same_catalog(*old(self)),
            r is Err ==> *final(self) == *old(self),
            r == Err::<(), ResourceCreateError>(ResourceCreateError::NotFound) <==> !old(
                self,
            ).spec_role_exists(role_id),
            r == Err::<(), ResourceCreateError>(ResourceCreateError::BadParam) <==> (old(
                self,
            ).spec_role_exists(role_id) && user_ids@.len() == 0),
            r is Ok <==> old(self).spec_role_exists(role_id) && user_ids@.len() > 0 && old(
                self,
            ).spec_role_group(role_id) is Some,
            r is Ok ==> forall|ur: UserRole| #[trigger]
                final(self).user_has_role@.contains(ur) <==> ((ur.role_id != role_id && old(
                    self,
                ).user_has_role@.contains(ur)) || (ur.role_id == role_id && user_ids@.contains(
                    ur.user_id,
                ))),
            r is Ok ==> forall|ug: UserGroup| #[trigger]
                final(self).user_in_group@.contains(ug) <==> ((old(self).user_in_group@.contains(
                    ug,
                ) && !(Some(ug.group_id) == old(self).spec_role_group(role_id) && old(
                    self,
                ).spec_has_role(ug.user_id, role_id))) || (Some(ug.group_id) == old(
                    self,
                ).spec_role_group(role_id) && user_ids@.contains(ug.user_id))),
    {
        match self.find_role_group(role_id) {
            None => {
                return Err(ResourceCreateError::NotFound);
            },
            Some(None) => {
                if user_ids.len() == 0 {
                    return Err(ResourceCreateError::BadParam);
                }
                return Err(ResourceCreateError::Store);
            },
            Some(Some(_)) => {},
        }
        if user_ids.len() == 0 {
            return Err(ResourceCreateError::BadParam);
        }
        let current = self.users_of_role(role_id);
        let ghost pre = *self;
        self.role_delete_users(role_id, &current);
        let ghost mid = *self;
        proof {
            assert forall|ur: UserRole| #[trigger]
                mid.user_has_role@.contains(ur) <==> (old(self).user_has_role@.contains(ur)
                    && ur.role_id != role_id) by {
                if old(self).user_has_role@.contains(ur) && ur.role_id == role_id {
                    assert(old(self).spec_has_role(ur.user_id, role_id));
                    assert(current@.contains(ur.user_id));
                }
            }
            assert forall|ug: UserGroup| #[trigger]
                mid.user_in_group@.contains(ug) <==> (old(self).user_in_group@.contains(ug) && !(
                Some(ug.group_id) == old(self).spec_role_group(role_id) && old(self).spec_has_role(
                    ug.user_id,
                    role_id,
                ))) by {
                if old(self).user_in_group@.contains(ug) && Some(ug.group_id) == old(
                    self,
                ).spec_role_group(role_id) && old(self).spec_has_role(ug.user_id, role_id) {
                    assert(current@.contains(ug.user_id));
                }
            }
            assert(mid.roles@ == old(self).roles@);
            assert(mid.spec_role_exists(role_id));
            assert(mid.spec_role_group(role_id) == old(self).spec_role_group(role_id));
        }
        let res = self.role_add_users(role_id, user_ids);
        proof {
            assert(res is Ok);
        }
        Ok(())
    }

    /// Removes the role row itself.
    fn remove_role_row(&mut self, role_id: i64)
        requires
            old(self).wf(),
        ensures
            final(self).wf(),
            final(self).same_grants(*old(self)),
            final(self).groups@ == old(self).groups@,
            final(self).user_has_role@ == old(self).user_has_role@,
            final(self).user_in_group@ == old(self).user_in_group@,
            final(self).next_role_id == old(self).next_role_id,
            final(self).next_group_id == old(self).next_group_id,
            forall|r: RoleRow| #[trigger]
                final(self).roles@.contains(r) <==> (old(self).roles@.contains(r) && r.role_id
                    != role_id),
            forall|rid: i64|
                final(self).spec_role_exists(rid) <==> (old(self).spec_role_exists(rid) && rid
                    != role_id),
    {
        let mut i: usize = 0;
        while i < self.roles.len()
            invariant
                0 <= i <= self.roles@.len(),
                self == old(self),
                self.wf(),
                forall|j: int| 0 <= j < i ==> (#[trigger] self.roles@[j]).role_id != role_id,
            decreases self.roles@.len() - i,
        {
            if self.roles[i].role_id == role_id {
                let ghost pre = self.roles@;
                proof {
                    assert(pre[i as int].role_id == role_id);
                    assert forall|a: int, b: int| 0 <= a < b < pre.len() implies pre[a]
                        != pre[b] by {
                        assert(pre[a].role_id != pre[b].role_id);
                    }
                }
                self.roles.remove(i);
                proof {
                    lemma_remove_contains(pre, i as int);
                    assert forall|r: RoleRow| #[trigger]
                        self.roles@.contains(r) <==> (pre.contains(r) && r.role_id != role_id) by {
                        if pre.contains(r) && r.role_id != role_id {
                            assert(r != pre[i as int]);
                        }
                        if self.roles@.contains(r) && r.role_id == role_id {
                            let k = choose|k: int|
                                0 <= k < pre.len() && pre[k] == r;
                            assert(pre[k].role_id == pre[i as int].role_id);
                            assert(k == i as int);
                            assert(false);
                        }
                    }
                    assert forall|rid: i64|
                        self.spec_role_exists(rid) <==> (old(self).spec_role_exists(rid) && rid
                            != role_id) by {
                        if self.spec_role_exists(rid) {
                            let k = choose|k: int|
                                0 <= k < self.roles@.len() && (#[trigger] self.roles@[k]).role_id
                                    == rid;
                            assert(self.roles@.contains(self.roles@[k]));
                        }
                        if old(self).spec_role_exists(rid) && rid != role_id {
                            let k = choose|k: int|
                                0 <= k < pre.len() && (#[trigger] pre[k]).role_id == rid;
                            assert(self.roles@.contains(pre[k]));
                            let m = choose|m: int|
                                0 <= m < self.roles@.len() && self.roles@[m] == pre[k];
                            assert(self.roles@[m].role_id == rid);
                        }
                    }
                    assert forall|a: int, b: int|
                        0 <= a < b < self.roles@.len() implies self.roles@[a].role_id
                        != self.roles@[b].role_id by {
                        // each kept position maps back to a distinct position of `pre`
                        pre.remove_ensures(i as int);
                        if self.roles@[a].role_id == self.roles@[b].role_id {
                            if b < i as int {
                                assert(pre[a].role_id != pre[b].role_id);
                            } else if a >= i as int {
                                assert(pre[a + 1].role_id != pre[b + 1].role_id);
                            } else {
                                assert(pre[a].role_id != pre[b + 1].role_id);
                            }
                        }
                    }
                    assert forall|k: int|
                        0 <= k < self.roles@.len() implies (#[trigger] self.roles@[k]).role_id
                        < self.next_role_id by {
                        assert(self.roles@.contains(self.roles@[k]));
                        let m = choose|m: int| 0 <= m < pre.len() && pre[m] == self.roles@[k];
                    }
                }
                return ;
            }
            i += 1;
        }
        proof {
            assert forall|r: RoleRow| #[trigger]
                self.roles@.contains(r) <==> (old(self).roles@.contains(r) && r.role_id
                    != role_id) by {
                if self.roles@.contains(r) {
                    let k = choose|k: int| 0 <= k < self.roles@.len() && self.roles@[k] == r;
                }
            }
            assert forall|rid: i64|
                self.spec_role_exists(rid) implies rid != role_id by {
                let k = choose|k: int|
                    0 <= k < self.roles@.len() && (#[trigger] self.roles@[k]).role_id == rid;
            }
        }
    }

    /// Deletes a group: the group row and every membership in it, in one
    /// step. A group id with no row changes nothing: there is nothing it
    /// could be a membership of.
    pub fn delete_group(&mut self, group_id: i64)
        requires
            old(self).wf(),
        ensures
            final(self).wf(),
            final(self).same_grants(*old(self)),
            final(self).roles@ == old(self).roles@,
            final(self).user_has_role@ == old(self).user_has_role@,
            final(self).next_role_id == old(self).next_role_id,
            final(self).next_group_id == old(self).next_group_id,
            forall|g: GroupRow| #[trigger]
                final(self).groups@.contains(g) <==> (old(self).groups@.contains(g) && g.group_id
                    != group_id),
            forall|gid: i64|
                final(self).spec_group_exists(gid) <==> (old(self).spec_group_exists(gid) && gid
                    != group_id),
            forall|ug: UserGroup| #[trigger]
                final(self).user_in_group@.contains(ug) <==> (old(self).user_in_group@.contains(ug)
                    && ug.group_id != group_id),
    {
        let members = self.users_of_group(group_id);
        let ghost pre = *self;
        self.group_delete_users(group_id, &members);
        proof {
            assert forall|ug: UserGroup| #[trigger]
                self.user_in_group@.contains(ug) <==> (old(self).user_in_group@.contains(ug)
                    && ug.group_id != group_id) by {
                if old(self).user_in_group@.contains(ug) && ug.group_id == group_id {
                    assert(pre.spec_in_group(ug.user_id, group_id));
                    assert(members@.contains(ug.user_id));
                }
            }
        }
        let mut i: usize = 0;
        while i < self.groups.len()
            invariant
                0 <= i <= self.groups@.len(),
                self.wf(),
                self.same_grants(*old(self)),
                self.roles@ == old(self).roles@,
                self.user_has_role@ == old(self).user_has_role@,
                self.next_role_id == old(self).next_role_id,
                self.next_group_id == old(self).next_group_id,
                self.groups@ == old(self).groups@,
                forall|ug: UserGroup| #[trigger]
                    self.user_in_group@.contains(ug) <==> (old(self).user_in_group@.contains(ug)
                        && ug.group_id != group_id),
                forall|j: int| 0 <= j < i ==> (#[trigger] self.groups@[j]).group_id != group_id,
            decreases self.groups@.len() - i,
        {
            if self.groups[i].group_id == group_id {
                let ghost gpre = self.groups@;
                proof {
                    assert(gpre[i as int].group_id == group_id);
                    assert forall|a: int, b: int| 0 <= a < b < gpre.len() implies gpre[a]
                        != gpre[b] by {
                        assert(gpre[a].group_id != gpre[b].group_id);
                    }
                }
                self.groups.remove(i);
                proof {
                    lemma_remove_contains(gpre, i as int);
                    assert forall|g: GroupRow| #[trigger]
                        self.groups@.contains(g) <==> (gpre.contains(g) && g.group_id != group_id)
                        by {
                        if gpre.contains(g) && g.group_id != group_id {
                            assert(g != gpre[i as int]);
                        }
                        if self.groups@.contains(g) && g.group_id == group_id {
                            let k = choose|k: int| 0 <= k < gpre.len() && gpre[k] == g;
                            assert(gpre[k].group_id == gpre[i as int].group_id);
                            assert(k == i as int);
                            assert(false);
                        }
                    }
                    assert forall|gid: i64|
                        self.spec_group_exists(gid) <==> (old(self).spec_group_exists(gid) && gid
                            != group_id) by {
                        if self.spec_group_exists(gid) {
                            let k = choose|k: int|
                                0 <= k < self.groups@.len() && (#[trigger] self.groups@[k]).group_id
                                    == gid;
                            assert(self.groups@.contains(self.groups@[k]));
                        }
                        if old(self).spec_group_exists(gid) && gid != group_id {
                            let k = choose|k: int|
                                0 <= k < gpre.len() && (#[trigger] gpre[k]).group_id == gid;
                            assert(self.groups@.contains(gpre[k]));
                            let m = choose|m: int|
                                0 <= m < self.groups@.len() && self.groups@[m] == gpre[k];
                            assert(self.groups@[m].group_id == gid);
                        }
                    }
                    assert forall|a: int, b: int|
                        0 <= a < b < self.groups@.len() implies self.groups@[a].group_id
                        != self.groups@[b].group_id by {
                        gpre.remove_ensures(i as int);
                        if self.groups@[a].group_id == self.groups@[b].group_id {
                            if b < i as int {
                                assert(gpre[a].group_id != gpre[b].group_id);
                            } else if a >= i as int {
                                assert(gpre[a + 1].group_id != gpre[b + 1].group_id);
                            } else {
                                assert(gpre[a].group_id != gpre[b + 1].group_id);
                            }
                        }
                    }
                    assert forall|k: int|
                        0 <= k < self.groups@.len() implies (#[trigger] self.groups@[k]).group_id
                        < self.next_group_id by {
                        assert(self.groups@.contains(self.groups@[k]));
                        let m = choose|m: int| 0 <= m < gpre.len() && gpre[m] == self.groups@[k];
                    }
                }
                return ;
            }
            i += 1;
        }
        proof {
            assert forall|g: GroupRow| #[trigger]
                self.groups@.contains(g) implies g.group_id != group_id by {
                let k = choose|k: int| 0 <= k < self.groups@.len() && self.groups@[k] == g;
            }
            assert forall|gid: i64|
                self.spec_group_exists(gid) implies gid != group_id by {
                let k = choose|k: int|
                    0 <= k < self.groups@.len() && (#[trigger] self.groups@[k]).group_id == gid;
            }
        }
    }

    /// Deletes a role together with its backing group, in one step: the
    /// role row, every `user_has_role` row of it, the group row, and every
    /// membership in that group. A missing role changes nothing. Grant rows
    /// that name the role stay behind; the id sequence never hands the id
    /// out again, so they can never reach a user anew.
    pub fn delete_role(&mut self, role_id: i64) -> (r: Result<(), ResourceCreateError>)
        requires
            old(self).wf(),
        ensures
            final(self).wf(),
            final(self).same_grants(*old(self)),
            final(self).next_role_id == old(self).next_role_id,
            final(self).next_group_id == old(self).next_group_id,
            r is Err ==> *final(self) == *old(self) && r == Err::<(), ResourceCreateError>(
                ResourceCreateError::NotFound,
            ),
            r is Ok <==> old(self).spec_role_exists(role_id),
            r is Ok ==> {
                &&& forall|rid: i64|
                    final(self).spec_role_exists(rid) <==> (old(self).spec_role_exists(rid) && rid
                        != role_id)
                &&& forall|gid: i64|
                    final(self).spec_group_exists(gid) <==> (old(self).spec_group_exists(gid)
                        && Some(gid) != old(self).spec_role_group(role_id))
                &&& forall|ur: UserRole| #[trigger]
                    final(self).user_has_role@.contains(ur) <==> (old(
                        self,
                    ).user_has_role@.contains(ur) && ur.role_id != role_id)
                &&& forall|ug: UserGroup| #[trigger]
                    final(self).user_in_group@.contains(ug) <==> (old(
                        self,
                    ).user_in_group@.contains(ug) && Some(ug.group_id) != old(
                        self,
                    ).spec_role_group(role_id))
            },
    {
        let group = match self.find_role_group(role_id) {
            None => {
                return Err(ResourceCreateError::NotFound);
            },
            Some(g) => g,
        };
        let members = self.users_of_role(role_id);
        let ghost pre = *self;
        self.role_delete_users(role_id, &members);
        let ghost mid = *self;
        proof {
            assert forall|ur: UserRole| #[trigger]
                mid.user_has_role@.contains(ur) <==> (old(self).user_has_role@.contains(ur)
                    && ur.role_id != role_id) by {
                if old(self).user_has_role@.contains(ur) && ur.role_id == role_id {
                    assert(pre.spec_has_role(ur.user_id, role_id));
                    assert(members@.contains(ur.user_id));
                }
            }
        }
        self.remove_role_row(role_id);
        let ghost mid2 = *self;
        match group {
            Some(g) => {
                self.delete_group(g);
                proof {
                    assert(Some(g) == old(self).spec_role_group(role_id));
                    assert forall|ug: UserGroup| #[trigger]
                        self.user_in_group@.contains(ug) <==> (old(self).user_in_group@.contains(
                        ug,
                    ) && Some(ug.group_id) != old(self).spec_role_group(role_id)) by {
                        if old(self).user_in_group@.contains(ug) && Some(ug.group_id) != old(
                            self,
                        ).spec_role_group(role_id) {
                            assert(mid2.user_in_group@.contains(ug));
                        }
                    }
                }
            },
            None => {
                proof {
                    assert(old(self).spec_role_group(role_id) is None);
                }
            },
        }
        proof {
            assert(self.roles@ == mid2.roles@);
            assert(mid.roles@ == old(self).roles@);
            assert forall|rid: i64|
                self.spec_role_exists(rid) implies (old(self).spec_role_exists(rid) && rid
                != role_id) by {
                let k = choose|k: int|
                    0 <= k < self.roles@.len() && (#[trigger] self.roles@[k]).role_id == rid;
                assert(mid2.roles@[k].role_id == rid);
                assert(mid2.spec_role_exists(rid));
                let m = choose|m: int|
                    0 <= m < mid.roles@.len() && (#[trigger] mid.roles@[m]).role_id == rid;
                assert(old(self).roles@[m].role_id == rid);
                assert(old(self).spec_role_exists(rid));
            }
            assert forall|rid: i64|
                (old(self).spec_role_exists(rid) && rid != role_id) implies self.spec_role_exists(
                rid,
            ) by {
                let k = choose|k: int|
                    0 <= k < old(self).roles@.len() && (#[trigger] old(self).roles@[k]).role_id
                        == rid;
                assert(mid.roles@[k].role_id == rid);
                assert(mid.spec_role_exists(rid));
                assert(mid2.spec_role_exists(rid));
                let m = choose|m: int|
                    0 <= m < mid2.roles@.len() && (#[trigger] mid2.roles@[m]).role_id == rid;
                assert(self.roles@[m].role_id == rid);
            }
        }
        Ok(())
    }


    /// The position of the role row with the id, if any.
    fn find_role_index(&self, role_id: i64) -> (r: Option<usize>)
        ensures
            match r {
                Some(i) => i < self.roles@.len() && self.roles@[i as int].role_id == role_id,
                None => !self.spec_role_exists(role_id),
            },
    {
        let mut i: usize = 0;
        while i < self.roles.len()
            invariant
                0 <= i <= self.roles@.len(),
                forall|j: int| 0 <= j < i ==> (#[trigger] self.roles@[j]).role_id != role_id,
            decreases self.roles@.len() - i,
        {
            if self.roles[i].role_id == role_id {
                return Some(i);
            }
            i += 1;
        }
        None
    }

    /// The position of the group row with the id, if any.
    fn find_group_index(&self, group_id: i64) -> (r: Option<usize>)
        ensures
            match r {
                Some(i) => i < self.groups@.len() && self.groups@[i as int].group_id == group_id,
                None => !self.spec_group_exists(group_id),
            },
    {
        let mut i: usize = 0;
        while i < self.groups.len()
            invariant
                0 <= i <= self.groups@.len(),
                forall|j: int| 0 <= j < i ==> (#[trigger] self.groups@[j]).group_id != group_id,
            decreases self.groups@.len() - i,
        {
            if self.groups[i].group_id == group_id {
                return Some(i);
            }
            i += 1;
        }
        None
    }


    /// Updates a group's name, kind and parent; the short name stays. A
    /// parent that is given but has no row is malformed; a missing group
    /// changes nothing; a name carried by another group cannot be stored.
    pub fn update_group(
        &mut self,
        group_id: i64,
        name: String,
        kind: GroupKind,
        parent: Option<i64>,
    ) -> (r: Result<(), ResourceCreateError>)
        requires
            old(self).wf(),
        ensures
            final(self).wf(),
            final(self).same_grants(*old(self)),
            final(self).user_has_role@ == old(self).user_has_role@,
            final(self).user_in_group@ == old(self).user_in_group@,
            final(self).roles@ == old(self).roles@,
            final(self).next_role_id == old(self).next_role_id,
            final(self).next_group_id == old(self).next_group_id,
            r is Err ==> *final(self) == *old(self),
            r == Err::<(), ResourceCreateError>(ResourceCreateError::BadParam) <==> (
            parent matches Some(p) && !old(self).spec_group_exists(p)),
            r == Err::<(), ResourceCreateError>(ResourceCreateError::NotFound) <==> ((
            parent matches Some(p) ==> old(self).spec_group_exists(p)) && !old(
                self,
            ).spec_group_exists(group_id)),
            r == Err::<(), ResourceCreateError>(ResourceCreateError::Store) <==> ((parent matches
                Some(p) ==> old(self).spec_group_exists(p)) && old(self).spec_group_exists(
                group_id,
            ) && (exists|i: int|
                0 <= i < old(self).groups@.len() && (#[trigger] old(self).groups@[i]).name@
                    == name@ && old(self).groups@[i].group_id != group_id)),
            r is Ok <==> ((parent matches Some(p) ==> old(self).spec_group_exists(p)) && old(
                self,
            ).spec_group_exists(group_id) && !(exists|i: int|
                0 <= i < old(self).groups@.len() && (#[trigger] old(self).groups@[i]).name@
                    == name@ && old(self).groups@[i].group_id != group_id)),
            r is Ok ==> {
                &&& final(self).groups@.len() == old(self).groups@.len()
                &&& forall|j: int|
                    0 <= j < old(self).groups@.len() && (#[trigger] old(self).groups@[j]).group_id
                        != group_id ==> final(self).groups@[j] == old(self).groups@[j]
                &&& forall|j: int|
                    0 <= j < old(self).groups@.len() && (#[trigger] old(self).groups@[j]).group_id
                        == group_id ==> final(self).groups@[j].group_id == group_id
                        && final(self).groups@[j].name@ == name@
                        && final(self).groups@[j].shortname@ == old(self).groups@[j].shortname@
                        && final(self).groups@[j].kind == kind
                        && final(self).groups@[j].parent == parent
            },
    {
        if let Some(p) = parent {
            if !self.group_exists(p) {
                return Err(ResourceCreateError::BadParam);
            }
        }
        let group_index = match self.find_group_index(group_id) {
            None => {
                return Err(ResourceCreateError::NotFound);
            },
            Some(i) => i,
        };
        if self.other_group_name_taken(Some(group_id), &name) {
            return Err(ResourceCreateError::Store);
        }
        let ghost gpre = self.groups@;
        let renamed = GroupRow {
            group_id,
            name,
            shortname: self.groups[group_index].shortname.clone(),
            kind,
            parent,
        };
        self.groups.set(group_index, renamed);
        proof {
            assert forall|a: int, b: int|
                0 <= a < b < self.groups@.len() implies self.groups@[a].group_id
                != self.groups@[b].group_id by {
                assert(gpre[a].group_id != gpre[b].group_id);
            }
            assert forall|k: int|
                0 <= k < self.groups@.len() implies (#[trigger] self.groups@[k]).group_id
                < self.next_group_id by {
                assert(gpre[k].group_id < self.next_group_id);
            }
            assert forall|j: int|
                0 <= j < old(self).groups@.len() && (#[trigger] old(self).groups@[j]).group_id
                    == group_id implies j == group_index as int by {}
        }
        Ok(())
    }

    /// Whether some role row other than the one with `role_id` carries the
    /// name.
    fn other_role_name_taken(&self, role_id: i64, name: &String) -> (r: bool)
        ensures
            r == exists|i: int|
                0 <= i < self.roles@.len() && (#[trigger] self.roles@[i]).name@ == name@
                    && self.roles@[i].role_id != role_id,
    {
        let mut i: usize = 0;
        while i < self.roles.len()
            invariant
                0 <= i <= self.roles@.len(),
                forall|j: int|
                    0 <= j < i ==> !((#[trigger] self.roles@[j]).name@ == name@
                        && self.roles@[j].role_id != role_id),
            decreases self.roles@.len() - i,
        {
            if self.roles[i].role_id != role_id && self.roles[i].name == *name {
                assert(self.roles@[i as int].name@ == name@ && self.roles@[i as int].role_id
                    != role_id);
                return true;
            }
            i += 1;
        }
        false
    }

    /// Whether some group row other than the given one carries the name.
    fn other_group_name_taken(&self, group_id: Option<i64>, name: &String) -> (r: bool)
        ensures
            r == exists|i: int|
                0 <= i < self.groups@.len() && (#[trigger] self.groups@[i]).name@ == name@ && Some(
                    self.groups@[i].group_id,
                ) != group_id,
    {
        let mut i: usize = 0;
        while i < self.groups.len()
            invariant
                0 <= i <= self.groups@.len(),
                forall|j: int|
                    0 <= j < i ==> !((#[trigger] self.groups@[j]).name@ == name@ && Some(
                        self.groups@[j].group_id,
                    ) != group_id),
            decreases self.groups@.len() - i,
        {
            let own = match group_id {
                Some(g) => g == self.groups[i].group_id,
                None => false,
            };
            if !own && self.groups[i].name == *name {
                assert(self.groups@[i as int].name@ == name@ && Some(
                    self.groups@[i as int].group_id,
                ) != group_id);
                return true;
            }
            i += 1;
        }
        false
    }

    /// Renames a role and replaces its permission list, and renames its
    /// backing group with it, in one step: both rows change or neither
    /// does. A name already carried by another role or group is a
    /// conflict; a missing role changes nothing.
    pub fn update_role(&mut self, role_id: i64, name: String, permissions: Vec<Permission>) -> (r:
        Result<(), ResourceCreateError>)
        requires
            old(self).wf(),
        ensures
            final(self).wf(),
            final(self).same_grants(*old(self)),
            final(self).user_has_role@ == old(self).user_has_role@,
            final(self).user_in_group@ == old(self).user_in_group@,
            final(self).next_role_id == old(self).next_role_id,
            final(self).next_group_id == old(self).next_group_id,
            r is Err ==> *final(self) == *old(self),
            r == Err::<(), ResourceCreateError>(ResourceCreateError::NotFound) <==> !old(
                self,
            ).spec_role_exists(role_id),
            r == Err::<(), ResourceCreateError>(ResourceCreateError::Conflict) <==> (old(
                self,
            ).spec_role_exists(role_id) && ((exists|i: int|
                0 <= i < old(self).roles@.len() && (#[trigger] old(self).roles@[i]).name@ == name@
                    && old(self).roles@[i].role_id != role_id) || (exists|i: int|
                0 <= i < old(self).groups@.len() && (#[trigger] old(self).groups@[i]).name@
                    == name@ && Some(old(self).groups@[i].group_id) != old(self).spec_role_group(
                    role_id,
                )))),
            r is Ok <==> (old(self).spec_role_exists(role_id) && !(exists|i: int|
                0 <= i < old(self).roles@.len() && (#[trigger] old(self).roles@[i]).name@ == name@
                    && old(self).roles@[i].role_id != role_id) && !(exists|i: int|
                0 <= i < old(self).groups@.len() && (#[trigger] old(self).groups@[i]).name@
                    == name@ && Some(old(self).groups@[i].group_id) != old(self).spec_role_group(
                    role_id,
                ))),
            r is Ok ==> {
                &&& final(self).roles@.len() == old(self).roles@.len()
                &&& forall|j: int|
                    0 <= j < old(self).roles@.len() && (#[trigger] old(self).roles@[j]).role_id
                        != role_id ==> final(self).roles@[j] == old(self).roles@[j]
                &&& forall|j: int|
                    0 <= j < old(self).roles@.len() && (#[trigger] old(self).roles@[j]).role_id
                        == role_id ==> final(self).roles@[j].role_id == role_id
                        && final(self).roles@[j].name@ == name@
                        && final(self).roles@[j].permissions == permissions
                        && final(self).roles@[j].group == old(self).roles@[j].group
                &&& final(self).groups@.len() == old(self).groups@.len()
                &&& forall|j: int|
                    0 <= j < old(self).groups@.len() && Some(
                        (#[trigger] old(self).groups@[j]).group_id,
                    ) != old(self).spec_role_group(role_id) ==> final(self).groups@[j]
                        == old(self).groups@[j]
                &&& forall|j: int|
                    0 <= j < old(self).groups@.len() && Some(
                        (#[trigger] old(self).groups@[j]).group_id,
                    ) == old(self).spec_role_group(role_id) ==> final(self).groups@[j].group_id
                        == old(self).groups@[j].group_id && final(self).groups@[j].name@ == name@
                        && final(self).groups@[j].shortname@ == old(self).groups@[j].shortname@
                        && final(self).groups@[j].kind == old(self).groups@[j].kind
                        && final(self).groups@[j].parent == old(self).groups@[j].parent
            },
    {
        let role_index = match self.find_role_index(role_id) {
            None => {
                return Err(ResourceCreateError::NotFound);
            },
            Some(i) => i,
        };
        proof {
            assert(self.spec_role_exists(role_id));
            let k = choose|k: int|
                0 <= k < self.roles@.len() && (#[trigger] self.roles@[k]).role_id == role_id;
            assert(k == role_index as int);
            assert(self.spec_role_group(role_id) == self.roles@[role_index as int].group);
        }
        let group = self.roles[role_index].group;
        if self.other_role_name_taken(role_id, &name) {
            return Err(ResourceCreateError::Conflict);
        }
        if self.other_group_name_taken(group, &name) {
            return Err(ResourceCreateError::Conflict);
        }
        let group_index = match group {
            Some(gid) => self.find_group_index(gid),
            None => None,
        };
        let ghost pre = *self;
        let new_row = RoleRow { role_id, name: name.clone(), permissions, group };
        let ghost nrow = new_row;
        self.roles.set(role_index, new_row);
        proof {
            assert forall|a: int, b: int|
                0 <= a < b < self.roles@.len() implies self.roles@[a].role_id
                != self.roles@[b].role_id by {
                assert(pre.roles@[a].role_id != pre.roles@[b].role_id);
            }
            assert forall|k: int|
                0 <= k < self.roles@.len() implies (#[trigger] self.roles@[k]).role_id
                < self.next_role_id by {
                assert(pre.roles@[k].role_id < pre.next_role_id);
            }
        }
        if let Some(gi) = group_index {
            let ghost gpre = self.groups@;
            let renamed = GroupRow {
                group_id: self.groups[gi].group_id,
                name: name.clone(),
                shortname: self.groups[gi].shortname.clone(),
                kind: self.groups[gi].kind,
                parent: self.groups[gi].parent,
            };
            self.groups.set(gi, renamed);
            proof {
                assert forall|a: int, b: int|
                    0 <= a < b < self.groups@.len() implies self.groups@[a].group_id
                    != self.groups@[b].group_id by {
                    assert(gpre[a].group_id != gpre[b].group_id);
                }
                assert forall|k: int|
                    0 <= k < self.groups@.len() implies (#[trigger] self.groups@[k]).group_id
                    < self.next_group_id by {
                    assert(gpre[k].group_id < self.next_group_id);
                }
            }
        }
        proof {
            assert forall|j: int|
                0 <= j < old(self).groups@.len() && Some(
                    (#[trigger] old(self).groups@[j]).group_id,
                ) != old(self).spec_role_group(role_id) implies self.groups@[j] == old(
                self,
            ).groups@[j] by {
                if group_index matches Some(gi) && j == gi {
                    assert(old(self).groups@[j].group_id == old(self).roles@[
                        role_index as int].group->0);
                }
            }
        }
        Ok(())
    }

}

impl RoleRow {
    /// Inserts a role row after checking that the requesting user may
    /// create roles: the row appears with the next role id, or the store is
    /// left unchanged — on a denied check, or on a name collision.
    pub fn create_in_db(
        store: &mut Store,
        name: String,
        permissions: Vec<Permission>,
        group: Option<i64>,
        user_id: i64,
    ) -> (r: Result<i64, ResourceCreateError>)
        requires
            old(store).wf(),
            old(store).next_role_id < i64::MAX,
        ensures
            final(store).wf(),
            final(store).same_grants(*old(store)),
            final(store).user_has_role@ == old(store).user_has_role@,
            final(store).user_in_group@ == old(store).user_in_group@,
            final(store).groups@ == old(store).groups@,
            r is Err ==> *final(store) == *old(store),
            r == Err::<i64, ResourceCreateError>(ResourceCreateError::AccessDenied) <==> !old(
                store,
            ).spec_has_permissions_all(Type::Role, Operations(CREATE_MASK), user_id),
            r == Err::<i64, ResourceCreateError>(ResourceCreateError::Conflict) <==> (old(
                store,
            ).spec_has_permissions_all(Type::Role, Operations(CREATE_MASK), user_id) && old(
                store,
            ).spec_role_name_taken(name@)),
            r is Ok <==> (old(store).spec_has_permissions_all(
                Type::Role,
                Operations(CREATE_MASK),
                user_id,
            ) && !old(store).spec_role_name_taken(name@)),
            r matches Ok(id) ==> {
                &&& id == old(store).next_role_id
                &&& final(store).roles@.len() == old(store).roles@.len() + 1
                &&& final(store).roles@.subrange(0, old(store).roles@.len() as int) == old(
                    store,
                ).roles@
                &&& final(store).roles@.last().role_id == old(store).next_role_id
                &&& final(store).roles@.last().name@ == name@
                &&& final(store).roles@.last().permissions == permissions
                &&& final(store).roles@.last().group == group
                &&& final(store).next_role_id == old(store).next_role_id + 1
            },
    {
        if !store.can_create(Type::Role, user_id) {
            return Err(ResourceCreateError::AccessDenied);
        }
        if store.role_name_taken(&name) {
            return Err(ResourceCreateError::Conflict);
        }
        let role_id = store.next_role_id;
        store.roles.push(RoleRow { role_id, name, permissions, group });
        store.next_role_id = role_id + 1;
        proof {
            assert(store.roles@.subrange(0, old(store).roles@.len() as int) =~= old(store).roles@);
        }
        Ok(role_id)
    }
}

impl GroupRow {
    /// Inserts a group row after checking that the requesting user may
    /// create groups: the row appears with the next group id, or the store
    /// is left unchanged — on a denied check, or on a name collision.
    pub fn create_in_db(
        store: &mut Store,
        name: String,
        shortname: String,
        kind: GroupKind,
        parent: Option<i64>,
        user_id: i64,
    ) -> (r: Result<i64, ResourceCreateError>)
        requires
            old(store).wf(),
            old(store).next_group_id < i64::MAX,
        ensures
            final(store).wf(),
            final(store).same_grants(*old(store)),
            final(store).user_has_role@ == old(store).user_has_role@,
            final(store).user_in_group@ == old(store).user_in_group@,
            final(store).roles@ == old(store).roles@,
            r is Err ==> *final(store) == *old(store),
            r == Err::<i64, ResourceCreateError>(ResourceCreateError::AccessDenied) <==> !old(
                store,
            ).spec_has_permissions_all(Type::Group, Operations(CREATE_MASK), user_id),
            r == Err::<i64, ResourceCreateError>(ResourceCreateError::Conflict) <==> (old(
                store,
            ).spec_has_permissions_all(Type::Group, Operations(CREATE_MASK), user_id) && old(
                store,
            ).spec_group_name_taken(name@)),
            r is Ok <==> (old(store).spec_has_permissions_all(
                Type::Group,
                Operations(CREATE_MASK),
                user_id,
            ) && !old(store).spec_group_name_taken(name@)),
            r matches Ok(id) ==> {
                &&& id == old(store).next_group_id
                &&& final(store).groups@.len() == old(store).groups@.len() + 1
                &&& final(store).groups@.subrange(0, old(store).groups@.len() as int) == old(
                    store,
                ).groups@
                &&& final(store).groups@.last().group_id == old(store).next_group_id
                &&& final(store).groups@.last().name@ == name@
                &&& final(store).groups@.last().shortname@ == shortname@
                &&& final(store).groups@.last().kind == kind
                &&& final(store).groups@.last().parent == parent
                &&& final(store).next_group_id == old(store).next_group_id + 1
            },
    {
        if !store.can_create(Type::Group, user_id) {
            return Err(ResourceCreateError::AccessDenied);
        }
        if store.group_name_taken(&name) {
            return Err(ResourceCreateError::Conflict);
        }
        let group_id = store.next_group_id;
        store.groups.push(GroupRow { group_id, name, shortname, kind, parent });
        store.next_group_id = group_id + 1;
        proof {
            assert(store.groups@.subrange(0, old(store).groups@.len() as int) =~= old(
                store,
            ).groups@);
        }
        Ok(group_id)
    }

}

} // verus!
