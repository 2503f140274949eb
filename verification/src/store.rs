//! The grant store and the permission resolver. The store is a snapshot of
//! the relational state the resolver reads: one grant table per resource
//! kind, the role and group rows, and the `user_has_role` / `user_in_group`
//! relations. The resolver answers "may user U perform operations O on
//! resource kind T (or on instance R of it)" by looking for a grant row that
//! applies to the user, intersects the requested operations, and covers the
//! instance in question; a row with no resource id covers every instance of
//! its kind. A user without any applicable row is denied.

use vstd::prelude::*;

use crate::grants::{Grant, GroupRow, RoleRow, UserGroup, UserRole};
use crate::ops::{Operations, CREATE_MASK, DELETE_MASK, UPDATE_MASK};
use crate::resources::Type;

verus! {

/// A snapshot of the authorization state.
pub struct Store {
    pub roles: Vec<RoleRow>,
    pub groups: Vec<GroupRow>,
    pub user_has_role: Vec<UserRole>,
    pub user_in_group: Vec<UserGroup>,
    pub user_permissions: Vec<Grant>,
    pub role_permissions: Vec<Grant>,
    pub group_permissions: Vec<Grant>,
    pub file_permissions: Vec<Grant>,
    pub course_permissions: Vec<Grant>,
    pub template_permissions: Vec<Grant>,
    /// The next ids that the role and group sequences would hand out.
    pub next_role_id: i64,
    pub next_group_id: i64,
}

impl Store {
    /// An empty store, with id sequences starting at 1.
    pub fn new() -> (r: Store)
        ensures
            r.wf(),
            r.roles@.len() == 0,
            r.groups@.len() == 0,
            r.user_has_role@.len() == 0,
            r.user_in_group@.len() == 0,
            forall|ty: Type| #[trigger] r.grants(ty).len() == 0,
            r.next_role_id == 1,
            r.next_group_id == 1,
    {
        let r = Store {
            roles: Vec::new(),
            groups: Vec::new(),
            user_has_role: Vec::new(),
            user_in_group: Vec::new(),
            user_permissions: Vec::new(),
            role_permissions: Vec::new(),
            group_permissions: Vec::new(),
            file_permissions: Vec::new(),
            course_permissions: Vec::new(),
            template_permissions: Vec::new(),
            next_role_id: 1,
            next_group_id: 1,
        };
        assert(forall|ty: Type| #[trigger] r.grants(ty).len() == 0);
        r
    }

    /// The grant table of a resource kind.
    pub open spec fn grants(self, ty: Type) -> Seq<Grant> {
        match ty {
            Type::User => self.user_permissions@,
            Type::Role => self.role_permissions@,
            Type::Group => self.group_permissions@,
            Type::File => self.file_permissions@,
            Type::Course => self.course_permissions@,
            Type::Template => self.template_permissions@,
        }
    }

    fn grants_ref(&self, ty: Type) -> (r: &Vec<Grant>)
        ensures
            r@ == self.grants(ty),
    {
        match ty {
            Type::User => &self.user_permissions,
            Type::Role => &self.role_permissions,
            Type::Group => &self.group_permissions,
            Type::File => &self.file_permissions,
            Type::Course => &self.course_permissions,
            Type::Template => &self.template_permissions,
        }
    }

    /// Well-formedness: the membership relations hold no duplicate rows (the
    /// store's primary keys), role and group ids are unique, and the id
    /// sequences lie above every id already handed out.
    pub open spec fn wf(self) -> bool {
        &&& forall|i: int, j: int|
            0 <= i < j < self.user_has_role@.len() ==> self.user_has_role@[i]
                != self.user_has_role@[j]
        &&& forall|i: int, j: int|
            0 <= i < j < self.user_in_group@.len() ==> self.user_in_group@[i]
                != self.user_in_group@[j]
        &&& forall|i: int, j: int|
            0 <= i < j < self.roles@.len() ==> self.roles@[i].role_id != self.roles@[j].role_id
        &&& forall|i: int, j: int|
            0 <= i < j < self.groups@.len() ==> self.groups@[i].group_id
                != self.groups@[j].group_id
        &&& forall|i: int|
            0 <= i < self.roles@.len() ==> #[trigger] self.roles@[i].role_id < self.next_role_id
        &&& forall|i: int|
            0 <= i < self.groups@.len() ==> #[trigger] self.groups@[i].group_id
                < self.next_group_id
    }

    /// Whether the user holds the role.
    pub open spec fn spec_has_role(self, user_id: i64, role_id: i64) -> bool {
        self.user_has_role@.contains(UserRole { user_id, role_id })
    }

    /// Whether the user is a member of the group.
    pub open spec fn spec_in_group(self, user_id: i64, group_id: i64) -> bool {
        self.user_in_group@.contains(UserGroup { user_id, group_id })
    }

    /// Whether a grant row reaches the user: either it names the user
    /// directly, or it names a role the user holds.
    pub open spec fn grant_applies(self, g: Grant, user_id: i64) -> bool {
        ||| g.user_id == Some(user_id)
        ||| match g.role_id {
            Some(r) => self.spec_has_role(user_id, r),
            None => false,
        }
    }

    /// Whether a grant row satisfies a type-wide check: it reaches the user,
    /// intersects the requested operations, and covers all instances.
    pub open spec fn grant_allows_all(self, g: Grant, ops: Operations, user_id: i64) -> bool {
        &&& self.grant_applies(g, user_id)
        &&& g.permission.spec_intersects(ops)
        &&& g.resource_id is None
    }

    /// Whether a grant row satisfies an instance-scoped check: it reaches the
    /// user, intersects the requested operations, and covers the instance,
    /// either by naming it or by covering all instances.
    pub open spec fn grant_allows_id(
        self,
        g: Grant,
        resource_id: i64,
        ops: Operations,
        user_id: i64,
    ) -> bool {
        &&& self.grant_applies(g, user_id)
        &&& g.permission.spec_intersects(ops)
        &&& (g.resource_id is None || g.resource_id == Some(resource_id))
    }

    /// The type-wide check: some grant row of the kind allows all instances.
    pub open spec fn spec_has_permissions_all(self, ty: Type, ops: Operations, user_id: i64) -> bool {
        exists|i: int|
            0 <= i < self.grants(ty).len() && self.grant_allows_all(
                #[trigger] self.grants(ty)[i],
                ops,
                user_id,
            )
    }

    /// The instance-scoped check: some grant row of the kind covers the
    /// instance.
    pub open spec fn spec_has_permissions_id(
        self,
        ty: Type,
        resource_id: i64,
        ops: Operations,
        user_id: i64,
    ) -> bool {
        exists|i: int|
            0 <= i < self.grants(ty).len() && self.grant_allows_id(
                #[trigger] self.grants(ty)[i],
                resource_id,
                ops,
                user_id,
            )
    }

    /// Whether a role row with this id exists.
    pub open spec fn spec_role_exists(self, role_id: i64) -> bool {
        exists|i: int| 0 <= i < self.roles@.len() && (#[trigger] self.roles@[i]).role_id == role_id
    }

    /// The backing group of the role with this id, if the role exists. Under
    /// `wf` the row with the id is unique, so the value is determined.
    pub open spec fn spec_role_group(self, role_id: i64) -> Option<i64> {
        if self.spec_role_exists(role_id) {
            self.roles@[choose|i: int|
                0 <= i < self.roles@.len() && (#[trigger] self.roles@[i]).role_id == role_id].group
        } else {
            None
        }
    }

    /// Whether a group row with this id exists.
    pub open spec fn spec_group_exists(self, group_id: i64) -> bool {
        exists|i: int|
            0 <= i < self.groups@.len() && (#[trigger] self.groups@[i]).group_id == group_id
    }

    /// Whether a role row carries this name.
    pub open spec fn spec_role_name_taken(self, name: Seq<char>) -> bool {
        exists|i: int| 0 <= i < self.roles@.len() && (#[trigger] self.roles@[i]).name@ == name
    }

    /// Whether a group row carries this name.
    pub open spec fn spec_group_name_taken(self, name: Seq<char>) -> bool {
        exists|i: int| 0 <= i < self.groups@.len() && (#[trigger] self.groups@[i]).name@ == name
    }

    /// The two stores hold the same grant tables.
    pub open spec fn same_grants(self, other: Store) -> bool {
        &&& self.user_permissions@ == other.user_permissions@
        &&& self.role_permissions@ == other.role_permissions@
        &&& self.group_permissions@ == other.group_permissions@
        &&& self.file_permissions@ == other.file_permissions@
        &&& self.course_permissions@ == other.course_permissions@
        &&& self.template_permissions@ == other.template_permissions@
    }

    /// The two stores hold the same role and group rows and id sequences.
    pub open spec fn same_catalog(self, other: Store) -> bool {
        &&& self.roles@ == other.roles@
        &&& self.groups@ == other.groups@
        &&& self.next_role_id == other.next_role_id
        &&& self.next_group_id == other.next_group_id
    }

    /// Whether the user holds the role, by scanning the relation.
    pub fn has_role(&self, user_id: i64, role_id: i64) -> (r: bool)
        ensures
            r == self.spec_has_role(user_id, role_id),
    {
        let target = UserRole { user_id, role_id };
        let mut i: usize = 0;
        while i < self.user_has_role.len()
            invariant
                0 <= i <= self.user_has_role@.len(),
                target == (UserRole { user_id, role_id }),
                forall|j: int| 0 <= j < i ==> self.user_has_role@[j] != target,
            decreases self.user_has_role@.len() - i,
        {
            if self.user_has_role[i] == target {
                assert(self.user_has_role@[i as int] == target);
                return true;
            }
            i += 1;
        }
        assert(!self.user_has_role@.contains(target));
        false
    }

    /// Whether the user is a member of the group, by scanning the relation.
    pub fn in_group(&self, user_id: i64, group_id: i64) -> (r: bool)
        ensures
            r == self.spec_in_group(user_id, group_id),
    {
        let target = UserGroup { user_id, group_id };
        let mut i: usize = 0;
        while i < self.user_in_group.len()
            invariant
                0 <= i <= self.user_in_group@.len(),
                target == (UserGroup { user_id, group_id }),
                forall|j: int| 0 <= j < i ==> self.user_in_group@[j] != target,
            decreases self.user_in_group@.len() - i,
        {
            if self.user_in_group[i] == target {
                assert(self.user_in_group@[i as int] == target);
                return true;
            }
            i += 1;
        }
        assert(!self.user_in_group@.contains(target));
        false
    }

    /// Whether a grant row reaches the user.
    fn applies(&self, g: &Grant, user_id: i64) -> (r: bool)
        ensures
            r == self.grant_applies(*g, user_id),
    {
        let direct = match g.user_id {
            Some(u) => u == user_id,
            None => false,
        };
        if direct {
            return true;
        }
        match g.role_id {
            Some(r) => self.has_role(user_id, r),
            None => false,
        }
    }

    /// The type-wide check: true iff some grant row of the kind reaches the
    /// user, intersects `operations`, and has no resource id. This decides
    /// whether the user may act on the kind as a whole, with no regard to a
    /// particular instance.
    pub fn user_has_permissions_all(
        &self,
        resource_type: Type,
        operations: Operations,
        user_id: i64,
    ) -> (r: bool)
        ensures
            r == self.spec_has_permissions_all(resource_type, operations, user_id),
    {
        let grants = self.grants_ref(resource_type);
        let mut i: usize = 0;
        while i < grants.len()
            invariant
                0 <= i <= grants@.len(),
                grants@ == self.grants(resource_type),
                forall|j: int|
                    0 <= j < i ==> !self.grant_allows_all(grants@[j], operations, user_id),
            decreases grants@.len() - i,
        {
            let g = &grants[i];
            if g.resource_id.is_none() && g.permission.intersects(&operations) && self.applies(
                g,
                user_id,
            ) {
                assert(self.grant_allows_all(self.grants(resource_type)[i as int], operations, user_id));
                return true;
            }
            i += 1;
        }
        false
    }

    /// The instance-scoped check: true iff some grant row of the kind reaches
    /// the user, intersects `operations`, and covers the instance — by naming
    /// it, or by a type-wide row with no resource id. Type-wide rows are a
    /// superset that satisfies every instance check.
    pub fn user_has_permissions_id(
        &self,
        resource_type: Type,
        resource_id: i64,
        operations: Operations,
        user_id: i64,
    ) -> (r: bool)
        ensures
            r == self.spec_has_permissions_id(resource_type, resource_id, operations, user_id),
    {
        let grants = self.grants_ref(resource_type);
        let mut i: usize = 0;
        while i < grants.len()
            invariant
                0 <= i <= grants@.len(),
                grants@ == self.grants(resource_type),
                forall|j: int|
                    0 <= j < i ==> !self.grant_allows_id(
                        grants@[j],
                        resource_id,
                        operations,
                        user_id,
                    ),
            decreases grants@.len() - i,
        {
            let g = &grants[i];
            let covers = match g.resource_id {
                Some(rid) => rid == resource_id,
                None => true,
            };
            if covers && g.permission.intersects(&operations) && self.applies(g, user_id) {
                assert(self.grant_allows_id(
                    self.grants(resource_type)[i as int],
                    resource_id,
                    operations,
                    user_id,
                ));
                return true;
            }
            i += 1;
        }
        false
    }

    /// Whether the user may create instances of the kind. Creation has no
    /// existing instance to scope to, so this is the type-wide check with the
    /// create bit.
    pub fn can_create(&self, resource_type: Type, user_id: i64) -> (r: bool)
        ensures
            r == self.spec_has_permissions_all(resource_type, Operations(CREATE_MASK), user_id),
    {
        self.user_has_permissions_all(resource_type, Operations::create(), user_id)
    }

    /// Whether the user may update instances of the kind as a whole.
    pub fn can_update(&self, resource_type: Type, user_id: i64) -> (r: bool)
        ensures
            r == self.spec_has_permissions_all(resource_type, Operations(UPDATE_MASK), user_id),
    {
        self.user_has_permissions_all(resource_type, Operations::update(), user_id)
    }

    /// Whether the user may delete instances of the kind as a whole.
    pub fn can_delete(&self, resource_type: Type, user_id: i64) -> (r: bool)
        ensures
            r == self.spec_has_permissions_all(resource_type, Operations(DELETE_MASK), user_id),
    {
        self.user_has_permissions_all(resource_type, Operations::delete(), user_id)
    }

    /// Whether some grant row of the kind names the instance and reaches the
    /// user with an intersecting mask. These are the ids a listing restricted
    /// to the user may show.
    pub open spec fn spec_permitted_id(
        self,
        ty: Type,
        ops: Operations,
        user_id: i64,
        resource_id: i64,
    ) -> bool {
        exists|i: int|
            0 <= i < self.grants(ty).len() && {
                let g = #[trigger] self.grants(ty)[i];
                &&& g.resource_id == Some(resource_id)
                &&& self.grant_applies(g, user_id)
                &&& g.permission.spec_intersects(ops)
            }
    }

    /// The distinct instance ids of the kind that some grant row names for
    /// this user with an intersecting mask.
    pub fn get_permitted_ids(
        &self,
        resource_type: Type,
        operations: Operations,
        user_id: i64,
    ) -> (r: Vec<i64>)
        ensures
            forall|id: i64| #[trigger]
                r@.contains(id) == self.spec_permitted_id(resource_type, operations, user_id, id),
            forall|i: int, j: int| 0 <= i < j < r@.len() ==> r@[i] != r@[j],
    {
        let grants = self.grants_ref(resource_type);
        let mut result: Vec<i64> = Vec::new();
        let mut i: usize = 0;
        while i < grants.len()
            invariant
                0 <= i <= grants@.len(),
                grants@ == self.grants(resource_type),
                forall|a: int, b: int| 0 <= a < b < result@.len() ==> result@[a] != result@[b],
                forall|id: i64| #[trigger]
                    result@.contains(id) == exists|j: int|
                        0 <= j < i && {
                            let g = #[trigger] self.grants(resource_type)[j];
                            &&& g.resource_id == Some(id)
                            &&& self.grant_applies(g, user_id)
                            &&& g.permission.spec_intersects(operations)
                        },
            decreases grants@.len() - i,
        {
            let g = &grants[i];
            let named: Option<i64> = if g.permission.intersects(&operations) && self.applies(
                g,
                user_id,
            ) {
                g.resource_id
            } else {
                None
            };
            if let Some(id) = named {
                if !contains_i64(&result, id) {
                    let ghost pre = result@;
                    result.push(id);
                    proof {
                        assert forall|y: i64| #[trigger] result@.contains(y) implies pre.contains(y)
                            || y == id by {
                            let k = choose|k: int| 0 <= k < result@.len() && result@[k] == y;
                            if k < pre.len() {
                                assert(pre[k] == y);
                            }
                        }
                        assert(forall|y: i64|
                            pre.contains(y) ==> #[trigger] result@.contains(y)) by {
                            assert(forall|k: int|
                                0 <= k < pre.len() ==> result@[k] == pre[k]);
                        }
                        assert(result@.contains(id)) by {
                            assert(result@[pre.len() as int] == id);
                        }
                    }
                }
            }
            i += 1;
        }
        result
    }
}

/// Whether the vector holds the value.
pub fn contains_i64(v: &Vec<i64>, x: i64) -> (r: bool)
    ensures
        r == v@.contains(x),
{
    let mut i: usize = 0;
    while i < v.len()
        invariant
            0 <= i <= v@.len(),
            forall|j: int| 0 <= j < i ==> v@[j] != x,
        decreases v@.len() - i,
    {
        if v[i] == x {
            assert(v@[i as int] == x);
            return true;
        }
        i += 1;
    }
    assert(!v@.contains(x));
    false
}

} // verus!
