//! Laws of the permission resolver, proved once against the store's
//! specification. The executable checks in `store` are proved equal to the
//! same spec predicates, so each law carries over to what the code returns.

use vstd::prelude::*;

use crate::grants::{UserGroup, UserRole};
use crate::ops::Operations;
use crate::resources::Type;
use crate::store::Store;

verus! {

/// A grant row with no resource id grants the type-wide check to its
/// subject for every operation set that intersects its mask: to the user it
/// names directly, or to every holder of the role it names.
pub proof fn lemma_type_wide_grant_allows_all(
    s: Store,
    ty: Type,
    i: int,
    ops: Operations,
    user_id: i64,
)
    requires
        0 <= i < s.grants(ty).len(),
        s.grants(ty)[i].resource_id is None,
        s.grants(ty)[i].permission.spec_intersects(ops),
        s.grant_applies(s.grants(ty)[i], user_id),
    ensures
        s.spec_has_permissions_all(ty, ops, user_id),
{
    assert(s.grant_allows_all(s.grants(ty)[i], ops, user_id));
}

/// A grant row that names a resource instance grants the instance-scoped
/// check for that instance to its subject, for every operation set that
/// intersects its mask.
pub proof fn lemma_instance_grant_allows_id(
    s: Store,
    ty: Type,
    i: int,
    resource_id: i64,
    ops: Operations,
    user_id: i64,
)
    requires
        0 <= i < s.grants(ty).len(),
        s.grants(ty)[i].resource_id == Some(resource_id),
        s.grants(ty)[i].permission.spec_intersects(ops),
        s.grant_applies(s.grants(ty)[i], user_id),
    ensures
        s.spec_has_permissions_id(ty, resource_id, ops, user_id),
{
    assert(s.grant_allows_id(s.grants(ty)[i], resource_id, ops, user_id));
}

/// The wildcard subsumes every scoped check: a user who passes the
/// type-wide check passes the instance-scoped check for every instance of
/// the type.
pub proof fn lemma_type_wide_subsumes_id(s: Store, ty: Type, ops: Operations, user_id: i64)
    requires
        s.spec_has_permissions_all(ty, ops, user_id),
    ensures
        forall|resource_id: i64| s.spec_has_permissions_id(ty, resource_id, ops, user_id),
{
    let i = choose|i: int|
        0 <= i < s.grants(ty).len() && s.grant_allows_all(#[trigger] s.grants(ty)[i], ops, user_id);
    assert forall|resource_id: i64| s.spec_has_permissions_id(ty, resource_id, ops, user_id) by {
        assert(s.grant_allows_id(s.grants(ty)[i], resource_id, ops, user_id));
    }
}

/// The resolver fails closed: a user whom no grant row of the kind names
/// directly and who holds no role is denied the type-wide check, the
/// instance-scoped check for every instance, and every permitted-ids entry,
/// whatever operations are asked for.
pub proof fn lemma_no_grants_no_roles_denied(s: Store, ty: Type, ops: Operations, user_id: i64)
    requires
        forall|j: int|
            0 <= j < s.user_has_role@.len() ==> (#[trigger] s.user_has_role@[j]).user_id
                != user_id,
        forall|i: int| 0 <= i < s.grants(ty).len() ==> (#[trigger] s.grants(ty)[i]).user_id
            != Some(user_id),
    ensures
        !s.spec_has_permissions_all(ty, ops, user_id),
        forall|resource_id: i64| !s.spec_has_permissions_id(ty, resource_id, ops, user_id),
        forall|resource_id: i64| !s.spec_permitted_id(ty, ops, user_id, resource_id),
{
    assert forall|i: int| 0 <= i < s.grants(ty).len() implies !s.grant_applies(
        #[trigger] s.grants(ty)[i],
        user_id,
    ) by {
        let g = s.grants(ty)[i];
        if g.user_id == Some(user_id) {
            assert(false);
        }
        match g.role_id {
            Some(r) => {
                if s.spec_has_role(user_id, r) {
                    let k = choose|k: int|
                        0 <= k < s.user_has_role@.len() && s.user_has_role@[k] == (UserRole {
                            user_id,
                            role_id: r,
                        });
                    assert(s.user_has_role@[k].user_id == user_id);
                }
            },
            None => {},
        }
    }
}

/// A well-formed store holds at most one copy of any membership row:
/// however often a role or group is assigned, a user is a member of exactly
/// one copy of it or of none.
pub proof fn lemma_single_membership_row(s: Store, user_id: i64, role_id: i64, group_id: i64)
    requires
        s.wf(),
    ensures
        forall|i: int, j: int|
            0 <= i < j < s.user_has_role@.len() ==> !(s.user_has_role@[i] == (UserRole {
                user_id,
                role_id,
            }) && s.user_has_role@[j] == (UserRole { user_id, role_id })),
        forall|i: int, j: int|
            0 <= i < j < s.user_in_group@.len() ==> !(s.user_in_group@[i] == (UserGroup {
                user_id,
                group_id,
            }) && s.user_in_group@[j] == (UserGroup { user_id, group_id })),
{
}

} // verus!

