//! Rows of the permission model: grants, roles, groups, and the two
//! many-to-many relations that tie users to them. A grant row follows the
//! persisted schema of every `<type>_permissions` table: a nullable role id,
//! a nullable user id, a nullable resource id, and an operation mask. A null
//! resource id means the grant covers every instance of its resource type.

use vstd::prelude::*;

use crate::ops::Operations;
use crate::resources::Type;

verus! {

/// One row of a `<type>_permissions` table. Exactly one of `role_id` and
/// `user_id` is meant to be set; the resolver reads rows as the store does,
/// matching a row through either column that is present.
#[derive(Clone, Copy, PartialEq, Eq, Structural, Debug)]
pub struct Grant {
    pub role_id: Option<i64>,
    pub user_id: Option<i64>,
    pub resource_id: Option<i64>,
    pub permission: Operations,
}

/// A row of the `user_has_role` relation.
#[derive(Clone, Copy, PartialEq, Eq, Hash, Structural, Debug)]
pub struct UserRole {
    pub user_id: i64,
    pub role_id: i64,
}

/// A row of the `user_in_group` relation.
#[derive(Clone, Copy, PartialEq, Eq, Hash, Structural, Debug)]
pub struct UserGroup {
    pub user_id: i64,
    pub group_id: i64,
}

/// Why a store mutation was refused: an underlying store failure, a name
/// collision, malformed parameters, a denied permission check, or a missing
/// row.
#[derive(Clone, Copy, PartialEq, Eq, Structural, Debug)]
pub enum ResourceCreateError {
    Store,
    Conflict,
    BadParam,
    AccessDenied,
    NotFound,
}

/// A permission description carried by a role: a resource kind, an operation
/// mask, and optionally the instance ids it is meant to cover.
pub struct Permission {
    pub subject: Type,
    pub ops: Operations,
    pub ids: Option<Vec<String>>,
}

/// Query parameters of a listing request: whether the caller asks for
/// editable or viewable entries.
pub struct PermissionQueryParam {
    pub edit: Option<bool>,
    pub view: Option<bool>,
}

/// A role as handed out to clients.
pub struct Role {
    pub role_id: i64,
    pub name: String,
    pub permissions: Vec<Permission>,
}

/// A role row as persisted: the role and the id of its backing group.
pub struct RoleRow {
    pub role_id: i64,
    pub name: String,
    pub permissions: Vec<Permission>,
    pub group: Option<i64>,
}

/// The client-supplied part of a role.
pub struct RoleDescription {
    pub name: String,
    pub permissions: Vec<Permission>,
}

impl From<Role> for RoleDescription {
    fn from(value: Role) -> (r: RoleDescription) {
        RoleDescription { name: value.name, permissions: value.permissions }
    }
}

impl vstd::std_specs::convert::FromSpecImpl<Role> for RoleDescription {
    open spec fn obeys_from_spec() -> bool {
        true
    }

    open spec fn from_spec(value: Role) -> RoleDescription {
        RoleDescription { name: value.name, permissions: value.permissions }
    }
}

/// The kind of a group. A role's backing group has kind `Role`.
#[derive(Clone, Copy, PartialEq, Eq, Hash, Structural, Debug)]
pub enum GroupKind {
    Organization,
    Learning,
    Contact,
    Role,
}

/// A group with its parent chain resolved.
pub struct Group {
    pub group_id: i64,
    pub name: String,
    pub shortname: String,
    pub kind: GroupKind,
    pub parent: Option<Box<Group>>,
}

/// A group row as persisted: the parent, if any, by id.
pub struct GroupRow {
    pub group_id: i64,
    pub name: String,
    pub shortname: String,
    pub kind: GroupKind,
    pub parent: Option<i64>,
}

/// The client-supplied part of a group.
pub struct GroupDescription {
    pub name: String,
    pub shortname: String,
    pub kind: GroupKind,
    pub parent: Option<i64>,
}

/// The bulk insert of `user_in_group` rows from two parallel id arrays.
pub fn add_users_to_groups_query() -> (r: &'static str)
    ensures
        r@ == "INSERT INTO \"user_in_group\"(user_id, group_id) SELECT * FROM UNNEST($1::int8[], $2::int8[])"@,
{
    "INSERT INTO \"user_in_group\"(user_id, group_id) SELECT * FROM UNNEST($1::int8[], $2::int8[])"
}

/// The removal of one user's memberships in the backing groups of a set of
/// roles.
pub fn remove_user_from_role_groups_query() -> (r: &'static str)
    ensures
        r@ == "DELETE FROM \"user_in_group\" WHERE user_id = $1 AND group_id IN (SELECT \"role\".\"group\"::int8 FROM \"role\" WHERE id = ANY($2))"@,
{
    "DELETE FROM \"user_in_group\" WHERE user_id = $1 AND group_id IN (SELECT \"role\".\"group\"::int8 FROM \"role\" WHERE id = ANY($2))"
}

/// The bulk insert of a set of users into one role's backing group.
pub fn add_users_to_role_group_query() -> (r: &'static str)
    ensures
        r@ == "INSERT INTO \"user_in_group\"(user_id, group_id) SELECT uid, \"group\"::int8 FROM UNNEST($1::int8[]) AS u(uid) CROSS JOIN (SELECT \"group\" FROM \"role\" WHERE id = $2)"@,
{
    "INSERT INTO \"user_in_group\"(user_id, group_id) SELECT uid, \"group\"::int8 FROM UNNEST($1::int8[]) AS u(uid) CROSS JOIN (SELECT \"group\" FROM \"role\" WHERE id = $2)"
}

/// The bulk insert of one user into the backing groups of a set of roles.
pub fn add_user_to_role_groups_query() -> (r: &'static str)
    ensures
        r@ == "INSERT INTO \"user_in_group\"(user_id, group_id) SELECT $1::int8, \"role\".\"group\"::int8 FROM \"role\" WHERE id = ANY($2)"@,
{
    "INSERT INTO \"user_in_group\"(user_id, group_id) SELECT $1::int8, \"role\".\"group\"::int8 FROM \"role\" WHERE id = ANY($2)"
}

/// The bulk insert of `user_has_role` rows from two parallel id arrays.
pub fn add_users_to_roles_query() -> (r: &'static str)
    ensures
        r@ == "INSERT INTO \"user_has_role\"(user_id, role_id) SELECT * FROM UNNEST($1::int8[], $2::int8[])"@,
{
    "INSERT INTO \"user_has_role\"(user_id, role_id) SELECT * FROM UNNEST($1::int8[], $2::int8[])"
}

} // verus!
