//! The closed registry of resource kinds that take part in permission
//! checks. Each kind maps to its backing table and to the SQL template that
//! an instance-scoped permission check runs. The mapping is a match over a
//! closed enumeration, so adding a kind without its table name or query is a
//! compile-time error, and no runtime string ever reaches the SQL text.

use vstd::prelude::*;

verus! {

/// A kind of permission-checkable resource.
#[derive(Clone, Copy, PartialEq, Eq, Hash, Debug, Structural)]
pub enum Type {
    User,
    Role,
    Group,
    File,
    Course,
    Template,
}

impl Type {
    /// The backing table of this resource kind.
    pub open spec fn spec_table_name(self) -> Seq<char> {
        match self {
            Type::User => "user"@,
            Type::Role => "role"@,
            Type::Group => "group"@,
            Type::File => "file"@,
            Type::Course => "course"@,
            Type::Template => "template"@,
        }
    }

    pub fn table_name(&self) -> (r: &'static str)
        ensures
            r@ == self.spec_table_name(),
    {
        match self {
            Type::User => "user",
            Type::Role => "role",
            Type::Group => "group",
            Type::File => "file",
            Type::Course => "course",
            Type::Template => "template",
        }
    }

    /// The instance-scoped permission query of this resource kind, with three
    /// placeholders: $1 the requesting user id, $2 the operation mask, $3 the
    /// resource instance id.
    pub open spec fn spec_permission_id_query(self) -> Seq<char> {
        match self {
            Type::User => "SELECT 1 FROM user_permissions LEFT JOIN user_has_role ON user_has_role.role_id = user_permissions.role_id WHERE (user_has_role.user_id = $1 OR user_permissions.user_id = $1) AND ($2::int::bit(16) & permission) <> B'0'::bit(16) AND (resource_id = $3 OR resource_id IS NULL)"@,
            Type::Role => "SELECT 1 FROM role_permissions LEFT JOIN user_has_role ON user_has_role.role_id = role_permissions.role_id WHERE (user_has_role.user_id = $1 OR role_permissions.user_id = $1) AND ($2::int::bit(16) & permission) <> B'0'::bit(16) AND (resource_id = $3 OR resource_id IS NULL)"@,
            Type::Group => "SELECT 1 FROM group_permissions LEFT JOIN user_has_role ON user_has_role.role_id = group_permissions.role_id WHERE (user_has_role.user_id = $1 OR group_permissions.user_id = $1) AND ($2::int::bit(16) & permission) <> B'0'::bit(16) AND (resource_id = $3 OR resource_id IS NULL)"@,
            Type::File => "SELECT 1 FROM file_permissions LEFT JOIN user_has_role ON user_has_role.role_id = file_permissions.role_id WHERE (user_has_role.user_id = $1 OR file_permissions.user_id = $1) AND ($2::int::bit(16) & permission) <> B'0'::bit(16) AND (resource_id = $3 OR resource_id IS NULL)"@,
            Type::Course => "SELECT 1 FROM course_permissions LEFT JOIN user_has_role ON user_has_role.role_id = course_permissions.role_id WHERE (user_has_role.user_id = $1 OR course_permissions.user_id = $1) AND ($2::int::bit(16) & permission) <> B'0'::bit(16) AND (resource_id = $3 OR resource_id IS NULL)"@,
            Type::Template => "SELECT 1 FROM template_permissions LEFT JOIN user_has_role ON user_has_role.role_id = template_permissions.role_id WHERE (user_has_role.user_id = $1 OR template_permissions.user_id = $1) AND ($2::int::bit(16) & permission) <> B'0'::bit(16) AND (resource_id = $3 OR resource_id IS NULL)"@,
        }
    }

    pub fn permission_id_query(&self) -> (r: &'static str)
        ensures
            r@ == self.spec_permission_id_query(),
    {
        match self {
            Type::User => "SELECT 1 FROM user_permissions LEFT JOIN user_has_role ON user_has_role.role_id = user_permissions.role_id WHERE (user_has_role.user_id = $1 OR user_permissions.user_id = $1) AND ($2::int::bit(16) & permission) <> B'0'::bit(16) AND (resource_id = $3 OR resource_id IS NULL)",
            Type::Role => "SELECT 1 FROM role_permissions LEFT JOIN user_has_role ON user_has_role.role_id = role_permissions.role_id WHERE (user_has_role.user_id = $1 OR role_permissions.user_id = $1) AND ($2::int::bit(16) & permission) <> B'0'::bit(16) AND (resource_id = $3 OR resource_id IS NULL)",
            Type::Group => "SELECT 1 FROM group_permissions LEFT JOIN user_has_role ON user_has_role.role_id = group_permissions.role_id WHERE (user_has_role.user_id = $1 OR group_permissions.user_id = $1) AND ($2::int::bit(16) & permission) <> B'0'::bit(16) AND (resource_id = $3 OR resource_id IS NULL)",
            Type::File => "SELECT 1 FROM file_permissions LEFT JOIN user_has_role ON user_has_role.role_id = file_permissions.role_id WHERE (user_has_role.user_id = $1 OR file_permissions.user_id = $1) AND ($2::int::bit(16) & permission) <> B'0'::bit(16) AND (resource_id = $3 OR resource_id IS NULL)",
            Type::Course => "SELECT 1 FROM course_permissions LEFT JOIN user_has_role ON user_has_role.role_id = course_permissions.role_id WHERE (user_has_role.user_id = $1 OR course_permissions.user_id = $1) AND ($2::int::bit(16) & permission) <> B'0'::bit(16) AND (resource_id = $3 OR resource_id IS NULL)",
            Type::Template => "SELECT 1 FROM template_permissions LEFT JOIN user_has_role ON user_has_role.role_id = template_permissions.role_id WHERE (user_has_role.user_id = $1 OR template_permissions.user_id = $1) AND ($2::int::bit(16) & permission) <> B'0'::bit(16) AND (resource_id = $3 OR resource_id IS NULL)",
        }
    }
}

} // verus!
