use noodle::grants::{
    add_user_to_role_groups_query, add_users_to_groups_query, add_users_to_role_group_query,
    add_users_to_roles_query, remove_user_from_role_groups_query, Grant, GroupRow, RoleRow,
};
use noodle::ops::Operations;
use noodle::resources::Type;
use noodle::store::Store;

fn role_grant(role_id: i64, resource_id: Option<i64>, permission: Operations) -> Grant {
    Grant { role_id: Some(role_id), user_id: None, resource_id, permission }
}

fn user_grant(user_id: i64, resource_id: Option<i64>, permission: Operations) -> Grant {
    Grant { role_id: None, user_id: Some(user_id), resource_id, permission }
}

/// Role "admin" holds a type-wide grant on courses; a member of the role may
/// create courses and read any instance, grant row or not.
#[test]
fn admin_role_covers_every_course() {
    let mut store = Store::new();
    let admin = store
        .create_role(String::from("admin"), Vec::new())
        .expect("fresh name");
    store
        .course_permissions
        .push(role_grant(admin, None, Operations::new(true, true, true, true)));
    let user = 7;
    store.assign_roles(user, &vec![admin]).expect("role exists");

    assert!(store.can_create(Type::Course, user));
    assert!(store.user_has_permissions_id(Type::Course, 999, Operations::read(), user));
    assert!(store.user_has_permissions_all(Type::Course, Operations::delete(), user));
}

/// A user with one instance-scoped read grant may read that instance and
/// nothing else.
#[test]
fn instance_grant_is_scoped() {
    let mut store = Store::new();
    let v = 12;
    store
        .course_permissions
        .push(user_grant(v, Some(42), Operations::read()));

    assert!(store.user_has_permissions_id(Type::Course, 42, Operations::read(), v));
    assert!(!store.user_has_permissions_id(Type::Course, 43, Operations::read(), v));
    assert!(!store.can_create(Type::Course, v));
    assert!(!store.user_has_permissions_all(Type::Course, Operations::read(), v));
}

/// A user with no grants and no roles is denied everything.
#[test]
fn no_grants_denied_everywhere() {
    let mut store = Store::new();
    store
        .course_permissions
        .push(user_grant(1, None, Operations::new(true, true, true, true)));
    let stranger = 2;
    let every = Operations::new(true, true, true, true);
    assert!(!store.user_has_permissions_all(Type::Course, every, stranger));
    assert!(!store.user_has_permissions_id(Type::Course, 1, every, stranger));
    assert!(!store.user_has_permissions_all(Type::User, every, stranger));
    assert!(!store.user_has_permissions_id(Type::File, 5, every, stranger));
    assert!(!store.can_create(Type::Group, stranger));
    assert!(!store.can_update(Type::Template, stranger));
    assert!(!store.can_delete(Type::Role, stranger));
    assert!(store.get_permitted_ids(Type::Course, every, stranger).is_empty());
}

/// An empty operation set intersects nothing, so it is never granted.
#[test]
fn empty_operations_never_granted() {
    let mut store = Store::new();
    let u = 3;
    store
        .file_permissions
        .push(user_grant(u, None, Operations::new(true, true, true, true)));
    let none = Operations::new(false, false, false, false);
    assert!(!store.user_has_permissions_all(Type::File, none, u));
    assert!(!store.user_has_permissions_id(Type::File, 1, none, u));
}

/// A grant only covers its own resource type's table.
#[test]
fn grants_are_per_type() {
    let mut store = Store::new();
    let u = 4;
    store
        .course_permissions
        .push(user_grant(u, None, Operations::read()));
    assert!(store.user_has_permissions_all(Type::Course, Operations::read(), u));
    assert!(!store.user_has_permissions_all(Type::Template, Operations::read(), u));
}

/// The permitted ids are the distinct instance ids named by matching
/// grants, through either the user or a role.
#[test]
fn permitted_ids_are_distinct_and_complete() {
    let mut store = Store::new();
    let reader = store
        .create_role(String::from("reader"), Vec::new())
        .expect("fresh name");
    let u = 9;
    store.assign_roles(u, &vec![reader]).expect("role exists");
    store
        .course_permissions
        .push(user_grant(u, Some(1), Operations::read()));
    store
        .course_permissions
        .push(role_grant(reader, Some(2), Operations::read()));
    // the same id twice: reported once
    store
        .course_permissions
        .push(role_grant(reader, Some(1), Operations::read()));
    // wrong operation: not reported
    store
        .course_permissions
        .push(user_grant(u, Some(3), Operations::update()));
    // someone else's grant: not reported
    store
        .course_permissions
        .push(user_grant(77, Some(4), Operations::read()));

    let mut ids = store.get_permitted_ids(Type::Course, Operations::read(), u);
    ids.sort();
    assert_eq!(ids, vec![1, 2]);
}

/// Role and group listings show only what the requester may read.
#[test]
fn visible_roles_and_groups_respect_read_grants() {
    let mut store = Store::new();
    let open_role = store
        .create_role(String::from("lecturer"), Vec::new())
        .expect("fresh name");
    let hidden_role = store
        .create_role(String::from("examiner"), Vec::new())
        .expect("fresh name");
    let open_group = store.roles[0].group.unwrap();
    let target = 20;
    store
        .assign_roles(target, &vec![open_role, hidden_role])
        .expect("roles exist");
    let viewer = 21;
    // the viewer may read one role and one group, instance-scoped
    store
        .role_permissions
        .push(user_grant(viewer, Some(open_role), Operations::read()));
    store
        .group_permissions
        .push(user_grant(viewer, Some(open_group), Operations::read()));

    assert_eq!(RoleRow::from_user_id(&store, viewer, target), vec![open_role]);
    assert_eq!(GroupRow::from_user_id(&store, viewer, target), vec![open_group]);
    // a type-wide grant makes everything visible
    store
        .role_permissions
        .push(user_grant(viewer, None, Operations::read()));
    let mut visible = RoleRow::from_user_id(&store, viewer, target);
    visible.sort();
    let mut both = vec![open_role, hidden_role];
    both.sort();
    assert_eq!(visible, both);
}

#[test]
fn table_names_and_query_templates() {
    assert_eq!(Type::Course.table_name(), "course");
    assert_eq!(Type::User.table_name(), "user");
    assert_eq!(Type::Role.table_name(), "role");
    assert_eq!(Type::Group.table_name(), "group");
    assert_eq!(Type::File.table_name(), "file");
    assert_eq!(Type::Template.table_name(), "template");
    let q = Type::Course.permission_id_query();
    assert!(q.starts_with("SELECT 1 FROM course_permissions"));
    assert!(q.contains("$1"));
    assert!(q.contains("$2"));
    assert!(q.contains("$3"));
    assert!(q.contains("resource_id IS NULL"));
}

#[test]
fn bulk_relation_queries_use_parallel_arrays() {
    assert!(add_users_to_groups_query().contains("UNNEST($1::int8[], $2::int8[])"));
    assert!(add_users_to_roles_query().contains("user_has_role"));
    assert!(add_users_to_role_group_query().contains("CROSS JOIN"));
    assert!(add_user_to_role_groups_query().contains("ANY($2)"));
    assert!(remove_user_from_role_groups_query().starts_with("DELETE"));
}
