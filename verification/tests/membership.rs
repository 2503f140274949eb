use noodle::grants::{Grant, GroupKind, GroupRow, ResourceCreateError, RoleRow, UserGroup, UserRole};
use noodle::ops::Operations;
use noodle::store::Store;

fn store_with_role(name: &str) -> (Store, i64) {
    let mut store = Store::new();
    let role_id = store
        .create_role(String::from(name), Vec::new())
        .expect("fresh name");
    (store, role_id)
}

fn count_user_role(store: &Store, user_id: i64, role_id: i64) -> usize {
    store
        .user_has_role
        .iter()
        .filter(|r| r.user_id == user_id && r.role_id == role_id)
        .count()
}

fn count_user_group(store: &Store, user_id: i64, group_id: i64) -> usize {
    store
        .user_in_group
        .iter()
        .filter(|g| g.user_id == user_id && g.group_id == group_id)
        .count()
}

/// Creating a role creates its backing group with it, atomically.
#[test]
fn create_role_creates_backing_group() {
    let (store, role_id) = store_with_role("admin");
    assert_eq!(store.roles.len(), 1);
    assert_eq!(store.groups.len(), 1);
    let role = &store.roles[0];
    let group = &store.groups[0];
    assert_eq!(role.role_id, role_id);
    assert_eq!(role.name, "admin");
    assert_eq!(role.group, Some(group.group_id));
    assert_eq!(group.name, "admin");
    assert!(matches!(group.kind, GroupKind::Role));
    assert!(group.parent.is_none());
}

/// A colliding role name is a conflict and leaves the store unchanged.
#[test]
fn create_role_name_collision_is_conflict() {
    let (mut store, _) = store_with_role("admin");
    let before_roles = store.roles.len();
    let before_groups = store.groups.len();
    let r = store.create_role(String::from("admin"), Vec::new());
    assert_eq!(r, Err(ResourceCreateError::Conflict));
    assert_eq!(store.roles.len(), before_roles);
    assert_eq!(store.groups.len(), before_groups);
}

/// Assigning a role makes the user a member of the role's group; doing it
/// again changes nothing — exactly one copy of each row.
#[test]
fn assign_role_is_idempotent() {
    let (mut store, role_id) = store_with_role("staff");
    let group_id = store.roles[0].group.unwrap();
    let user = 5;
    store.assign_roles(user, &vec![role_id]).expect("role exists");
    store.assign_roles(user, &vec![role_id]).expect("role exists");
    assert_eq!(count_user_role(&store, user, role_id), 1);
    assert_eq!(count_user_group(&store, user, group_id), 1);
}

/// Unassigning removes the role row and the group row together.
#[test]
fn unassign_roles_removes_both_rows() {
    let (mut store, role_id) = store_with_role("staff");
    let group_id = store.roles[0].group.unwrap();
    let user = 5;
    store.assign_roles(user, &vec![role_id]).expect("role exists");
    assert_eq!(count_user_role(&store, user, role_id), 1);
    assert_eq!(count_user_group(&store, user, group_id), 1);
    store.unassign_roles(user, &vec![role_id]);
    assert_eq!(count_user_role(&store, user, role_id), 0);
    assert_eq!(count_user_group(&store, user, group_id), 0);
}

/// A role set with an unknown role assigns nothing at all.
#[test]
fn assign_roles_is_atomic() {
    let (mut store, role_id) = store_with_role("staff");
    let user = 5;
    let r = store.assign_roles(user, &vec![role_id, 9999]);
    assert_eq!(r, Err(ResourceCreateError::Store));
    assert_eq!(count_user_role(&store, user, role_id), 0);
    assert!(store.user_in_group.is_empty());
}

/// An empty role set is malformed.
#[test]
fn assign_roles_rejects_empty_set() {
    let (mut store, _) = store_with_role("staff");
    assert_eq!(store.assign_roles(5, &vec![]), Err(ResourceCreateError::BadParam));
}

/// Replacing the role set swaps membership and group membership together,
/// and keeps group memberships that did not come from a role.
#[test]
fn replace_roles_swaps_memberships() {
    let mut store = Store::new();
    let first = store.create_role(String::from("first"), Vec::new()).unwrap();
    let second = store.create_role(String::from("second"), Vec::new()).unwrap();
    let first_group = store.roles[0].group.unwrap();
    let second_group = store.roles[1].group.unwrap();
    // a plain group, joined directly
    let plain = GroupRow {
        group_id: 100,
        name: String::from("plain"),
        shortname: String::from("p"),
        kind: GroupKind::Contact,
        parent: None,
    };
    store.next_group_id = 101;
    store.groups.push(plain);
    let user = 6;
    store.add_to_groups(user, &vec![100]).expect("group exists");
    store.assign_roles(user, &vec![first]).expect("role exists");

    store.replace_roles(user, &vec![second]).expect("role exists");
    assert_eq!(count_user_role(&store, user, first), 0);
    assert_eq!(count_user_role(&store, user, second), 1);
    assert_eq!(count_user_group(&store, user, first_group), 0);
    assert_eq!(count_user_group(&store, user, second_group), 1);
    // the direct membership survived the replacement
    assert_eq!(count_user_group(&store, user, 100), 1);
}

/// Adding users to a role gives each the role and its group.
#[test]
fn role_add_users_adds_both_rows() {
    let (mut store, role_id) = store_with_role("staff");
    let group_id = store.roles[0].group.unwrap();
    store.role_add_users(role_id, &vec![1, 2]).expect("role exists");
    for user in [1, 2] {
        assert_eq!(count_user_role(&store, user, role_id), 1);
        assert_eq!(count_user_group(&store, user, group_id), 1);
    }
    assert_eq!(
        store.role_add_users(9999, &vec![1]),
        Err(ResourceCreateError::NotFound)
    );
}

/// Replacing a role's users swaps who holds it — and only the role's own
/// group membership, not the removed users' other groups.
#[test]
fn role_replace_users_keeps_other_groups() {
    let (mut store, role_id) = store_with_role("staff");
    let group_id = store.roles[0].group.unwrap();
    store.groups.push(GroupRow {
        group_id: 200,
        name: String::from("other"),
        shortname: String::from("o"),
        kind: GroupKind::Learning,
        parent: None,
    });
    store.next_group_id = 201;
    store.role_add_users(role_id, &vec![1]).expect("role exists");
    store.add_to_groups(1, &vec![200]).expect("group exists");

    store.role_replace_users(role_id, &vec![2]).expect("role exists");
    assert_eq!(count_user_role(&store, 1, role_id), 0);
    assert_eq!(count_user_group(&store, 1, group_id), 0);
    assert_eq!(count_user_group(&store, 1, 200), 1);
    assert_eq!(count_user_role(&store, 2, role_id), 1);
    assert_eq!(count_user_group(&store, 2, group_id), 1);
}

/// Removing users from a role removes the role's group membership with it.
#[test]
fn role_delete_users_removes_both_rows() {
    let (mut store, role_id) = store_with_role("staff");
    let group_id = store.roles[0].group.unwrap();
    store.role_add_users(role_id, &vec![1, 2]).expect("role exists");
    store.role_delete_users(role_id, &vec![1]);
    assert_eq!(count_user_role(&store, 1, role_id), 0);
    assert_eq!(count_user_group(&store, 1, group_id), 0);
    assert_eq!(count_user_role(&store, 2, role_id), 1);
    assert_eq!(count_user_group(&store, 2, group_id), 1);
}

/// The raw group relation: add, remove, replace.
#[test]
fn group_membership_roundtrip() {
    let mut store = Store::new();
    store.groups.push(GroupRow {
        group_id: 1,
        name: String::from("g1"),
        shortname: String::from("g1"),
        kind: GroupKind::Organization,
        parent: None,
    });
    store.groups.push(GroupRow {
        group_id: 2,
        name: String::from("g2"),
        shortname: String::from("g2"),
        kind: GroupKind::Learning,
        parent: Some(1),
    });
    store.next_group_id = 3;
    let user = 8;
    store.add_to_groups(user, &vec![1, 2]).expect("groups exist");
    assert_eq!(count_user_group(&store, user, 1), 1);
    assert_eq!(count_user_group(&store, user, 2), 1);
    store.remove_from_groups(user, &vec![1]);
    assert_eq!(count_user_group(&store, user, 1), 0);
    assert_eq!(count_user_group(&store, user, 2), 1);
    store.replace_groups(user, &vec![1]).expect("group exists");
    assert_eq!(count_user_group(&store, user, 1), 1);
    assert_eq!(count_user_group(&store, user, 2), 0);
    assert_eq!(
        store.add_to_groups(user, &vec![999]),
        Err(ResourceCreateError::Store)
    );
    assert_eq!(
        store.replace_groups(user, &vec![]),
        Err(ResourceCreateError::BadParam)
    );
}

/// The group-side user management: add, replace, delete.
#[test]
fn group_user_management() {
    let mut store = Store::new();
    store.groups.push(GroupRow {
        group_id: 1,
        name: String::from("g1"),
        shortname: String::from("g1"),
        kind: GroupKind::Organization,
        parent: None,
    });
    store.next_group_id = 2;
    store.group_add_users(1, &vec![10, 11]).expect("group exists");
    assert_eq!(count_user_group(&store, 10, 1), 1);
    assert_eq!(count_user_group(&store, 11, 1), 1);
    store.group_replace_users(1, &vec![12]).expect("group exists");
    assert_eq!(count_user_group(&store, 10, 1), 0);
    assert_eq!(count_user_group(&store, 11, 1), 0);
    assert_eq!(count_user_group(&store, 12, 1), 1);
    store.group_delete_users(1, &vec![12]);
    assert_eq!(count_user_group(&store, 12, 1), 0);
    assert_eq!(
        store.group_add_users(999, &vec![1]),
        Err(ResourceCreateError::NotFound)
    );
}

/// The permission-gated constructors: denied without a create grant,
/// conflicting on a taken name, inserting with fresh ids otherwise.
#[test]
fn create_in_db_checks_permissions_and_names() {
    let mut store = Store::new();
    let admin = 1;
    let denied = RoleRow::create_in_db(&mut store, String::from("staff"), Vec::new(), None, admin);
    assert_eq!(denied, Err(ResourceCreateError::AccessDenied));
    store.role_permissions.push(Grant {
        role_id: None,
        user_id: Some(admin),
        resource_id: None,
        permission: Operations::create(),
    });
    store.group_permissions.push(Grant {
        role_id: None,
        user_id: Some(admin),
        resource_id: None,
        permission: Operations::create(),
    });
    let role_id = RoleRow::create_in_db(&mut store, String::from("staff"), Vec::new(), None, admin)
        .expect("granted and fresh");
    assert_eq!(store.roles.len(), 1);
    assert_eq!(store.roles[0].role_id, role_id);
    assert_eq!(
        RoleRow::create_in_db(&mut store, String::from("staff"), Vec::new(), None, admin),
        Err(ResourceCreateError::Conflict)
    );
    let group_id = GroupRow::create_in_db(
        &mut store,
        String::from("east"),
        String::from("e"),
        GroupKind::Organization,
        None,
        admin,
    )
    .expect("granted and fresh");
    assert_eq!(store.groups.len(), 1);
    assert_eq!(store.groups[0].group_id, group_id);
    assert_eq!(
        GroupRow::create_in_db(
            &mut store,
            String::from("east"),
            String::from("e"),
            GroupKind::Learning,
            None,
            admin,
        ),
        Err(ResourceCreateError::Conflict)
    );
}

/// The collectors report exactly the relation rows.
#[test]
fn collectors_report_membership() {
    let (mut store, role_id) = store_with_role("staff");
    let group_id = store.roles[0].group.unwrap();
    store.role_add_users(role_id, &vec![1, 2]).expect("role exists");
    let mut users = store.users_of_role(role_id);
    users.sort();
    assert_eq!(users, vec![1, 2]);
    assert_eq!(store.roles_of_user(1), vec![role_id]);
    assert_eq!(store.groups_of_user(1), vec![group_id]);
    let mut members = store.users_of_group(group_id);
    members.sort();
    assert_eq!(members, vec![1, 2]);
    assert!(store.users_of_role(9999).is_empty());
}

/// Equality of relation rows is by fields.
#[test]
fn relation_rows_compare_by_fields() {
    assert_eq!(UserRole { user_id: 1, role_id: 2 }, UserRole { user_id: 1, role_id: 2 });
    assert_ne!(UserRole { user_id: 1, role_id: 2 }, UserRole { user_id: 2, role_id: 1 });
    assert_eq!(UserGroup { user_id: 1, group_id: 2 }, UserGroup { user_id: 1, group_id: 2 });
}

/// Deleting a role deletes its backing group, both membership relations'
/// rows for it, and nothing else.
#[test]
fn delete_role_deletes_backing_group() {
    let mut store = Store::new();
    let staff = store.create_role(String::from("staff"), Vec::new()).unwrap();
    let other = store.create_role(String::from("other"), Vec::new()).unwrap();
    let staff_group = store.roles[0].group.unwrap();
    let other_group = store.roles[1].group.unwrap();
    store.assign_roles(1, &vec![staff, other]).expect("roles exist");

    store.delete_role(staff).expect("role exists");
    assert_eq!(store.roles.len(), 1);
    assert_eq!(store.roles[0].role_id, other);
    assert_eq!(store.groups.len(), 1);
    assert_eq!(store.groups[0].group_id, other_group);
    assert_eq!(count_user_role(&store, 1, staff), 0);
    assert_eq!(count_user_group(&store, 1, staff_group), 0);
    assert_eq!(count_user_role(&store, 1, other), 1);
    assert_eq!(count_user_group(&store, 1, other_group), 1);
    assert_eq!(store.delete_role(staff), Err(ResourceCreateError::NotFound));
}

/// Deleting a group removes every membership in it.
#[test]
fn delete_group_removes_memberships() {
    let mut store = Store::new();
    store.groups.push(GroupRow {
        group_id: 1,
        name: String::from("g1"),
        shortname: String::from("g1"),
        kind: GroupKind::Organization,
        parent: None,
    });
    store.next_group_id = 2;
    store.group_add_users(1, &vec![10, 11]).expect("group exists");
    store.delete_group(1);
    assert!(store.groups.is_empty());
    assert!(store.user_in_group.is_empty());
}

/// Updating a role renames its backing group with it, atomically, and a
/// name held by another role is a conflict.
#[test]
fn update_role_renames_backing_group() {
    let mut store = Store::new();
    let staff = store.create_role(String::from("staff"), Vec::new()).unwrap();
    let other = store.create_role(String::from("other"), Vec::new()).unwrap();
    let staff_group = store.roles[0].group.unwrap();

    store
        .update_role(staff, String::from("faculty"), Vec::new())
        .expect("fresh name");
    assert_eq!(store.roles[0].name, "faculty");
    assert_eq!(store.roles[0].group, Some(staff_group));
    assert_eq!(store.groups[0].name, "faculty");
    assert_eq!(
        store.update_role(staff, String::from("other"), Vec::new()),
        Err(ResourceCreateError::Conflict)
    );
    assert_eq!(
        store.update_role(9999, String::from("x"), Vec::new()),
        Err(ResourceCreateError::NotFound)
    );
    let _ = other;
}

/// Updating a group changes name, kind and parent; the short name stays.
#[test]
fn update_group_keeps_shortname() {
    let mut store = Store::new();
    store.groups.push(GroupRow {
        group_id: 1,
        name: String::from("g1"),
        shortname: String::from("s1"),
        kind: GroupKind::Organization,
        parent: None,
    });
    store.groups.push(GroupRow {
        group_id: 2,
        name: String::from("g2"),
        shortname: String::from("s2"),
        kind: GroupKind::Learning,
        parent: None,
    });
    store.next_group_id = 3;
    store
        .update_group(1, String::from("east"), GroupKind::Contact, Some(2))
        .expect("valid update");
    assert_eq!(store.groups[0].name, "east");
    assert_eq!(store.groups[0].shortname, "s1");
    assert!(matches!(store.groups[0].kind, GroupKind::Contact));
    assert_eq!(store.groups[0].parent, Some(2));
    assert_eq!(
        store.update_group(1, String::from("x"), GroupKind::Contact, Some(999)),
        Err(ResourceCreateError::BadParam)
    );
    assert_eq!(
        store.update_group(999, String::from("x"), GroupKind::Contact, None),
        Err(ResourceCreateError::NotFound)
    );
    assert_eq!(
        store.update_group(1, String::from("g2"), GroupKind::Contact, None),
        Err(ResourceCreateError::Store)
    );
}
