//! Reads that combine membership with permission checks: which of a user's
//! roles and groups another user is allowed to see. A row is visible when
//! the requesting user passes the instance-scoped read check for it — by a
//! grant on that row or by a type-wide one.

use vstd::prelude::*;

use crate::grants::{GroupRow, RoleRow, UserGroup, UserRole};
use crate::ops::{Operations, READ_MASK};
use crate::resources::Type;
use crate::store::Store;

verus! {

impl RoleRow {
    /// The ids of the target user's roles that the requesting user may
    /// read.
    pub fn from_user_id(store: &Store, requesting_user_id: i64, target_user_id: i64) -> (r: Vec<
        i64,
    >)
        requires
            store.wf(),
        ensures
            forall|rid: i64| #[trigger]
                r@.contains(rid) == (store.spec_role_exists(rid) && store.spec_has_role(
                    target_user_id,
                    rid,
                ) && store.spec_has_permissions_id(
                    Type::Role,
                    rid,
                    Operations(READ_MASK),
                    requesting_user_id,
                )),
            forall|a: int, b: int| 0 <= a < b < r@.len() ==> r@[a] != r@[b],
    {
        let mut out: Vec<i64> = Vec::new();
        let mut i: usize = 0;
        while i < store.roles.len()
            invariant
                0 <= i <= store.roles@.len(),
                store.wf(),
                forall|a: int, b: int| 0 <= a < b < out@.len() ==> out@[a] != out@[b],
                forall|rid: i64| #[trigger]
                    out@.contains(rid) == ((exists|j: int|
                        0 <= j < i && (#[trigger] store.roles@[j]).role_id == rid)
                        && store.spec_has_role(target_user_id, rid) && store.spec_has_permissions_id(
                        Type::Role,
                        rid,
                        Operations(READ_MASK),
                        requesting_user_id,
                    )),
            decreases store.roles@.len() - i,
        {
            let rid = store.roles[i].role_id;
            proof {
                assert(store.roles@[i as int].role_id == rid);
            }
            if store.has_role(target_user_id, rid) && store.user_has_permissions_id(
                Type::Role,
                rid,
                Operations::read(),
                requesting_user_id,
            ) {
                let ghost pre = out@;
                proof {
                    if pre.contains(rid) {
                        let j = choose|j: int|
                            0 <= j < i && (#[trigger] store.roles@[j]).role_id == rid;
                        assert(store.roles@[j].role_id == store.roles@[i as int].role_id);
                        assert(false);
                    }
                }
                out.push(rid);
                proof {
                    crate::membership::lemma_push_contains(pre, rid);
                    assert forall|a: int, b: int|
                        0 <= a < b < out@.len() implies out@[a] != out@[b] by {
                        if b == pre.len() {
                            assert(out@[b] == rid);
                            assert(pre[a] == out@[a]);
                            assert(pre.contains(pre[a]));
                        }
                    }
                }
            }
            i += 1;
        }
        out
    }
}

impl GroupRow {
    /// The ids of the target user's groups that the requesting user may
    /// read.
    pub fn from_user_id(store: &Store, requesting_user_id: i64, target_user_id: i64) -> (r: Vec<
        i64,
    >)
        requires
            store.wf(),
        ensures
            forall|gid: i64| #[trigger]
                r@.contains(gid) == (store.spec_group_exists(gid) && store.spec_in_group(
                    target_user_id,
                    gid,
                ) && store.spec_has_permissions_id(
                    Type::Group,
                    gid,
                    Operations(READ_MASK),
                    requesting_user_id,
                )),
            forall|a: int, b: int| 0 <= a < b < r@.len() ==> r@[a] != r@[b],
    {
        let mut out: Vec<i64> = Vec::new();
        let mut i: usize = 0;
        while i < store.groups.len()
            invariant
                0 <= i <= store.groups@.len(),
                store.wf(),
                forall|a: int, b: int| 0 <= a < b < out@.len() ==> out@[a] != out@[b],
                forall|gid: i64| #[trigger]
                    out@.contains(gid) == ((exists|j: int|
                        0 <= j < i && (#[trigger] store.groups@[j]).group_id == gid)
                        && store.spec_in_group(target_user_id, gid)
                        && store.spec_has_permissions_id(
                        Type::Group,
                        gid,
                        Operations(READ_MASK),
                        requesting_user_id,
                    )),
            decreases store.groups@.len() - i,
        {
            let gid = store.groups[i].group_id;
            proof {
                assert(store.groups@[i as int].group_id == gid);
            }
            if store.in_group(target_user_id, gid) && store.user_has_permissions_id(
                Type::Group,
                gid,
                Operations::read(),
                requesting_user_id,
            ) {
                let ghost pre = out@;
                proof {
                    if pre.contains(gid) {
                        let j = choose|j: int|
                            0 <= j < i && (#[trigger] store.groups@[j]).group_id == gid;
                        assert(store.groups@[j].group_id == store.groups@[i as int].group_id);
                        assert(false);
                    }
                }
                out.push(gid);
                proof {
                    crate::membership::lemma_push_contains(pre, gid);
                    assert forall|a: int, b: int|
                        0 <= a < b < out@.len() implies out@[a] != out@[b] by {
                        if b == pre.len() {
                            assert(out@[b] == gid);
                            assert(pre[a] == out@[a]);
                            assert(pre.contains(pre[a]));
                        }
                    }
                }
            }
            i += 1;
        }
        out
    }
}

} // verus!
