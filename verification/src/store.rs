//! The role-permission graph and credential store.
//!
//! [`RbacStore`] holds the five relational tables of the access-control
//! core — users, roles, permissions, and the two many-to-many assignment
//! tables — with their uniqueness and referential-integrity invariants.
//! Every operation performs its constraint checks before writing, so the
//! precise error kind of a rejected write is part of its contract.

use vstd::prelude::*;

use crate::error::AppError;
use crate::error::ErrorKind;
use crate::model::Permission;
use crate::model::Pk;
use crate::model::Role;
use crate::model::RolePermission;
use crate::model::User;
use crate::model::UserRole;

verus! {

/// The in-memory relational state of the access-control core.
pub struct RbacStore {
    /// The user table, ordered by strictly increasing id.
    pub users: Vec<User>,
    /// The role table, ordered by strictly increasing id.
    pub roles: Vec<Role>,
    /// The permission table, ordered by strictly increasing id.
    pub permissions: Vec<Permission>,
    /// The role-to-permission assignment rows.
    pub role_permissions: Vec<RolePermission>,
    /// The user-to-role assignment rows.
    pub user_roles: Vec<UserRole>,
    /// The next user id to hand out.
    pub next_user_id: Pk,
    /// The next role id to hand out.
    pub next_role_id: Pk,
    /// The next permission id to hand out.
    pub next_permission_id: Pk,
}

impl RbacStore {
    /// Whether some user row carries the id.
    pub open spec fn has_user_id(self, id: int) -> bool {
        exists|i: int|
            0 <= i < self.users@.len() && (#[trigger] self.users@[i]).id == id
    }

    /// The index of the user row carrying the id.
    pub open spec fn user_idx(self, id: int) -> int {
        choose|i: int|
            0 <= i < self.users@.len() && (#[trigger] self.users@[i]).id == id
    }

    /// The user row carrying the id.
    pub open spec fn spec_user(self, id: int) -> User {
        self.users@[self.user_idx(id)]
    }

    /// Whether some user row carries the username.
    pub open spec fn has_username(self, name: Seq<char>) -> bool {
        exists|i: int|
            0 <= i < self.users@.len() && (#[trigger] self.users@[i]).username@ == name
    }

    /// Whether some role row carries the id.
    pub open spec fn has_role_id(self, id: int) -> bool {
        exists|i: int|
            0 <= i < self.roles@.len() && (#[trigger] self.roles@[i]).id == id
    }

    /// The index of the role row carrying the id.
    pub open spec fn role_idx(self, id: int) -> int {
        choose|i: int|
            0 <= i < self.roles@.len() && (#[trigger] self.roles@[i]).id == id
    }

    /// The role row carrying the id.
    pub open spec fn spec_role(self, id: int) -> Role {
        self.roles@[self.role_idx(id)]
    }

    /// Whether some role row carries the name.
    pub open spec fn has_role_named(self, name: Seq<char>) -> bool {
        exists|i: int|
            0 <= i < self.roles@.len() && (#[trigger] self.roles@[i]).name@ == name
    }

    /// Whether some permission row carries the id.
    pub open spec fn has_perm_id(self, id: int) -> bool {
        exists|i: int|
            0 <= i < self.permissions@.len() && (#[trigger] self.permissions@[i]).id == id
    }

    /// The index of the permission row carrying the id.
    pub open spec fn perm_idx(self, id: int) -> int {
        choose|i: int|
            0 <= i < self.permissions@.len() && (#[trigger] self.permissions@[i]).id == id
    }

    /// The permission row carrying the id.
    pub open spec fn spec_perm(self, id: int) -> Permission {
        self.permissions@[self.perm_idx(id)]
    }

    /// Whether some permission row carries the (resource, action) pair.
    pub open spec fn has_perm_pair(self, resource: Seq<char>, action: Seq<char>) -> bool {
        exists|i: int|
            0 <= i < self.permissions@.len() && (#[trigger] self.permissions@[i]).resource@
                == resource && self.permissions@[i].action@ == action
    }

    /// Whether the role is assigned the permission.
    pub open spec fn role_has_perm(self, role_id: int, perm_id: int) -> bool {
        exists|i: int|
            0 <= i < self.role_permissions@.len() && (#[trigger] self.role_permissions@[i]).role_id
                == role_id && self.role_permissions@[i].permission_id == perm_id
    }

    /// Whether the user is assigned the role.
    pub open spec fn user_has_role(self, user_id: int, role_id: int) -> bool {
        exists|i: int|
            0 <= i < self.user_roles@.len() && (#[trigger] self.user_roles@[i]).user_id == user_id
                && self.user_roles@[i].role_id == role_id
    }

    /// Whether the user holds the permission through some assigned role.
    pub open spec fn user_has_perm(self, user_id: int, perm_id: int) -> bool {
        exists|role_id: int|
            #[trigger] self.user_has_role(user_id, role_id) && self.role_has_perm(
                role_id,
                perm_id,
            )
    }

    /// The user table's own invariant: ids strictly increasing, positive
    /// and below the next id; usernames unique.
    pub open spec fn users_wf(self) -> bool {
        &&& forall|i: int, j: int|
            0 <= i < j < self.users@.len() ==> (#[trigger] self.users@[i]).id < (
            #[trigger] self.users@[j]).id
        &&& forall|i: int|
            0 <= i < self.users@.len() ==> 0 < (#[trigger] self.users@[i]).id
                < self.next_user_id
        &&& forall|i: int, j: int|
            0 <= i < j < self.users@.len() ==> (#[trigger] self.users@[i]).username@ != (
            #[trigger] self.users@[j]).username@
    }

    /// The role table's own invariant: ids strictly increasing, positive
    /// and below the next id; names unique.
    pub open spec fn roles_wf(self) -> bool {
        &&& forall|i: int, j: int|
            0 <= i < j < self.roles@.len() ==> (#[trigger] self.roles@[i]).id < (
            #[trigger] self.roles@[j]).id
        &&& forall|i: int|
            0 <= i < self.roles@.len() ==> 0 < (#[trigger] self.roles@[i]).id
                < self.next_role_id
        &&& forall|i: int, j: int|
            0 <= i < j < self.roles@.len() ==> (#[trigger] self.roles@[i]).name@ != (
            #[trigger] self.roles@[j]).name@
    }

    /// The permission table's own invariant: ids strictly increasing,
    /// positive and below the next id; (resource, action) pairs unique.
    pub open spec fn perms_wf(self) -> bool {
        &&& forall|i: int, j: int|
            0 <= i < j < self.permissions@.len() ==> (#[trigger] self.permissions@[i]).id < (
            #[trigger] self.permissions@[j]).id
        &&& forall|i: int|
            0 <= i < self.permissions@.len() ==> 0 < (#[trigger] self.permissions@[i]).id
                < self.next_permission_id
        &&& forall|i: int, j: int|
            0 <= i < j < self.permissions@.len() ==> !((#[trigger] self.permissions@[i]).resource@
                == (#[trigger] self.permissions@[j]).resource@ && self.permissions@[i].action@
                == self.permissions@[j].action@)
    }

    /// The role-permission rows' invariant: pairs unique, both sides
    /// referencing live rows.
    pub open spec fn role_permissions_wf(self) -> bool {
        &&& forall|i: int, j: int|
            0 <= i < j < self.role_permissions@.len() ==> (#[trigger] self.role_permissions@[i])
                != (#[trigger] self.role_permissions@[j])
        &&& forall|i: int|
            0 <= i < self.role_permissions@.len() ==> self.has_role_id(
                (#[trigger] self.role_permissions@[i]).role_id as int,
            ) && self.has_perm_id(self.role_permissions@[i].permission_id as int)
    }

    /// The user-role rows' invariant: pairs unique, both sides
    /// referencing live rows.
    pub open spec fn user_roles_wf(self) -> bool {
        &&& forall|i: int, j: int|
            0 <= i < j < self.user_roles@.len() ==> (#[trigger] self.user_roles@[i]) != (
            #[trigger] self.user_roles@[j])
        &&& forall|i: int|
            0 <= i < self.user_roles@.len() ==> self.has_user_id(
                (#[trigger] self.user_roles@[i]).user_id as int,
            ) && self.has_role_id(self.user_roles@[i].role_id as int)
    }

    /// The whole store's invariant.
    pub open spec fn wf(self) -> bool {
        &&& self.users_wf()
        &&& self.roles_wf()
        &&& self.perms_wf()
        &&& self.role_permissions_wf()
        &&& self.user_roles_wf()
        &&& 0 < self.next_user_id
        &&& 0 < self.next_role_id
        &&& 0 < self.next_permission_id
    }

    /// The user table and its id counter are untouched.
    pub open spec fn users_same(pre: RbacStore, post: RbacStore) -> bool {
        post.users@ == pre.users@ && post.next_user_id == pre.next_user_id
    }

    /// The role table and its id counter are untouched.
    pub open spec fn roles_same(pre: RbacStore, post: RbacStore) -> bool {
        post.roles@ == pre.roles@ && post.next_role_id == pre.next_role_id
    }

    /// The permission table and its id counter are untouched.
    pub open spec fn perms_same(pre: RbacStore, post: RbacStore) -> bool {
        post.permissions@ == pre.permissions@ && post.next_permission_id
            == pre.next_permission_id
    }

    /// The role-permission rows are untouched.
    pub open spec fn role_permissions_same(pre: RbacStore, post: RbacStore) -> bool {
        post.role_permissions@ == pre.role_permissions@
    }

    /// The user-role rows are untouched.
    pub open spec fn user_roles_same(pre: RbacStore, post: RbacStore) -> bool {
        post.user_roles@ == pre.user_roles@
    }

    /// An empty store.
    pub fn new() -> (r: RbacStore)
        ensures
            r.wf(),
            r.users@.len() == 0,
            r.roles@.len() == 0,
            r.permissions@.len() == 0,
            r.role_permissions@.len() == 0,
            r.user_roles@.len() == 0,
    {
        RbacStore {
            users: Vec::new(),
            roles: Vec::new(),
            permissions: Vec::new(),
            user_roles: Vec::new(),
            role_permissions: Vec::new(),
            next_user_id: 1,
            next_role_id: 1,
            next_permission_id: 1,
        }
    }

    /// Two role rows with the same id are the same row.
    pub proof fn lemma_role_id_unique(self, i: int, j: int)
        requires
            self.roles_wf(),
            0 <= i < self.roles@.len(),
            0 <= j < self.roles@.len(),
            self.roles@[i].id == self.roles@[j].id,
        ensures
            i == j,
    {
        if i < j {
            assert(self.roles@[i].id < self.roles@[j].id);
        }
        if j < i {
            assert(self.roles@[j].id < self.roles@[i].id);
        }
    }

    /// The role row at a valid index is the row `spec_role` names.
    pub proof fn lemma_spec_role_at(self, i: int)
        requires
            self.roles_wf(),
            0 <= i < self.roles@.len(),
        ensures
            self.has_role_id(self.roles@[i].id as int),
            self.role_idx(self.roles@[i].id as int) == i,
            self.spec_role(self.roles@[i].id as int) == self.roles@[i],
    {
        assert(self.has_role_id(self.roles@[i].id as int));
        let j = self.role_idx(self.roles@[i].id as int);
        self.lemma_role_id_unique(i, j);
    }

    /// Two user rows with the same id are the same row.
    pub proof fn lemma_user_id_unique(self, i: int, j: int)
        requires
            self.users_wf(),
            0 <= i < self.users@.len(),
            0 <= j < self.users@.len(),
            self.users@[i].id == self.users@[j].id,
        ensures
            i == j,
    {
        if i < j {
            assert(self.users@[i].id < self.users@[j].id);
        }
        if j < i {
            assert(self.users@[j].id < self.users@[i].id);
        }
    }

    /// The user row at a valid index is the row `spec_user` names.
    pub proof fn lemma_spec_user_at(self, i: int)
        requires
            self.users_wf(),
            0 <= i < self.users@.len(),
        ensures
            self.has_user_id(self.users@[i].id as int),
            self.user_idx(self.users@[i].id as int) == i,
            self.spec_user(self.users@[i].id as int) == self.users@[i],
    {
        assert(self.has_user_id(self.users@[i].id as int));
        let j = self.user_idx(self.users@[i].id as int);
        self.lemma_user_id_unique(i, j);
    }

    /// Two permission rows with the same id are the same row.
    pub proof fn lemma_perm_id_unique(self, i: int, j: int)
        requires
            self.perms_wf(),
            0 <= i < self.permissions@.len(),
            0 <= j < self.permissions@.len(),
            self.permissions@[i].id == self.permissions@[j].id,
        ensures
            i == j,
    {
        if i < j {
            assert(self.permissions@[i].id < self.permissions@[j].id);
        }
        if j < i {
            assert(self.permissions@[j].id < self.permissions@[i].id);
        }
    }

    /// The permission row at a valid index is the row `spec_perm` names.
    pub proof fn lemma_spec_perm_at(self, i: int)
        requires
            self.perms_wf(),
            0 <= i < self.permissions@.len(),
        ensures
            self.has_perm_id(self.permissions@[i].id as int),
            self.perm_idx(self.permissions@[i].id as int) == i,
            self.spec_perm(self.permissions@[i].id as int) == self.permissions@[i],
    {
        assert(self.has_perm_id(self.permissions@[i].id as int));
        let j = self.perm_idx(self.permissions@[i].id as int);
        self.lemma_perm_id_unique(i, j);
    }

    /// Appending a role row keeps every existing id and name findable.
    pub proof fn lemma_role_push_preserves(pre: RbacStore, post: RbacStore, row: Role)
        requires
            post.roles@ == pre.roles@.push(row),
        ensures
            forall|id: int| pre.has_role_id(id) ==> post.has_role_id(id),
            forall|name: Seq<char>|
                pre.has_role_named(name) ==> post.has_role_named(name),
            post.has_role_id(row.id as int),
            post.has_role_named(row.name@),
    {
        assert forall|id: int| pre.has_role_id(id) implies post.has_role_id(id) by {
            let i = choose|i: int|
                0 <= i < pre.roles@.len() && (#[trigger] pre.roles@[i]).id == id;
            assert(post.roles@[i].id == id);
        }
        assert forall|name: Seq<char>| pre.has_role_named(name) implies post.has_role_named(
            name,
        ) by {
            let i = choose|i: int|
                0 <= i < pre.roles@.len() && (#[trigger] pre.roles@[i]).name@ == name;
            assert(post.roles@[i].name@ == name);
        }
        assert(post.roles@[post.roles@.len() - 1] == row);
    }

    /// Appending a user row keeps every existing id and username findable.
    pub proof fn lemma_user_push_preserves(pre: RbacStore, post: RbacStore, row: User)
        requires
            post.users@ == pre.users@.push(row),
        ensures
            forall|id: int| pre.has_user_id(id) ==> post.has_user_id(id),
            forall|name: Seq<char>| pre.has_username(name) ==> post.has_username(name),
            post.has_user_id(row.id as int),
            post.has_username(row.username@),
    {
        assert forall|id: int| pre.has_user_id(id) implies post.has_user_id(id) by {
            let i = choose|i: int|
                0 <= i < pre.users@.len() && (#[trigger] pre.users@[i]).id == id;
            assert(post.users@[i].id == id);
        }
        assert forall|name: Seq<char>| pre.has_username(name) implies post.has_username(
            name,
        ) by {
            let i = choose|i: int|
                0 <= i < pre.users@.len() && (#[trigger] pre.users@[i]).username@ == name;
            assert(post.users@[i].username@ == name);
        }
        assert(post.users@[post.users@.len() - 1] == row);
    }

    /// Appending a permission row keeps every existing id and pair findable.
    pub proof fn lemma_perm_push_preserves(pre: RbacStore, post: RbacStore, row: Permission)
        requires
            post.permissions@ == pre.permissions@.push(row),
        ensures
            forall|id: int| pre.has_perm_id(id) ==> post.has_perm_id(id),
            forall|res: Seq<char>, act: Seq<char>|
                pre.has_perm_pair(res, act) ==> post.has_perm_pair(res, act),
            post.has_perm_id(row.id as int),
            post.has_perm_pair(row.resource@, row.action@),
    {
        assert forall|id: int| pre.has_perm_id(id) implies post.has_perm_id(id) by {
            let i = choose|i: int|
                0 <= i < pre.permissions@.len() && (#[trigger] pre.permissions@[i]).id == id;
            assert(post.permissions@[i].id == id);
        }
        assert forall|res: Seq<char>, act: Seq<char>| pre.has_perm_pair(res, act)
            implies post.has_perm_pair(res, act) by {
            let i = choose|i: int|
                0 <= i < pre.permissions@.len() && (#[trigger] pre.permissions@[i]).resource@
                    == res && pre.permissions@[i].action@ == act;
            assert(post.permissions@[i].resource@ == res);
        }
        assert(post.permissions@[post.permissions@.len() - 1] == row);
    }

    /// An untouched user table answers every lookup as before.
    pub proof fn lemma_user_lookups_same(pre: RbacStore, post: RbacStore)
        requires
            post.users@ == pre.users@,
        ensures
            forall|id: int| #[trigger] post.has_user_id(id) <==> pre.has_user_id(id),
            forall|n: Seq<char>| #[trigger] post.has_username(n) <==> pre.has_username(n),
    {
        assert forall|id: int| #[trigger] post.has_user_id(id) <==> pre.has_user_id(id) by {
            if pre.has_user_id(id) {
                let w = choose|w: int|
                    0 <= w < pre.users@.len() && (#[trigger] pre.users@[w]).id == id;
                assert(post.users@[w].id == id);
            }
            if post.has_user_id(id) {
                let w = choose|w: int|
                    0 <= w < post.users@.len() && (#[trigger] post.users@[w]).id == id;
                assert(pre.users@[w].id == id);
            }
        }
        assert forall|n: Seq<char>| #[trigger] post.has_username(n) <==> pre.has_username(
            n,
        ) by {
            if pre.has_username(n) {
                let w = choose|w: int|
                    0 <= w < pre.users@.len() && (#[trigger] pre.users@[w]).username@ == n;
                assert(post.users@[w].username@ == n);
            }
            if post.has_username(n) {
                let w = choose|w: int|
                    0 <= w < post.users@.len() && (#[trigger] post.users@[w]).username@ == n;
                assert(pre.users@[w].username@ == n);
            }
        }
    }

    /// An untouched role table answers every lookup as before.
    pub proof fn lemma_role_lookups_same(pre: RbacStore, post: RbacStore)
        requires
            post.roles@ == pre.roles@,
        ensures
            forall|id: int| #[trigger] post.has_role_id(id) <==> pre.has_role_id(id),
            forall|n: Seq<char>| #[trigger] post.has_role_named(n) <==> pre.has_role_named(n),
    {
        assert forall|id: int| #[trigger] post.has_role_id(id) <==> pre.has_role_id(id) by {
            if pre.has_role_id(id) {
                let w = choose|w: int|
                    0 <= w < pre.roles@.len() && (#[trigger] pre.roles@[w]).id == id;
                assert(post.roles@[w].id == id);
            }
            if post.has_role_id(id) {
                let w = choose|w: int|
                    0 <= w < post.roles@.len() && (#[trigger] post.roles@[w]).id == id;
                assert(pre.roles@[w].id == id);
            }
        }
        assert forall|n: Seq<char>| #[trigger] post.has_role_named(n) <==> pre.has_role_named(
            n,
        ) by {
            if pre.has_role_named(n) {
                let w = choose|w: int|
                    0 <= w < pre.roles@.len() && (#[trigger] pre.roles@[w]).name@ == n;
                assert(post.roles@[w].name@ == n);
            }
            if post.has_role_named(n) {
                let w = choose|w: int|
                    0 <= w < post.roles@.len() && (#[trigger] post.roles@[w]).name@ == n;
                assert(pre.roles@[w].name@ == n);
            }
        }
    }

    /// An untouched permission table answers every lookup as before.
    pub proof fn lemma_perm_lookups_same(pre: RbacStore, post: RbacStore)
        requires
            post.permissions@ == pre.permissions@,
        ensures
            forall|id: int| #[trigger] post.has_perm_id(id) <==> pre.has_perm_id(id),
            forall|r: Seq<char>, a: Seq<char>|
                #[trigger] post.has_perm_pair(r, a) <==> pre.has_perm_pair(r, a),
    {
        assert forall|id: int| #[trigger] post.has_perm_id(id) <==> pre.has_perm_id(id) by {
            if pre.has_perm_id(id) {
                let w = choose|w: int|
                    0 <= w < pre.permissions@.len() && (#[trigger] pre.permissions@[w]).id == id;
                assert(post.permissions@[w].id == id);
            }
            if post.has_perm_id(id) {
                let w = choose|w: int|
                    0 <= w < post.permissions@.len() && (#[trigger] post.permissions@[w]).id
                        == id;
                assert(pre.permissions@[w].id == id);
            }
        }
        assert forall|r: Seq<char>, a: Seq<char>| #[trigger] post.has_perm_pair(r, a)
            <==> pre.has_perm_pair(r, a) by {
            if pre.has_perm_pair(r, a) {
                let w = choose|w: int|
                    0 <= w < pre.permissions@.len() && (#[trigger] pre.permissions@[w]).resource@
                        == r && pre.permissions@[w].action@ == a;
                assert(post.permissions@[w].resource@ == r);
                assert(post.permissions@[w].action@ == a);
            }
            if post.has_perm_pair(r, a) {
                let w = choose|w: int|
                    0 <= w < post.permissions@.len() && (#[trigger] post.permissions@[w]).resource@
                        == r && post.permissions@[w].action@ == a;
                assert(pre.permissions@[w].resource@ == r);
                assert(pre.permissions@[w].action@ == a);
            }
        }
    }

    /// Appending a fresh-id role row with an unused name, all else
    /// untouched, preserves the store invariant.
    proof fn lemma_wf_after_role_push(pre: RbacStore, post: RbacStore, row: Role)
        requires
            pre.wf(),
            post.roles@ == pre.roles@.push(row),
            row.id == pre.next_role_id,
            pre.next_role_id < Pk::MAX,
            post.next_role_id == pre.next_role_id + 1,
            !pre.has_role_named(row.name@),
            RbacStore::users_same(pre, post),
            RbacStore::perms_same(pre, post),
            RbacStore::role_permissions_same(pre, post),
            RbacStore::user_roles_same(pre, post),
        ensures
            post.wf(),
    {
        RbacStore::lemma_role_push_preserves(pre, post, row);
        assert forall|i: int, j: int|
            0 <= i < j < post.roles@.len() implies (#[trigger] post.roles@[i]).name@ != (
        #[trigger] post.roles@[j]).name@ by {
            if j == post.roles@.len() - 1 {
                assert(pre.has_role_named(post.roles@[i].name@));
            }
        }
        assert forall|i: int|
            0 <= i < post.user_roles@.len() implies post.has_user_id(
            (#[trigger] post.user_roles@[i]).user_id as int,
        ) && post.has_role_id(post.user_roles@[i].role_id as int) by {
            assert(pre.user_roles@[i] == post.user_roles@[i]);
            assert(pre.has_user_id(pre.user_roles@[i].user_id as int));
            assert(pre.has_role_id(pre.user_roles@[i].role_id as int));
            let w = choose|w: int|
                0 <= w < pre.users@.len() && (#[trigger] pre.users@[w]).id
                    == pre.user_roles@[i].user_id;
            assert(post.users@[w].id == post.user_roles@[i].user_id);
        }
        assert forall|i: int|
            0 <= i < post.role_permissions@.len() implies post.has_role_id(
            (#[trigger] post.role_permissions@[i]).role_id as int,
        ) && post.has_perm_id(post.role_permissions@[i].permission_id as int) by {
            assert(pre.role_permissions@[i] == post.role_permissions@[i]);
            assert(pre.has_role_id(pre.role_permissions@[i].role_id as int));
            assert(pre.has_perm_id(pre.role_permissions@[i].permission_id as int));
            let w = choose|w: int|
                0 <= w < pre.permissions@.len() && (#[trigger] pre.permissions@[w]).id
                    == pre.role_permissions@[i].permission_id;
            assert(post.permissions@[w].id == post.role_permissions@[i].permission_id);
        }
    }

    /// The index of the role row carrying the id, scanned left to right.
    fn role_index(&self, id: Pk) -> (r: Option<usize>)
        ensures
            match r {
                Some(i) => i < self.roles@.len() && self.roles@[i as int].id == id,
                None => !self.has_role_id(id as int),
            },
    {
        let n = self.roles.len();
        let mut i: usize = 0;
        while i < n
            invariant
                n == self.roles@.len(),
                i <= n,
                forall|j: int| 0 <= j < i ==> (#[trigger] self.roles@[j]).id != id,
            decreases n - i,
        {
            if self.roles[i].id == id {
                return Some(i);
            }
            i += 1;
        }
        None
    }

    /// Create a role with a fresh id; rejected with `AlreadyExists` when
    /// the name is taken, and with `Internal` when the id space is
    /// exhausted.
    pub fn create_role(
        &mut self,
        name: String,
        description: Option<String>,
        now: i64,
    ) -> (r: Result<Role, AppError>)
        requires
            old(self).wf(),
        ensures
            final(self).wf(),
            match r {
                Ok(role) => {
                    &&& !old(self).has_role_named(name@)
                    &&& role.id == old(self).next_role_id
                    &&& role.name == name
                    &&& role.description == description
                    &&& role.created_at == now
                    &&& role.updated_at == now
                    &&& final(self).roles@ == old(self).roles@.push(role)
                    &&& final(self).next_role_id == old(self).next_role_id + 1
                },
                Err(e) => {
                    &&& *final(self) == *old(self)
                    &&& (e.kind == ErrorKind::AlreadyExists <==> old(self).has_role_named(name@))
                    &&& (e.kind == ErrorKind::Internal <==> (!old(self).has_role_named(name@)
                        && old(self).next_role_id == Pk::MAX))
                    &&& (e.kind == ErrorKind::AlreadyExists || e.kind == ErrorKind::Internal)
                },
            },
            RbacStore::users_same(*old(self), *final(self)),
            RbacStore::perms_same(*old(self), *final(self)),
            RbacStore::role_permissions_same(*old(self), *final(self)),
            RbacStore::user_roles_same(*old(self), *final(self)),
    {
        if self.exists_role_by_name(name.as_str()) {
            return Err(ErrorKind::AlreadyExists.with_message(String::from_str(
                "Role already exists",
            )));
        }
        if self.next_role_id == Pk::MAX {
            return Err(ErrorKind::Internal.to_error());
        }
        let role = Role {
            id: self.next_role_id,
            name,
            description,
            created_at: now,
            updated_at: now,
        };
        let stored = role.clone();
        self.roles.push(stored);
        self.next_role_id = self.next_role_id + 1;
        proof {
            RbacStore::lemma_wf_after_role_push(*old(self), *self, role);
        }
        Ok(role)
    }

    /// The role carrying the id, if any.
    pub fn find_role_by_id(&self, id: Pk) -> (r: Option<Role>)
        requires
            self.wf(),
        ensures
            r is Some <==> self.has_role_id(id as int),
            r is Some ==> r->0 == self.spec_role(id as int),
    {
        match self.role_index(id) {
            Some(i) => {
                proof {
                    self.lemma_spec_role_at(i as int);
                }
                Some(self.roles[i].clone())
            },
            None => None,
        }
    }

    /// The role carrying the name, if any.
    pub fn find_role_by_name(&self, name: &str) -> (r: Option<Role>)
        requires
            self.wf(),
        ensures
            r is Some <==> self.has_role_named(name@),
            r matches Some(role) ==> exists|i: int|
                0 <= i < self.roles@.len() && #[trigger] self.roles@[i] == role
                    && role.name@ == name@,
    {
        let n = self.roles.len();
        let mut i: usize = 0;
        while i < n
            invariant
                n == self.roles@.len(),
                i <= n,
                forall|j: int| 0 <= j < i ==> (#[trigger] self.roles@[j]).name@ != name@,
            decreases n - i,
        {
            if crate::matching::str_eq(self.roles[i].name.as_str(), name) {
                return Some(self.roles[i].clone());
            }
            i += 1;
        }
        None
    }

    /// Whether a role with the name exists.
    pub fn exists_role_by_name(&self, name: &str) -> (r: bool)
        requires
            self.wf(),
        ensures
            r == self.has_role_named(name@),
    {
        self.find_role_by_name(name).is_some()
    }

    /// The number of roles.
    pub fn count_roles(&self) -> (r: u64)
        ensures
            r == self.roles@.len(),
    {
        self.roles.len() as u64
    }

    /// Keeps the permission rows assigned to the role.
    pub open spec fn perms_of_role_pred(self, role_id: int) -> spec_fn(Permission) -> bool {
        |p: Permission| self.role_has_perm(role_id, p.id as int)
    }

    /// The permission rows assigned to the role, in id order.
    pub open spec fn spec_permissions_of_role(self, role_id: int) -> Seq<Permission> {
        self.permissions@.filter(self.perms_of_role_pred(role_id))
    }

    /// Keeps the role rows assigned to the user.
    pub open spec fn roles_of_user_pred(self, user_id: int) -> spec_fn(Role) -> bool {
        |r: Role| self.user_has_role(user_id, r.id as int)
    }

    /// The role rows assigned to the user, in id order.
    pub open spec fn spec_roles_of_user(self, user_id: int) -> Seq<Role> {
        self.roles@.filter(self.roles_of_user_pred(user_id))
    }

    /// Keeps the permission rows the user holds through some role.
    pub open spec fn perms_of_user_pred(self, user_id: int) -> spec_fn(Permission) -> bool {
        |p: Permission| self.user_has_perm(user_id, p.id as int)
    }

    /// The user's effective permission set: the deduplicated union of the
    /// permissions of all their roles, in id order.
    pub open spec fn spec_effective_permissions(self, user_id: int) -> Seq<Permission> {
        self.permissions@.filter(self.perms_of_user_pred(user_id))
    }

    /// Whether the user's effective set holds a permission with exactly
    /// the (resource, action) pair.
    pub open spec fn spec_user_has_pair(
        self,
        user_id: int,
        res: Seq<char>,
        act: Seq<char>,
    ) -> bool {
        exists|i: int|
            0 <= i < self.permissions@.len() && self.user_has_perm(
                user_id,
                (#[trigger] self.permissions@[i]).id as int,
            ) && self.permissions@[i].resource@ == res && self.permissions@[i].action@ == act
    }

    /// Whether the role carrying the name is assigned the permission
    /// carrying the (resource, action) pair.
    pub open spec fn named_role_has_pair(
        self,
        role_name: Seq<char>,
        res: Seq<char>,
        act: Seq<char>,
    ) -> bool {
        exists|i: int, j: int|
            0 <= i < self.roles@.len() && (#[trigger] self.roles@[i]).name@ == role_name && 0
                <= j < self.permissions@.len() && (#[trigger] self.permissions@[j]).resource@
                == res && self.permissions@[j].action@ == act && self.role_has_perm(
                self.roles@[i].id as int,
                self.permissions@[j].id as int,
            )
    }

    /// Keeps the role-permission rows not referencing the role.
    pub open spec fn rp_keep_not_role(role_id: int) -> spec_fn(RolePermission) -> bool {
        |rp: RolePermission| rp.role_id != role_id
    }

    /// Keeps the role-permission rows not referencing the permission.
    pub open spec fn rp_keep_not_perm(perm_id: int) -> spec_fn(RolePermission) -> bool {
        |rp: RolePermission| rp.permission_id != perm_id
    }

    /// Keeps the role-permission rows other than the given pair.
    pub open spec fn rp_keep_not_pair(role_id: int, perm_id: int) -> spec_fn(
        RolePermission,
    ) -> bool {
        |rp: RolePermission| !(rp.role_id == role_id && rp.permission_id == perm_id)
    }

    /// Keeps the user-role rows not referencing the role.
    pub open spec fn ur_keep_not_role(role_id: int) -> spec_fn(UserRole) -> bool {
        |ur: UserRole| ur.role_id != role_id
    }

    /// Keeps the user-role rows not referencing the user.
    pub open spec fn ur_keep_not_user(user_id: int) -> spec_fn(UserRole) -> bool {
        |ur: UserRole| ur.user_id != user_id
    }

    /// Keeps the user-role rows other than the given pair.
    pub open spec fn ur_keep_not_pair(user_id: int, role_id: int) -> spec_fn(UserRole) -> bool {
        |ur: UserRole| !(ur.user_id == user_id && ur.role_id == role_id)
    }

    /// Keeps the role rows other than the given id.
    pub open spec fn role_keep_not_id(id: int) -> spec_fn(Role) -> bool {
        |r: Role| r.id != id
    }

    /// Whether the role-permission assignment row exists.
    pub fn role_permission_exists(&self, role_id: Pk, perm_id: Pk) -> (r: bool)
        ensures
            r == self.role_has_perm(role_id as int, perm_id as int),
    {
        let n = self.role_permissions.len();
        let mut i: usize = 0;
        while i < n
            invariant
                n == self.role_permissions@.len(),
                i <= n,
                forall|j: int|
                    0 <= j < i ==> !((#[trigger] self.role_permissions@[j]).role_id == role_id
                        && self.role_permissions@[j].permission_id == perm_id),
            decreases n - i,
        {
            let row = self.role_permissions[i];
            if row.role_id == role_id && row.permission_id == perm_id {
                return true;
            }
            i += 1;
        }
        false
    }

    /// Whether the user-role assignment row exists.
    pub fn user_role_exists(&self, user_id: Pk, role_id: Pk) -> (r: bool)
        ensures
            r == self.user_has_role(user_id as int, role_id as int),
    {
        let n = self.user_roles.len();
        let mut i: usize = 0;
        while i < n
            invariant
                n == self.user_roles@.len(),
                i <= n,
                forall|j: int|
                    0 <= j < i ==> !((#[trigger] self.user_roles@[j]).user_id == user_id
                        && self.user_roles@[j].role_id == role_id),
            decreases n - i,
        {
            let row = self.user_roles[i];
            if row.user_id == user_id && row.role_id == role_id {
                return true;
            }
            i += 1;
        }
        false
    }

    /// The index of the permission row carrying the id.
    fn perm_index(&self, id: Pk) -> (r: Option<usize>)
        ensures
            match r {
                Some(i) => i < self.permissions@.len() && self.permissions@[i as int].id == id,
                None => !self.has_perm_id(id as int),
            },
    {
        let n = self.permissions.len();
        let mut i: usize = 0;
        while i < n
            invariant
                n == self.permissions@.len(),
                i <= n,
                forall|j: int| 0 <= j < i ==> (#[trigger] self.permissions@[j]).id != id,
            decreases n - i,
        {
            if self.permissions[i].id == id {
                return Some(i);
            }
            i += 1;
        }
        None
    }

    /// The index of the user row carrying the id.
    fn user_index(&self, id: Pk) -> (r: Option<usize>)
        ensures
            match r {
                Some(i) => i < self.users@.len() && self.users@[i as int].id == id,
                None => !self.has_user_id(id as int),
            },
    {
        let n = self.users.len();
        let mut i: usize = 0;
        while i < n
            invariant
                n == self.users@.len(),
                i <= n,
                forall|j: int| 0 <= j < i ==> (#[trigger] self.users@[j]).id != id,
            decreases n - i,
        {
            if self.users[i].id == id {
                return Some(i);
            }
            i += 1;
        }
        None
    }

    /// Keeps the permission rows other than the given id.
    pub open spec fn perm_keep_not_id(id: int) -> spec_fn(Permission) -> bool {
        |p: Permission| p.id != id
    }

    /// Keeps the user rows other than the given id.
    pub open spec fn user_keep_not_id(id: int) -> spec_fn(User) -> bool {
        |u: User| u.id != id
    }

    /// Insert a user row with an already-computed password hash; rejected
    /// with `AlreadyExists` when the username is taken, and with
    /// `Internal` when the id space is exhausted.
    pub fn insert_user_with_hash(
        &mut self,
        username: String,
        password_hash: String,
        now: i64,
    ) -> (r: Result<User, AppError>)
        requires
            old(self).wf(),
        ensures
            final(self).wf(),
            RbacStore::roles_same(*old(self), *final(self)),
            RbacStore::perms_same(*old(self), *final(self)),
            RbacStore::role_permissions_same(*old(self), *final(self)),
            RbacStore::user_roles_same(*old(self), *final(self)),
            match r {
                Ok(user) => {
                    &&& !old(self).has_username(username@)
                    &&& user.id == old(self).next_user_id
                    &&& user.username == username
                    &&& user.password == password_hash
                    &&& user.created_at == now
                    &&& user.updated_at == now
                    &&& final(self).users@ == old(self).users@.push(user)
                    &&& final(self).next_user_id == old(self).next_user_id + 1
                    &&& final(self).has_username(username@)
                    &&& final(self).has_user_id(user.id as int)
                },
                Err(e) => {
                    &&& *final(self) == *old(self)
                    &&& (e.kind == ErrorKind::AlreadyExists <==> old(self).has_username(
                        username@,
                    ))
                    &&& (e.kind == ErrorKind::Internal <==> (!old(self).has_username(username@)
                        && old(self).next_user_id == Pk::MAX))
                    &&& (e.kind == ErrorKind::AlreadyExists || e.kind == ErrorKind::Internal)
                },
            },
    {
        if self.exists_by_username(username.as_str()) {
            return Err(ErrorKind::AlreadyExists.with_message(String::from_str(
                "Username already exists",
            )));
        }
        if self.next_user_id == Pk::MAX {
            return Err(ErrorKind::Internal.to_error());
        }
        let user = User {
            id: self.next_user_id,
            username,
            password: password_hash,
            created_at: now,
            updated_at: now,
        };
        let stored = user.clone();
        self.users.push(stored);
        self.next_user_id = self.next_user_id + 1;
        proof {
            let pre = *old(self);
            let post = *self;
            RbacStore::lemma_user_push_preserves(pre, post, user);
            RbacStore::lemma_role_lookups_same(pre, post);
            RbacStore::lemma_perm_lookups_same(pre, post);
            assert forall|i: int, j: int|
                0 <= i < j < post.users@.len() implies (#[trigger] post.users@[i]).username@ != (
            #[trigger] post.users@[j]).username@ by {
                if j == post.users@.len() - 1 {
                    assert(pre.has_username(post.users@[i].username@));
                }
            }
            assert forall|k: int|
                0 <= k < post.user_roles@.len() implies post.has_user_id(
                (#[trigger] post.user_roles@[k]).user_id as int,
            ) && post.has_role_id(post.user_roles@[k].role_id as int) by {
                assert(pre.user_roles@[k] == post.user_roles@[k]);
                assert(pre.has_user_id(pre.user_roles@[k].user_id as int));
                assert(pre.has_role_id(pre.user_roles@[k].role_id as int));
            }
            assert forall|k: int|
                0 <= k < post.role_permissions@.len() implies post.has_role_id(
                (#[trigger] post.role_permissions@[k]).role_id as int,
            ) && post.has_perm_id(post.role_permissions@[k].permission_id as int) by {
                assert(pre.role_permissions@[k] == post.role_permissions@[k]);
                assert(pre.has_role_id(pre.role_permissions@[k].role_id as int));
                assert(pre.has_perm_id(pre.role_permissions@[k].permission_id as int));
            }
            assert(post.users_wf());
            assert(post.roles_wf());
            assert(post.perms_wf());
            assert(post.user_roles_wf());
            assert(post.role_permissions_wf());
        }
        Ok(user)
    }

    /// The user carrying the id, if any.
    pub fn find_user_by_id(&self, id: Pk) -> (r: Option<User>)
        requires
            self.wf(),
        ensures
            r is Some <==> self.has_user_id(id as int),
            r is Some ==> r->0 == self.spec_user(id as int),
    {
        match self.user_index(id) {
            Some(i) => {
                proof {
                    self.lemma_spec_user_at(i as int);
                }
                Some(self.users[i].clone())
            },
            None => None,
        }
    }

    /// The user carrying the username, if any.
    pub fn find_by_username(&self, username: &str) -> (r: Option<User>)
        requires
            self.wf(),
        ensures
            r is Some <==> self.has_username(username@),
            r matches Some(u) ==> exists|i: int|
                0 <= i < self.users@.len() && #[trigger] self.users@[i] == u && u.username@
                    == username@,
    {
        let n = self.users.len();
        let mut i: usize = 0;
        while i < n
            invariant
                n == self.users@.len(),
                i <= n,
                forall|j: int|
                    0 <= j < i ==> (#[trigger] self.users@[j]).username@ != username@,
            decreases n - i,
        {
            if crate::matching::str_eq(self.users[i].username.as_str(), username) {
                return Some(self.users[i].clone());
            }
            i += 1;
        }
        None
    }

    /// Whether a user with the username exists.
    pub fn exists_by_username(&self, username: &str) -> (r: bool)
        requires
            self.wf(),
        ensures
            r == self.has_username(username@),
    {
        self.find_by_username(username).is_some()
    }

    /// Whether a user with the id exists.
    pub fn user_exists(&self, id: Pk) -> (r: bool)
        requires
            self.wf(),
        ensures
            r == self.has_user_id(id as int),
    {
        self.user_index(id).is_some()
    }

    /// The number of users.
    pub fn count_users(&self) -> (r: u64)
        ensures
            r == self.users@.len(),
    {
        self.users.len() as u64
    }

    /// Rename a user. Fails with `NotFound` when the id is absent and
    /// with `AlreadyExists` when another user holds the new username.
    pub fn update_username(&mut self, id: Pk, new_username: String, now: i64) -> (r: Result<
        User,
        AppError,
    >)
        requires
            old(self).wf(),
        ensures
            final(self).wf(),
            RbacStore::roles_same(*old(self), *final(self)),
            RbacStore::perms_same(*old(self), *final(self)),
            RbacStore::role_permissions_same(*old(self), *final(self)),
            RbacStore::user_roles_same(*old(self), *final(self)),
            final(self).next_user_id == old(self).next_user_id,
            match r {
                Ok(user) => {
                    &&& old(self).has_user_id(id as int)
                    &&& user.id == id
                    &&& user.username == new_username
                    &&& user.password == old(self).spec_user(id as int).password
                    &&& user.created_at == old(self).spec_user(id as int).created_at
                    &&& user.updated_at == now
                    &&& final(self).users@ == old(self).users@.update(
                        old(self).user_idx(id as int),
                        user,
                    )
                    &&& final(self).has_user_id(id as int)
                },
                Err(e) => {
                    &&& *final(self) == *old(self)
                    &&& (e.kind == ErrorKind::NotFound <==> !old(self).has_user_id(id as int))
                    &&& (e.kind == ErrorKind::AlreadyExists <==> old(self).has_user_id(id as int)
                        && new_username@ != old(self).spec_user(id as int).username@ && old(
                        self,
                    ).has_username(new_username@))
                    &&& (e.kind == ErrorKind::NotFound || e.kind == ErrorKind::AlreadyExists)
                },
            },
    {
        let idx = match self.user_index(id) {
            None => {
                return Err(ErrorKind::NotFound.with_message(String::from_str(
                    "User not found",
                )));
            },
            Some(i) => i,
        };
        proof {
            self.lemma_spec_user_at(idx as int);
        }
        let name_differs = !crate::matching::str_eq(
            self.users[idx].username.as_str(),
            new_username.as_str(),
        );
        if name_differs && self.exists_by_username(new_username.as_str()) {
            return Err(ErrorKind::AlreadyExists.with_message(String::from_str(
                "Username already exists",
            )));
        }
        let updated = User {
            id: self.users[idx].id,
            username: new_username,
            password: self.users[idx].password.clone(),
            created_at: self.users[idx].created_at,
            updated_at: now,
        };
        let result = updated.clone();
        self.users.set(idx, updated);
        proof {
            let pre = *old(self);
            let post = *self;
            RbacStore::lemma_role_lookups_same(pre, post);
            RbacStore::lemma_perm_lookups_same(pre, post);
            assert forall|x: int| pre.has_user_id(x) implies post.has_user_id(x) by {
                let w = choose|w: int|
                    0 <= w < pre.users@.len() && (#[trigger] pre.users@[w]).id == x;
                assert(post.users@[w].id == x);
            }
            assert forall|x: int| post.has_user_id(x) implies pre.has_user_id(x) by {
                let w = choose|w: int|
                    0 <= w < post.users@.len() && (#[trigger] post.users@[w]).id == x;
                assert(pre.users@[w].id == x);
            }
            assert forall|i: int, j: int|
                0 <= i < j < post.users@.len() implies (#[trigger] post.users@[i]).username@ != (
            #[trigger] post.users@[j]).username@ by {
                if i != idx as int && j != idx as int {
                    assert(pre.users@[i].username@ != pre.users@[j].username@);
                } else {
                    if name_differs {
                        assert(!pre.has_username(result.username@));
                        if i == idx as int {
                            assert(pre.has_username(pre.users@[j].username@));
                        } else {
                            assert(pre.has_username(pre.users@[i].username@));
                        }
                    }
                }
            }
            assert forall|k: int|
                0 <= k < post.user_roles@.len() implies post.has_user_id(
                (#[trigger] post.user_roles@[k]).user_id as int,
            ) && post.has_role_id(post.user_roles@[k].role_id as int) by {
                assert(pre.user_roles@[k] == post.user_roles@[k]);
                assert(pre.has_user_id(pre.user_roles@[k].user_id as int));
                assert(pre.has_role_id(pre.user_roles@[k].role_id as int));
            }
            assert forall|k: int|
                0 <= k < post.role_permissions@.len() implies post.has_role_id(
                (#[trigger] post.role_permissions@[k]).role_id as int,
            ) && post.has_perm_id(post.role_permissions@[k].permission_id as int) by {
                assert(pre.role_permissions@[k] == post.role_permissions@[k]);
                assert(pre.has_role_id(pre.role_permissions@[k].role_id as int));
                assert(pre.has_perm_id(pre.role_permissions@[k].permission_id as int));
            }
            assert(post.users_wf());
            assert(post.roles_wf());
            assert(post.perms_wf());
            assert(post.user_roles_wf());
            assert(post.role_permissions_wf());
        }
        Ok(result)
    }

    /// Store a new password hash for a user. Fails with `NotFound` when
    /// the id is absent.
    pub fn set_password_hash(&mut self, id: Pk, password_hash: String, now: i64) -> (r: Result<
        User,
        AppError,
    >)
        requires
            old(self).wf(),
        ensures
            final(self).wf(),
            RbacStore::roles_same(*old(self), *final(self)),
            RbacStore::perms_same(*old(self), *final(self)),
            RbacStore::role_permissions_same(*old(self), *final(self)),
            RbacStore::user_roles_same(*old(self), *final(self)),
            final(self).next_user_id == old(self).next_user_id,
            match r {
                Ok(user) => {
                    &&& old(self).has_user_id(id as int)
                    &&& user.id == id
                    &&& user.username == old(self).spec_user(id as int).username
                    &&& user.password == password_hash
                    &&& user.created_at == old(self).spec_user(id as int).created_at
                    &&& user.updated_at == now
                    &&& final(self).users@ == old(self).users@.update(
                        old(self).user_idx(id as int),
                        user,
                    )
                    &&& final(self).has_user_id(id as int)
                    &&& final(self).spec_user(id as int) == user
                    &&& final(self).spec_user(id as int).password == password_hash
                },
                Err(e) => {
                    &&& *final(self) == *old(self)
                    &&& e.kind == ErrorKind::NotFound
                    &&& !old(self).has_user_id(id as int)
                },
            },
    {
        let idx = match self.user_index(id) {
            None => {
                return Err(ErrorKind::NotFound.with_message(String::from_str(
                    "User not found",
                )));
            },
            Some(i) => i,
        };
        proof {
            self.lemma_spec_user_at(idx as int);
        }
        let updated = User {
            id: self.users[idx].id,
            username: self.users[idx].username.clone(),
            password: password_hash,
            created_at: self.users[idx].created_at,
            updated_at: now,
        };
        let result = updated.clone();
        self.users.set(idx, updated);
        proof {
            let pre = *old(self);
            let post = *self;
            RbacStore::lemma_role_lookups_same(pre, post);
            RbacStore::lemma_perm_lookups_same(pre, post);
            assert forall|x: int| pre.has_user_id(x) implies post.has_user_id(x) by {
                let w = choose|w: int|
                    0 <= w < pre.users@.len() && (#[trigger] pre.users@[w]).id == x;
                assert(post.users@[w].id == x);
            }
            assert forall|x: int| post.has_user_id(x) implies pre.has_user_id(x) by {
                let w = choose|w: int|
                    0 <= w < post.users@.len() && (#[trigger] post.users@[w]).id == x;
                assert(pre.users@[w].id == x);
            }
            assert forall|i: int, j: int|
                0 <= i < j < post.users@.len() implies (#[trigger] post.users@[i]).username@ != (
            #[trigger] post.users@[j]).username@ by {
                assert(pre.users@[i].username@ != pre.users@[j].username@);
            }
            assert forall|k: int|
                0 <= k < post.user_roles@.len() implies post.has_user_id(
                (#[trigger] post.user_roles@[k]).user_id as int,
            ) && post.has_role_id(post.user_roles@[k].role_id as int) by {
                assert(pre.user_roles@[k] == post.user_roles@[k]);
                assert(pre.has_user_id(pre.user_roles@[k].user_id as int));
                assert(pre.has_role_id(pre.user_roles@[k].role_id as int));
            }
            assert forall|k: int|
                0 <= k < post.role_permissions@.len() implies post.has_role_id(
                (#[trigger] post.role_permissions@[k]).role_id as int,
            ) && post.has_perm_id(post.role_permissions@[k].permission_id as int) by {
                assert(pre.role_permissions@[k] == post.role_permissions@[k]);
                assert(pre.has_role_id(pre.role_permissions@[k].role_id as int));
                assert(pre.has_perm_id(pre.role_permissions@[k].permission_id as int));
            }
            assert(post.users_wf());
            assert(post.roles_wf());
            assert(post.perms_wf());
            assert(post.user_roles_wf());
            assert(post.role_permissions_wf());
            self.lemma_spec_user_at(idx as int);
        }
        Ok(result)
    }

    /// Delete a user and, in the same step, every role assignment
    /// referencing them; deleting an absent user is a silent no-op.
    pub fn delete_user(&mut self, id: Pk)
        requires
            old(self).wf(),
        ensures
            final(self).wf(),
            RbacStore::roles_same(*old(self), *final(self)),
            RbacStore::perms_same(*old(self), *final(self)),
            RbacStore::role_permissions_same(*old(self), *final(self)),
            final(self).next_user_id == old(self).next_user_id,
            final(self).users@ == old(self).users@.filter(
                RbacStore::user_keep_not_id(id as int),
            ),
            final(self).user_roles@ == old(self).user_roles@.filter(
                RbacStore::ur_keep_not_user(id as int),
            ),
            !final(self).has_user_id(id as int),
            forall|r2: int| !final(self).user_has_role(id as int, r2),
            forall|x: int|
                x != id ==> (#[trigger] final(self).has_user_id(x) <==> old(self).has_user_id(
                    x,
                )),
            forall|u2: int, r2: int|
                u2 != id ==> (#[trigger] final(self).user_has_role(u2, r2) <==> old(
                self,
                ).user_has_role(u2, r2)),
    {
        let user_pred = Ghost(RbacStore::user_keep_not_id(id as int));
        let ur_pred = Ghost(RbacStore::ur_keep_not_user(id as int));
        let n_users = self.users.len();
        let mut kept_users: Vec<User> = Vec::new();
        let mut i: usize = 0;
        while i < n_users
            invariant
                *self == *old(self),
                n_users == self.users@.len(),
                i <= n_users,
                kept_users@ == self.users@.take(i as int).filter(user_pred@),
                user_pred@ == RbacStore::user_keep_not_id(id as int),
            decreases n_users - i,
        {
            proof {
                crate::seqtools::lemma_filter_take_step(self.users@, user_pred@, i as int);
            }
            if self.users[i].id != id {
                kept_users.push(self.users[i].clone());
            }
            i += 1;
        }
        let n_ur = self.user_roles.len();
        let mut kept_ur: Vec<UserRole> = Vec::new();
        let mut k: usize = 0;
        while k < n_ur
            invariant
                *self == *old(self),
                n_ur == self.user_roles@.len(),
                k <= n_ur,
                kept_ur@ == self.user_roles@.take(k as int).filter(ur_pred@),
                ur_pred@ == RbacStore::ur_keep_not_user(id as int),
            decreases n_ur - k,
        {
            proof {
                crate::seqtools::lemma_filter_take_step(self.user_roles@, ur_pred@, k as int);
            }
            let row = self.user_roles[k];
            if row.user_id != id {
                kept_ur.push(row);
            }
            k += 1;
        }
        proof {
            assert(self.users@.take(n_users as int) =~= self.users@);
            assert(self.user_roles@.take(n_ur as int) =~= self.user_roles@);
        }
        self.users = kept_users;
        self.user_roles = kept_ur;
        proof {
            broadcast use vstd::seq_lib::group_filter_ensures;

            let pre = *old(self);
            let post = *self;
            let us = pre.users@;
            let urs = pre.user_roles@;
            RbacStore::lemma_role_lookups_same(pre, post);
            RbacStore::lemma_perm_lookups_same(pre, post);
            crate::seqtools::lemma_filter_membership(us, user_pred@);
            crate::seqtools::lemma_filter_membership(urs, ur_pred@);
            crate::seqtools::lemma_filter_preserves_pairwise(
                us,
                user_pred@,
                |a: User, b: User| a.id < b.id && a.username@ != b.username@,
            );
            crate::seqtools::lemma_filter_preserves_pairwise(
                urs,
                ur_pred@,
                |a: UserRole, b: UserRole| a != b,
            );
            assert forall|i2: int, j2: int|
                0 <= i2 < j2 < post.users@.len() implies (#[trigger] post.users@[i2]).id < (
            #[trigger] post.users@[j2]).id && post.users@[i2].username@
                != post.users@[j2].username@ by {
                assert((|a: User, b: User| a.id < b.id && a.username@ != b.username@)(
                    post.users@[i2],
                    post.users@[j2],
                ));
            }
            assert forall|i2: int|
                0 <= i2 < post.users@.len() implies 0 < (#[trigger] post.users@[i2]).id
                < post.next_user_id by {
                assert(us.contains(post.users@[i2]));
                let w = choose|w: int| 0 <= w < us.len() && us[w] == post.users@[i2];
                assert(0 < us[w].id < pre.next_user_id);
            }
            assert(!post.has_user_id(id as int)) by {
                if post.has_user_id(id as int) {
                    let w = choose|w: int|
                        0 <= w < post.users@.len() && (#[trigger] post.users@[w]).id == id;
                    assert(user_pred@(post.users@[w]));
                }
            }
            assert forall|x: int| x != id implies (#[trigger] post.has_user_id(x)
                <==> pre.has_user_id(x)) by {
                if pre.has_user_id(x) {
                    let w = choose|w: int| 0 <= w < us.len() && (#[trigger] us[w]).id == x;
                    assert(user_pred@(us[w]));
                    assert(us.filter(user_pred@).contains(us[w]));
                    let v = choose|v: int| 0 <= v < post.users@.len() && post.users@[v] == us[w];
                    assert(post.users@[v].id == x);
                }
                if post.has_user_id(x) {
                    let w = choose|w: int|
                        0 <= w < post.users@.len() && (#[trigger] post.users@[w]).id == x;
                    assert(us.contains(post.users@[w]));
                    let v = choose|v: int| 0 <= v < us.len() && us[v] == post.users@[w];
                    assert(us[v].id == x);
                }
            }
            assert forall|r2: int| !post.user_has_role(id as int, r2) by {
                if post.user_has_role(id as int, r2) {
                    let w = choose|w: int|
                        0 <= w < post.user_roles@.len() && (#[trigger] post.user_roles@[w]).user_id
                            == id && post.user_roles@[w].role_id == r2;
                    assert(ur_pred@(post.user_roles@[w]));
                }
            }
            assert forall|u2: int, r2: int| u2 != id implies (#[trigger] post.user_has_role(
                u2,
                r2,
            ) <==> pre.user_has_role(u2, r2)) by {
                if pre.user_has_role(u2, r2) {
                    let w = choose|w: int|
                        0 <= w < urs.len() && (#[trigger] urs[w]).user_id == u2 && urs[w].role_id
                            == r2;
                    assert(ur_pred@(urs[w]));
                    assert(urs.filter(ur_pred@).contains(urs[w]));
                    let v = choose|v: int|
                        0 <= v < post.user_roles@.len() && post.user_roles@[v] == urs[w];
                    assert(post.user_roles@[v].user_id == u2);
                }
                if post.user_has_role(u2, r2) {
                    let w = choose|w: int|
                        0 <= w < post.user_roles@.len() && (#[trigger] post.user_roles@[w]).user_id
                            == u2 && post.user_roles@[w].role_id == r2;
                    assert(urs.contains(post.user_roles@[w]));
                    let v = choose|v: int| 0 <= v < urs.len() && urs[v] == post.user_roles@[w];
                    assert(urs[v].user_id == u2);
                }
            }
            assert forall|k2: int|
                0 <= k2 < post.user_roles@.len() implies post.has_user_id(
                (#[trigger] post.user_roles@[k2]).user_id as int,
            ) && post.has_role_id(post.user_roles@[k2].role_id as int) by {
                assert(urs.contains(post.user_roles@[k2]));
                let w = choose|w: int| 0 <= w < urs.len() && urs[w] == post.user_roles@[k2];
                assert(pre.has_user_id(urs[w].user_id as int));
                assert(pre.has_role_id(urs[w].role_id as int));
                assert(ur_pred@(post.user_roles@[k2]));
            }
            assert forall|k2: int|
                0 <= k2 < post.role_permissions@.len() implies post.has_role_id(
                (#[trigger] post.role_permissions@[k2]).role_id as int,
            ) && post.has_perm_id(post.role_permissions@[k2].permission_id as int) by {
                assert(pre.role_permissions@[k2] == post.role_permissions@[k2]);
                assert(pre.has_role_id(pre.role_permissions@[k2].role_id as int));
                assert(pre.has_perm_id(pre.role_permissions@[k2].permission_id as int));
            }
            assert forall|i2: int, j2: int|
                0 <= i2 < j2 < post.user_roles@.len() implies (#[trigger] post.user_roles@[i2])
                != (#[trigger] post.user_roles@[j2]) by {
                assert((|a: UserRole, b: UserRole| a != b)(
                    post.user_roles@[i2],
                    post.user_roles@[j2],
                ));
            }
            assert(post.users_wf());
            assert(post.roles_wf());
            assert(post.perms_wf());
            assert(post.user_roles_wf());
            assert(post.role_permissions_wf());
        }
    }

    /// Create a permission with a fresh id; rejected with `AlreadyExists`
    /// when the (resource, action) pair exists, and with `Internal` when
    /// the id space is exhausted.
    pub fn create_permission(
        &mut self,
        resource: String,
        action: String,
        description: Option<String>,
        now: i64,
    ) -> (r: Result<Permission, AppError>)
        requires
            old(self).wf(),
        ensures
            final(self).wf(),
            RbacStore::users_same(*old(self), *final(self)),
            RbacStore::roles_same(*old(self), *final(self)),
            RbacStore::role_permissions_same(*old(self), *final(self)),
            RbacStore::user_roles_same(*old(self), *final(self)),
            match r {
                Ok(perm) => {
                    &&& !old(self).has_perm_pair(resource@, action@)
                    &&& perm.id == old(self).next_permission_id
                    &&& perm.resource == resource
                    &&& perm.action == action
                    &&& perm.description == description
                    &&& perm.created_at == now
                    &&& final(self).permissions@ == old(self).permissions@.push(perm)
                    &&& final(self).next_permission_id == old(self).next_permission_id + 1
                    &&& final(self).has_perm_pair(resource@, action@)
                },
                Err(e) => {
                    &&& *final(self) == *old(self)
                    &&& (e.kind == ErrorKind::AlreadyExists <==> old(self).has_perm_pair(
                        resource@,
                        action@,
                    ))
                    &&& (e.kind == ErrorKind::Internal <==> (!old(self).has_perm_pair(
                        resource@,
                        action@,
                    ) && old(self).next_permission_id == Pk::MAX))
                    &&& (e.kind == ErrorKind::AlreadyExists || e.kind == ErrorKind::Internal)
                },
            },
    {
        if self.exists_by_resource_action(resource.as_str(), action.as_str()) {
            return Err(ErrorKind::AlreadyExists.with_message(String::from_str(
                "Permission already exists",
            )));
        }
        if self.next_permission_id == Pk::MAX {
            return Err(ErrorKind::Internal.to_error());
        }
        let perm = Permission {
            id: self.next_permission_id,
            resource,
            action,
            description,
            created_at: now,
        };
        let stored = perm.clone();
        self.permissions.push(stored);
        self.next_permission_id = self.next_permission_id + 1;
        proof {
            let pre = *old(self);
            let post = *self;
            RbacStore::lemma_perm_push_preserves(pre, post, perm);
            RbacStore::lemma_user_lookups_same(pre, post);
            RbacStore::lemma_role_lookups_same(pre, post);
            assert forall|i: int, j: int|
                0 <= i < j < post.permissions@.len() implies !((
            #[trigger] post.permissions@[i]).resource@ == (#[trigger] post.permissions@[j]).resource@
                && post.permissions@[i].action@ == post.permissions@[j].action@) by {
                if j == post.permissions@.len() - 1 {
                    assert(pre.has_perm_pair(post.permissions@[i].resource@, post.permissions@[i].action@));
                }
            }
            assert forall|k: int|
                0 <= k < post.user_roles@.len() implies post.has_user_id(
                (#[trigger] post.user_roles@[k]).user_id as int,
            ) && post.has_role_id(post.user_roles@[k].role_id as int) by {
                assert(pre.user_roles@[k] == post.user_roles@[k]);
                assert(pre.has_user_id(pre.user_roles@[k].user_id as int));
                assert(pre.has_role_id(pre.user_roles@[k].role_id as int));
            }
            assert forall|k: int|
                0 <= k < post.role_permissions@.len() implies post.has_role_id(
                (#[trigger] post.role_permissions@[k]).role_id as int,
            ) && post.has_perm_id(post.role_permissions@[k].permission_id as int) by {
                assert(pre.role_permissions@[k] == post.role_permissions@[k]);
                assert(pre.has_role_id(pre.role_permissions@[k].role_id as int));
                assert(pre.has_perm_id(pre.role_permissions@[k].permission_id as int));
            }
            assert(post.users_wf());
            assert(post.roles_wf());
            assert(post.perms_wf());
            assert(post.user_roles_wf());
            assert(post.role_permissions_wf());
        }
        Ok(perm)
    }

    /// The permission carrying the id, if any.
    pub fn find_permission_by_id(&self, id: Pk) -> (r: Option<Permission>)
        requires
            self.wf(),
        ensures
            r is Some <==> self.has_perm_id(id as int),
            r is Some ==> r->0 == self.spec_perm(id as int),
    {
        match self.perm_index(id) {
            Some(i) => {
                proof {
                    self.lemma_spec_perm_at(i as int);
                }
                Some(self.permissions[i].clone())
            },
            None => None,
        }
    }

    /// The permission carrying the (resource, action) pair, if any.
    pub fn find_by_resource_action(&self, resource: &str, action: &str) -> (r: Option<
        Permission,
    >)
        requires
            self.wf(),
        ensures
            r is Some <==> self.has_perm_pair(resource@, action@),
            r matches Some(p) ==> exists|i: int|
                0 <= i < self.permissions@.len() && #[trigger] self.permissions@[i] == p
                    && p.resource@ == resource@ && p.action@ == action@,
    {
        let n = self.permissions.len();
        let mut i: usize = 0;
        while i < n
            invariant
                n == self.permissions@.len(),
                i <= n,
                forall|j: int|
                    0 <= j < i ==> !((#[trigger] self.permissions@[j]).resource@ == resource@
                        && self.permissions@[j].action@ == action@),
            decreases n - i,
        {
            if crate::matching::str_eq(self.permissions[i].resource.as_str(), resource)
                && crate::matching::str_eq(self.permissions[i].action.as_str(), action) {
                return Some(self.permissions[i].clone());
            }
            i += 1;
        }
        None
    }

    /// Whether a permission with the (resource, action) pair exists.
    pub fn exists_by_resource_action(&self, resource: &str, action: &str) -> (r: bool)
        requires
            self.wf(),
        ensures
            r == self.has_perm_pair(resource@, action@),
    {
        self.find_by_resource_action(resource, action).is_some()
    }

    /// The number of permissions.
    pub fn count_permissions(&self) -> (r: u64)
        ensures
            r == self.permissions@.len(),
    {
        self.permissions.len() as u64
    }

    /// Change a permission's description — the one mutation a permission
    /// admits. Fails with `NotFound` when the id is absent.
    pub fn update_permission_description(
        &mut self,
        id: Pk,
        description: Option<String>,
    ) -> (r: Result<Permission, AppError>)
        requires
            old(self).wf(),
        ensures
            final(self).wf(),
            RbacStore::users_same(*old(self), *final(self)),
            RbacStore::roles_same(*old(self), *final(self)),
            RbacStore::role_permissions_same(*old(self), *final(self)),
            RbacStore::user_roles_same(*old(self), *final(self)),
            final(self).next_permission_id == old(self).next_permission_id,
            match r {
                Ok(perm) => {
                    &&& old(self).has_perm_id(id as int)
                    &&& perm.id == id
                    &&& perm.resource == old(self).spec_perm(id as int).resource
                    &&& perm.action == old(self).spec_perm(id as int).action
                    &&& perm.description == description
                    &&& perm.created_at == old(self).spec_perm(id as int).created_at
                    &&& final(self).permissions@ == old(self).permissions@.update(
                        old(self).perm_idx(id as int),
                        perm,
                    )
                },
                Err(e) => {
                    &&& *final(self) == *old(self)
                    &&& e.kind == ErrorKind::NotFound
                    &&& !old(self).has_perm_id(id as int)
                },
            },
    {
        let idx = match self.perm_index(id) {
            None => {
                return Err(ErrorKind::NotFound.with_message(String::from_str(
                    "Permission not found",
                )));
            },
            Some(i) => i,
        };
        proof {
            self.lemma_spec_perm_at(idx as int);
        }
        let updated = Permission {
            id: self.permissions[idx].id,
            resource: self.permissions[idx].resource.clone(),
            action: self.permissions[idx].action.clone(),
            description,
            created_at: self.permissions[idx].created_at,
        };
        let result = updated.clone();
        self.permissions.set(idx, updated);
        proof {
            let pre = *old(self);
            let post = *self;
            RbacStore::lemma_user_lookups_same(pre, post);
            RbacStore::lemma_role_lookups_same(pre, post);
            assert forall|x: int| pre.has_perm_id(x) implies post.has_perm_id(x) by {
                let w = choose|w: int|
                    0 <= w < pre.permissions@.len() && (#[trigger] pre.permissions@[w]).id == x;
                assert(post.permissions@[w].id == x);
            }
            assert forall|i: int, j: int|
                0 <= i < j < post.permissions@.len() implies !((
            #[trigger] post.permissions@[i]).resource@ == (#[trigger] post.permissions@[j]).resource@
                && post.permissions@[i].action@ == post.permissions@[j].action@) by {
                assert(!(pre.permissions@[i].resource@ == pre.permissions@[j].resource@
                    && pre.permissions@[i].action@ == pre.permissions@[j].action@));
            }
            assert forall|k: int|
                0 <= k < post.user_roles@.len() implies post.has_user_id(
                (#[trigger] post.user_roles@[k]).user_id as int,
            ) && post.has_role_id(post.user_roles@[k].role_id as int) by {
                assert(pre.user_roles@[k] == post.user_roles@[k]);
                assert(pre.has_user_id(pre.user_roles@[k].user_id as int));
                assert(pre.has_role_id(pre.user_roles@[k].role_id as int));
            }
            assert forall|k: int|
                0 <= k < post.role_permissions@.len() implies post.has_role_id(
                (#[trigger] post.role_permissions@[k]).role_id as int,
            ) && post.has_perm_id(post.role_permissions@[k].permission_id as int) by {
                assert(pre.role_permissions@[k] == post.role_permissions@[k]);
                assert(pre.has_role_id(pre.role_permissions@[k].role_id as int));
                assert(pre.has_perm_id(pre.role_permissions@[k].permission_id as int));
            }
            assert(post.users_wf());
            assert(post.roles_wf());
            assert(post.perms_wf());
            assert(post.user_roles_wf());
            assert(post.role_permissions_wf());
        }
        Ok(result)
    }

    /// Delete a permission and, in the same step, every assignment row
    /// referencing it. Fails with `NotFound` when the id is absent.
    pub fn delete_permission(&mut self, id: Pk) -> (r: Result<(), AppError>)
        requires
            old(self).wf(),
        ensures
            final(self).wf(),
            RbacStore::users_same(*old(self), *final(self)),
            RbacStore::roles_same(*old(self), *final(self)),
            RbacStore::user_roles_same(*old(self), *final(self)),
            final(self).next_permission_id == old(self).next_permission_id,
            match r {
                Ok(_) => {
                    &&& old(self).has_perm_id(id as int)
                    &&& final(self).permissions@ == old(self).permissions@.filter(
                        RbacStore::perm_keep_not_id(id as int),
                    )
                    &&& final(self).role_permissions@ == old(self).role_permissions@.filter(
                        RbacStore::rp_keep_not_perm(id as int),
                    )
                    &&& !final(self).has_perm_id(id as int)
                    &&& forall|r2: int| !final(self).role_has_perm(r2, id as int)
                    &&& forall|x: int|
                        x != id ==> (#[trigger] final(self).has_perm_id(x) <==> old(
                        self,
                        ).has_perm_id(x))
                    &&& forall|r2: int, p2: int|
                        p2 != id ==> (#[trigger] final(self).role_has_perm(r2, p2) <==> old(
                        self,
                        ).role_has_perm(r2, p2))
                },
                Err(e) => {
                    &&& *final(self) == *old(self)
                    &&& e.kind == ErrorKind::NotFound
                    &&& !old(self).has_perm_id(id as int)
                },
            },
    {
        if self.perm_index(id).is_none() {
            return Err(ErrorKind::NotFound.with_message(String::from_str(
                "Permission not found",
            )));
        }
        let perm_pred = Ghost(RbacStore::perm_keep_not_id(id as int));
        let rp_pred = Ghost(RbacStore::rp_keep_not_perm(id as int));
        let n_perms = self.permissions.len();
        let mut kept_perms: Vec<Permission> = Vec::new();
        let mut i: usize = 0;
        while i < n_perms
            invariant
                *self == *old(self),
                n_perms == self.permissions@.len(),
                i <= n_perms,
                kept_perms@ == self.permissions@.take(i as int).filter(perm_pred@),
                perm_pred@ == RbacStore::perm_keep_not_id(id as int),
            decreases n_perms - i,
        {
            proof {
                crate::seqtools::lemma_filter_take_step(self.permissions@, perm_pred@, i as int);
            }
            if self.permissions[i].id != id {
                kept_perms.push(self.permissions[i].clone());
            }
            i += 1;
        }
        let n_rp = self.role_permissions.len();
        let mut kept_rp: Vec<RolePermission> = Vec::new();
        let mut j: usize = 0;
        while j < n_rp
            invariant
                *self == *old(self),
                n_rp == self.role_permissions@.len(),
                j <= n_rp,
                kept_rp@ == self.role_permissions@.take(j as int).filter(rp_pred@),
                rp_pred@ == RbacStore::rp_keep_not_perm(id as int),
            decreases n_rp - j,
        {
            proof {
                crate::seqtools::lemma_filter_take_step(
                    self.role_permissions@,
                    rp_pred@,
                    j as int,
                );
            }
            let row = self.role_permissions[j];
            if row.permission_id != id {
                kept_rp.push(row);
            }
            j += 1;
        }
        proof {
            assert(self.permissions@.take(n_perms as int) =~= self.permissions@);
            assert(self.role_permissions@.take(n_rp as int) =~= self.role_permissions@);
        }
        self.permissions = kept_perms;
        self.role_permissions = kept_rp;
        proof {
            broadcast use vstd::seq_lib::group_filter_ensures;

            let pre = *old(self);
            let post = *self;
            let ps = pre.permissions@;
            let rps = pre.role_permissions@;
            RbacStore::lemma_user_lookups_same(pre, post);
            RbacStore::lemma_role_lookups_same(pre, post);
            crate::seqtools::lemma_filter_membership(ps, perm_pred@);
            crate::seqtools::lemma_filter_membership(rps, rp_pred@);
            crate::seqtools::lemma_filter_preserves_pairwise(
                ps,
                perm_pred@,
                |a: Permission, b: Permission| a.id < b.id && !(a.resource@ == b.resource@
                    && a.action@ == b.action@),
            );
            crate::seqtools::lemma_filter_preserves_pairwise(
                rps,
                rp_pred@,
                |a: RolePermission, b: RolePermission| a != b,
            );
            assert forall|i2: int, j2: int|
                0 <= i2 < j2 < post.permissions@.len() implies (#[trigger] post.permissions@[i2]).id
                < (#[trigger] post.permissions@[j2]).id && !(post.permissions@[i2].resource@
                == post.permissions@[j2].resource@ && post.permissions@[i2].action@
                == post.permissions@[j2].action@) by {
                assert((|a: Permission, b: Permission| a.id < b.id && !(a.resource@
                    == b.resource@ && a.action@ == b.action@))(
                    post.permissions@[i2],
                    post.permissions@[j2],
                ));
            }
            assert forall|i2: int|
                0 <= i2 < post.permissions@.len() implies 0 < (#[trigger] post.permissions@[i2]).id
                < post.next_permission_id by {
                assert(ps.contains(post.permissions@[i2]));
                let w = choose|w: int| 0 <= w < ps.len() && ps[w] == post.permissions@[i2];
                assert(0 < ps[w].id < pre.next_permission_id);
            }
            assert(!post.has_perm_id(id as int)) by {
                if post.has_perm_id(id as int) {
                    let w = choose|w: int|
                        0 <= w < post.permissions@.len() && (#[trigger] post.permissions@[w]).id
                            == id;
                    assert(perm_pred@(post.permissions@[w]));
                }
            }
            assert forall|x: int| x != id implies (#[trigger] post.has_perm_id(x)
                <==> pre.has_perm_id(x)) by {
                if pre.has_perm_id(x) {
                    let w = choose|w: int|
                        0 <= w < ps.len() && (#[trigger] ps[w]).id == x;
                    assert(perm_pred@(ps[w]));
                    assert(ps.filter(perm_pred@).contains(ps[w]));
                    let v = choose|v: int|
                        0 <= v < post.permissions@.len() && post.permissions@[v] == ps[w];
                    assert(post.permissions@[v].id == x);
                }
                if post.has_perm_id(x) {
                    let w = choose|w: int|
                        0 <= w < post.permissions@.len() && (#[trigger] post.permissions@[w]).id
                            == x;
                    assert(ps.contains(post.permissions@[w]));
                    let v = choose|v: int| 0 <= v < ps.len() && ps[v] == post.permissions@[w];
                    assert(ps[v].id == x);
                }
            }
            assert forall|r2: int| !post.role_has_perm(r2, id as int) by {
                if post.role_has_perm(r2, id as int) {
                    let w = choose|w: int|
                        0 <= w < post.role_permissions@.len() && (
                        #[trigger] post.role_permissions@[w]).role_id == r2
                            && post.role_permissions@[w].permission_id == id;
                    assert(rp_pred@(post.role_permissions@[w]));
                }
            }
            assert forall|r2: int, p2: int| p2 != id implies (#[trigger] post.role_has_perm(
                r2,
                p2,
            ) <==> pre.role_has_perm(r2, p2)) by {
                if pre.role_has_perm(r2, p2) {
                    let w = choose|w: int|
                        0 <= w < rps.len() && (#[trigger] rps[w]).role_id == r2
                            && rps[w].permission_id == p2;
                    assert(rp_pred@(rps[w]));
                    assert(rps.filter(rp_pred@).contains(rps[w]));
                    let v = choose|v: int|
                        0 <= v < post.role_permissions@.len() && post.role_permissions@[v]
                            == rps[w];
                    assert(post.role_permissions@[v].role_id == r2);
                }
                if post.role_has_perm(r2, p2) {
                    let w = choose|w: int|
                        0 <= w < post.role_permissions@.len() && (
                        #[trigger] post.role_permissions@[w]).role_id == r2
                            && post.role_permissions@[w].permission_id == p2;
                    assert(rps.contains(post.role_permissions@[w]));
                    let v = choose|v: int|
                        0 <= v < rps.len() && rps[v] == post.role_permissions@[w];
                    assert(rps[v].role_id == r2);
                }
            }
            assert forall|k2: int|
                0 <= k2 < post.role_permissions@.len() implies post.has_role_id(
                (#[trigger] post.role_permissions@[k2]).role_id as int,
            ) && post.has_perm_id(post.role_permissions@[k2].permission_id as int) by {
                assert(rps.contains(post.role_permissions@[k2]));
                let w = choose|w: int|
                    0 <= w < rps.len() && rps[w] == post.role_permissions@[k2];
                assert(pre.has_role_id(rps[w].role_id as int));
                assert(pre.has_perm_id(rps[w].permission_id as int));
                assert(rp_pred@(post.role_permissions@[k2]));
            }
            assert forall|k2: int|
                0 <= k2 < post.user_roles@.len() implies post.has_user_id(
                (#[trigger] post.user_roles@[k2]).user_id as int,
            ) && post.has_role_id(post.user_roles@[k2].role_id as int) by {
                assert(pre.user_roles@[k2] == post.user_roles@[k2]);
                assert(pre.has_user_id(pre.user_roles@[k2].user_id as int));
                assert(pre.has_role_id(pre.user_roles@[k2].role_id as int));
            }
            assert forall|i2: int, j2: int|
                0 <= i2 < j2 < post.role_permissions@.len() implies (
            #[trigger] post.role_permissions@[i2]) != (#[trigger] post.role_permissions@[j2]) by {
                assert((|a: RolePermission, b: RolePermission| a != b)(
                    post.role_permissions@[i2],
                    post.role_permissions@[j2],
                ));
            }
            assert(post.users_wf());
            assert(post.roles_wf());
            assert(post.perms_wf());
            assert(post.user_roles_wf());
            assert(post.role_permissions_wf());
        }
        Ok(())
    }

    /// Grant a permission to a role. Fails with `NotFound` when either id
    /// is absent and with `AlreadyExists` when the assignment is already
    /// there.
    pub fn assign_permission_to_role(&mut self, role_id: Pk, perm_id: Pk) -> (r: Result<
        (),
        AppError,
    >)
        requires
            old(self).wf(),
        ensures
            final(self).wf(),
            RbacStore::users_same(*old(self), *final(self)),
            RbacStore::roles_same(*old(self), *final(self)),
            RbacStore::perms_same(*old(self), *final(self)),
            RbacStore::user_roles_same(*old(self), *final(self)),
            match r {
                Ok(_) => {
                    &&& old(self).has_role_id(role_id as int)
                    &&& old(self).has_perm_id(perm_id as int)
                    &&& !old(self).role_has_perm(role_id as int, perm_id as int)
                    &&& final(self).role_permissions@ == old(self).role_permissions@.push(
                        RolePermission { role_id, permission_id: perm_id },
                    )
                    &&& final(self).role_has_perm(role_id as int, perm_id as int)
                },
                Err(e) => {
                    &&& *final(self) == *old(self)
                    &&& (e.kind == ErrorKind::NotFound <==> !(old(self).has_role_id(
                        role_id as int,
                    ) && old(self).has_perm_id(perm_id as int)))
                    &&& (e.kind == ErrorKind::AlreadyExists <==> old(self).has_role_id(
                        role_id as int,
                    ) && old(self).has_perm_id(perm_id as int) && old(self).role_has_perm(
                        role_id as int,
                        perm_id as int,
                    ))
                    &&& (e.kind == ErrorKind::NotFound || e.kind == ErrorKind::AlreadyExists)
                },
            },
    {
        if self.role_index(role_id).is_none() {
            return Err(ErrorKind::NotFound.with_message(String::from_str("Role not found")));
        }
        if self.perm_index(perm_id).is_none() {
            return Err(ErrorKind::NotFound.with_message(String::from_str(
                "Permission not found",
            )));
        }
        if self.role_permission_exists(role_id, perm_id) {
            return Err(ErrorKind::AlreadyExists.with_message(String::from_str(
                "Permission already assigned to role",
            )));
        }
        let row = RolePermission { role_id, permission_id: perm_id };
        self.role_permissions.push(row);
        proof {
            let pre = *old(self);
            let post = *self;
            assert(post.role_permissions@.last() == row);
            assert forall|i: int, j: int|
                0 <= i < j < post.role_permissions@.len() implies (
            #[trigger] post.role_permissions@[i]) != (#[trigger] post.role_permissions@[j]) by {
                if j == post.role_permissions@.len() - 1 {
                    assert(pre.role_has_perm(role_id as int, perm_id as int) || (
                    pre.role_permissions@[i] != row));
                }
            }
            assert(post.role_has_perm(role_id as int, perm_id as int)) by {
                assert(post.role_permissions@[post.role_permissions@.len() - 1] == row);
            }
            RbacStore::lemma_user_lookups_same(pre, post);
            RbacStore::lemma_role_lookups_same(pre, post);
            RbacStore::lemma_perm_lookups_same(pre, post);
            assert forall|k: int|
                0 <= k < post.user_roles@.len() implies post.has_user_id(
                (#[trigger] post.user_roles@[k]).user_id as int,
            ) && post.has_role_id(post.user_roles@[k].role_id as int) by {
                assert(pre.user_roles@[k] == post.user_roles@[k]);
                assert(pre.has_user_id(pre.user_roles@[k].user_id as int));
                assert(pre.has_role_id(pre.user_roles@[k].role_id as int));
            }
            assert forall|k: int|
                0 <= k < post.role_permissions@.len() implies post.has_role_id(
                (#[trigger] post.role_permissions@[k]).role_id as int,
            ) && post.has_perm_id(post.role_permissions@[k].permission_id as int) by {
                if k < pre.role_permissions@.len() {
                    assert(pre.role_permissions@[k] == post.role_permissions@[k]);
                    assert(pre.has_role_id(pre.role_permissions@[k].role_id as int));
                    assert(pre.has_perm_id(pre.role_permissions@[k].permission_id as int));
                } else {
                    assert(post.role_permissions@[k] == row);
                }
            }
            assert(post.users_wf());
            assert(post.roles_wf());
            assert(post.perms_wf());
            assert(post.user_roles_wf());
            assert(post.role_permissions_wf());
        }
        Ok(())
    }

    /// Revoke a permission from a role; removing an absent assignment is
    /// a silent no-op.
    pub fn revoke_permission_from_role(&mut self, role_id: Pk, perm_id: Pk)
        requires
            old(self).wf(),
        ensures
            final(self).wf(),
            RbacStore::users_same(*old(self), *final(self)),
            RbacStore::roles_same(*old(self), *final(self)),
            RbacStore::perms_same(*old(self), *final(self)),
            RbacStore::user_roles_same(*old(self), *final(self)),
            final(self).role_permissions@ == old(self).role_permissions@.filter(
                RbacStore::rp_keep_not_pair(role_id as int, perm_id as int),
            ),
            !final(self).role_has_perm(role_id as int, perm_id as int),
            forall|r2: int, p2: int|
                !(r2 == role_id && p2 == perm_id) ==> (#[trigger] final(self).role_has_perm(
                    r2,
                    p2,
                ) <==> old(self).role_has_perm(r2, p2)),
    {
        let pred = Ghost(RbacStore::rp_keep_not_pair(role_id as int, perm_id as int));
        let n = self.role_permissions.len();
        let mut kept: Vec<RolePermission> = Vec::new();
        let mut i: usize = 0;
        while i < n
            invariant
                *self == *old(self),
                n == self.role_permissions@.len(),
                i <= n,
                kept@ == self.role_permissions@.take(i as int).filter(pred@),
                pred@ == RbacStore::rp_keep_not_pair(role_id as int, perm_id as int),
            decreases n - i,
        {
            proof {
                crate::seqtools::lemma_filter_take_step(self.role_permissions@, pred@, i as int);
            }
            let row = self.role_permissions[i];
            if !(row.role_id == role_id && row.permission_id == perm_id) {
                kept.push(row);
            }
            i += 1;
        }
        proof {
            assert(self.role_permissions@.take(n as int) =~= self.role_permissions@);
        }
        self.role_permissions = kept;
        proof {
            let pre = *old(self);
            let post = *self;
            let s = pre.role_permissions@;
            RbacStore::lemma_user_lookups_same(pre, post);
            RbacStore::lemma_role_lookups_same(pre, post);
            RbacStore::lemma_perm_lookups_same(pre, post);
            assert forall|k: int|
                0 <= k < post.user_roles@.len() implies post.has_user_id(
                (#[trigger] post.user_roles@[k]).user_id as int,
            ) && post.has_role_id(post.user_roles@[k].role_id as int) by {
                assert(pre.user_roles@[k] == post.user_roles@[k]);
                assert(pre.has_user_id(pre.user_roles@[k].user_id as int));
                assert(pre.has_role_id(pre.user_roles@[k].role_id as int));
            }
            crate::seqtools::lemma_filter_membership(s, pred@);
            crate::seqtools::lemma_filter_preserves_pairwise(
                s,
                pred@,
                |a: RolePermission, b: RolePermission| a != b,
            );
            assert forall|k: int|
                0 <= k < post.role_permissions@.len() implies post.has_role_id(
                (#[trigger] post.role_permissions@[k]).role_id as int,
            ) && post.has_perm_id(post.role_permissions@[k].permission_id as int) by {
                assert(s.contains(post.role_permissions@[k]));
                let w = choose|w: int| 0 <= w < s.len() && s[w] == post.role_permissions@[k];
                assert(pre.has_role_id(s[w].role_id as int));
                assert(pre.has_perm_id(s[w].permission_id as int));
            }
            assert forall|i2: int, j2: int|
                0 <= i2 < j2 < post.role_permissions@.len() implies (
            #[trigger] post.role_permissions@[i2]) != (#[trigger] post.role_permissions@[j2]) by {
                assert((|a: RolePermission, b: RolePermission| a != b)(
                    post.role_permissions@[i2],
                    post.role_permissions@[j2],
                ));
            }
            assert forall|r2: int, p2: int|
                !(r2 == role_id && p2 == perm_id) && old(self).role_has_perm(r2, p2)
                implies #[trigger] post.role_has_perm(r2, p2) by {
                let w = choose|w: int|
                    0 <= w < s.len() && (#[trigger] s[w]).role_id == r2 && s[w].permission_id
                        == p2;
                broadcast use vstd::seq_lib::group_filter_ensures;

                assert(pred@(s[w]));
                assert(s.filter(pred@).contains(s[w]));
                let v = choose|v: int|
                    0 <= v < s.filter(pred@).len() && s.filter(pred@)[v] == s[w];
                assert(post.role_permissions@[v] == s[w]);
            }
            assert(post.users_wf());
            assert(post.roles_wf());
            assert(post.perms_wf());
            assert(post.user_roles_wf());
            assert(post.role_permissions_wf());
        }
    }

    /// Delete a role and, in the same step, every assignment row that
    /// references it, on either side of the graph. Fails with `NotFound`
    /// when the id is absent.
    pub fn delete_role(&mut self, id: Pk) -> (r: Result<(), AppError>)
        requires
            old(self).wf(),
        ensures
            final(self).wf(),
            RbacStore::users_same(*old(self), *final(self)),
            RbacStore::perms_same(*old(self), *final(self)),
            final(self).next_role_id == old(self).next_role_id,
            match r {
                Ok(_) => {
                    &&& old(self).has_role_id(id as int)
                    &&& final(self).roles@ == old(self).roles@.filter(
                        RbacStore::role_keep_not_id(id as int),
                    )
                    &&& final(self).role_permissions@ == old(self).role_permissions@.filter(
                        RbacStore::rp_keep_not_role(id as int),
                    )
                    &&& final(self).user_roles@ == old(self).user_roles@.filter(
                        RbacStore::ur_keep_not_role(id as int),
                    )
                    &&& !final(self).has_role_id(id as int)
                    &&& forall|p2: int| !final(self).role_has_perm(id as int, p2)
                    &&& forall|u2: int| !final(self).user_has_role(u2, id as int)
                    &&& forall|x: int|
                        x != id ==> (#[trigger] final(self).has_role_id(x) <==> old(
                        self,
                        ).has_role_id(x))
                    &&& forall|r2: int, p2: int|
                        r2 != id ==> (#[trigger] final(self).role_has_perm(r2, p2) <==> old(
                        self,
                        ).role_has_perm(r2, p2))
                    &&& forall|u2: int, r2: int|
                        r2 != id ==> (#[trigger] final(self).user_has_role(u2, r2) <==> old(
                        self,
                        ).user_has_role(u2, r2))
                },
                Err(e) => {
                    &&& *final(self) == *old(self)
                    &&& e.kind == ErrorKind::NotFound
                    &&& !old(self).has_role_id(id as int)
                },
            },
    {
        if self.role_index(id).is_none() {
            return Err(ErrorKind::NotFound.with_message(String::from_str("Role not found")));
        }
        let role_pred = Ghost(RbacStore::role_keep_not_id(id as int));
        let rp_pred = Ghost(RbacStore::rp_keep_not_role(id as int));
        let ur_pred = Ghost(RbacStore::ur_keep_not_role(id as int));
        let n_roles = self.roles.len();
        let mut kept_roles: Vec<Role> = Vec::new();
        let mut i: usize = 0;
        while i < n_roles
            invariant
                *self == *old(self),
                n_roles == self.roles@.len(),
                i <= n_roles,
                kept_roles@ == self.roles@.take(i as int).filter(role_pred@),
                role_pred@ == RbacStore::role_keep_not_id(id as int),
            decreases n_roles - i,
        {
            proof {
                crate::seqtools::lemma_filter_take_step(self.roles@, role_pred@, i as int);
            }
            if self.roles[i].id != id {
                kept_roles.push(self.roles[i].clone());
            }
            i += 1;
        }
        let n_rp = self.role_permissions.len();
        let mut kept_rp: Vec<RolePermission> = Vec::new();
        let mut j: usize = 0;
        while j < n_rp
            invariant
                *self == *old(self),
                n_rp == self.role_permissions@.len(),
                j <= n_rp,
                kept_rp@ == self.role_permissions@.take(j as int).filter(rp_pred@),
                rp_pred@ == RbacStore::rp_keep_not_role(id as int),
            decreases n_rp - j,
        {
            proof {
                crate::seqtools::lemma_filter_take_step(
                    self.role_permissions@,
                    rp_pred@,
                    j as int,
                );
            }
            let row = self.role_permissions[j];
            if row.role_id != id {
                kept_rp.push(row);
            }
            j += 1;
        }
        let n_ur = self.user_roles.len();
        let mut kept_ur: Vec<UserRole> = Vec::new();
        let mut k: usize = 0;
        while k < n_ur
            invariant
                *self == *old(self),
                n_ur == self.user_roles@.len(),
                k <= n_ur,
                kept_ur@ == self.user_roles@.take(k as int).filter(ur_pred@),
                ur_pred@ == RbacStore::ur_keep_not_role(id as int),
            decreases n_ur - k,
        {
            proof {
                crate::seqtools::lemma_filter_take_step(self.user_roles@, ur_pred@, k as int);
            }
            let row = self.user_roles[k];
            if row.role_id != id {
                kept_ur.push(row);
            }
            k += 1;
        }
        proof {
            assert(self.roles@.take(n_roles as int) =~= self.roles@);
            assert(self.role_permissions@.take(n_rp as int) =~= self.role_permissions@);
            assert(self.user_roles@.take(n_ur as int) =~= self.user_roles@);
        }
        self.roles = kept_roles;
        self.role_permissions = kept_rp;
        self.user_roles = kept_ur;
        proof {
            broadcast use vstd::seq_lib::group_filter_ensures;

            let pre = *old(self);
            let post = *self;
            let rs = pre.roles@;
            let rps = pre.role_permissions@;
            let urs = pre.user_roles@;
            RbacStore::lemma_user_lookups_same(pre, post);
            RbacStore::lemma_perm_lookups_same(pre, post);
            crate::seqtools::lemma_filter_membership(rs, role_pred@);
            crate::seqtools::lemma_filter_membership(rps, rp_pred@);
            crate::seqtools::lemma_filter_membership(urs, ur_pred@);
            crate::seqtools::lemma_filter_preserves_pairwise(
                rs,
                role_pred@,
                |a: Role, b: Role| a.id < b.id && a.name@ != b.name@,
            );
            crate::seqtools::lemma_filter_preserves_pairwise(
                rps,
                rp_pred@,
                |a: RolePermission, b: RolePermission| a != b,
            );
            crate::seqtools::lemma_filter_preserves_pairwise(
                urs,
                ur_pred@,
                |a: UserRole, b: UserRole| a != b,
            );
            assert forall|i2: int, j2: int|
                0 <= i2 < j2 < post.roles@.len() implies (#[trigger] post.roles@[i2]).id < (
            #[trigger] post.roles@[j2]).id && post.roles@[i2].name@ != post.roles@[j2].name@ by {
                assert((|a: Role, b: Role| a.id < b.id && a.name@ != b.name@)(
                    post.roles@[i2],
                    post.roles@[j2],
                ));
            }
            assert forall|i2: int|
                0 <= i2 < post.roles@.len() implies 0 < (#[trigger] post.roles@[i2]).id
                < post.next_role_id by {
                assert(rs.contains(post.roles@[i2]));
                let w = choose|w: int| 0 <= w < rs.len() && rs[w] == post.roles@[i2];
                assert(0 < rs[w].id < pre.next_role_id);
            }
            assert(!post.has_role_id(id as int)) by {
                if post.has_role_id(id as int) {
                    let w = choose|w: int|
                        0 <= w < post.roles@.len() && (#[trigger] post.roles@[w]).id == id;
                    assert(role_pred@(post.roles@[w]));
                }
            }
            assert forall|x: int| x != id implies (#[trigger] post.has_role_id(x) <==> pre.has_role_id(
                x,
            )) by {
                if pre.has_role_id(x) {
                    let w = choose|w: int|
                        0 <= w < rs.len() && (#[trigger] rs[w]).id == x;
                    assert(role_pred@(rs[w]));
                    assert(rs.filter(role_pred@).contains(rs[w]));
                    let v = choose|v: int|
                        0 <= v < post.roles@.len() && post.roles@[v] == rs[w];
                    assert(post.roles@[v].id == x);
                }
                if post.has_role_id(x) {
                    let w = choose|w: int|
                        0 <= w < post.roles@.len() && (#[trigger] post.roles@[w]).id == x;
                    assert(rs.contains(post.roles@[w]));
                    let v = choose|v: int| 0 <= v < rs.len() && rs[v] == post.roles@[w];
                    assert(rs[v].id == x);
                }
            }
            assert forall|p2: int| !post.role_has_perm(id as int, p2) by {
                if post.role_has_perm(id as int, p2) {
                    let w = choose|w: int|
                        0 <= w < post.role_permissions@.len() && (
                        #[trigger] post.role_permissions@[w]).role_id == id
                            && post.role_permissions@[w].permission_id == p2;
                    assert(rp_pred@(post.role_permissions@[w]));
                }
            }
            assert forall|u2: int| !post.user_has_role(u2, id as int) by {
                if post.user_has_role(u2, id as int) {
                    let w = choose|w: int|
                        0 <= w < post.user_roles@.len() && (#[trigger] post.user_roles@[w]).user_id
                            == u2 && post.user_roles@[w].role_id == id;
                    assert(ur_pred@(post.user_roles@[w]));
                }
            }
            assert forall|r2: int, p2: int| r2 != id implies (#[trigger] post.role_has_perm(
                r2,
                p2,
            ) <==> pre.role_has_perm(r2, p2)) by {
                if pre.role_has_perm(r2, p2) {
                    let w = choose|w: int|
                        0 <= w < rps.len() && (#[trigger] rps[w]).role_id == r2
                            && rps[w].permission_id == p2;
                    assert(rp_pred@(rps[w]));
                    assert(rps.filter(rp_pred@).contains(rps[w]));
                    let v = choose|v: int|
                        0 <= v < post.role_permissions@.len() && post.role_permissions@[v]
                            == rps[w];
                    assert(post.role_permissions@[v].role_id == r2);
                }
                if post.role_has_perm(r2, p2) {
                    let w = choose|w: int|
                        0 <= w < post.role_permissions@.len() && (
                        #[trigger] post.role_permissions@[w]).role_id == r2
                            && post.role_permissions@[w].permission_id == p2;
                    assert(rps.contains(post.role_permissions@[w]));
                    let v = choose|v: int|
                        0 <= v < rps.len() && rps[v] == post.role_permissions@[w];
                    assert(rps[v].role_id == r2);
                }
            }
            assert forall|u2: int, r2: int| r2 != id implies (#[trigger] post.user_has_role(
                u2,
                r2,
            ) <==> pre.user_has_role(u2, r2)) by {
                if pre.user_has_role(u2, r2) {
                    let w = choose|w: int|
                        0 <= w < urs.len() && (#[trigger] urs[w]).user_id == u2 && urs[w].role_id
                            == r2;
                    assert(ur_pred@(urs[w]));
                    assert(urs.filter(ur_pred@).contains(urs[w]));
                    let v = choose|v: int|
                        0 <= v < post.user_roles@.len() && post.user_roles@[v] == urs[w];
                    assert(post.user_roles@[v].user_id == u2);
                }
                if post.user_has_role(u2, r2) {
                    let w = choose|w: int|
                        0 <= w < post.user_roles@.len() && (#[trigger] post.user_roles@[w]).user_id
                            == u2 && post.user_roles@[w].role_id == r2;
                    assert(urs.contains(post.user_roles@[w]));
                    let v = choose|v: int| 0 <= v < urs.len() && urs[v] == post.user_roles@[w];
                    assert(urs[v].user_id == u2);
                }
            }
            assert forall|k2: int|
                0 <= k2 < post.role_permissions@.len() implies post.has_role_id(
                (#[trigger] post.role_permissions@[k2]).role_id as int,
            ) && post.has_perm_id(post.role_permissions@[k2].permission_id as int) by {
                assert(rps.contains(post.role_permissions@[k2]));
                let w = choose|w: int|
                    0 <= w < rps.len() && rps[w] == post.role_permissions@[k2];
                assert(pre.has_role_id(rps[w].role_id as int));
                assert(pre.has_perm_id(rps[w].permission_id as int));
                assert(rp_pred@(post.role_permissions@[k2]));
            }
            assert forall|k2: int|
                0 <= k2 < post.user_roles@.len() implies post.has_user_id(
                (#[trigger] post.user_roles@[k2]).user_id as int,
            ) && post.has_role_id(post.user_roles@[k2].role_id as int) by {
                assert(urs.contains(post.user_roles@[k2]));
                let w = choose|w: int| 0 <= w < urs.len() && urs[w] == post.user_roles@[k2];
                assert(pre.has_user_id(urs[w].user_id as int));
                assert(pre.has_role_id(urs[w].role_id as int));
                assert(ur_pred@(post.user_roles@[k2]));
            }
            assert forall|i2: int, j2: int|
                0 <= i2 < j2 < post.role_permissions@.len() implies (
            #[trigger] post.role_permissions@[i2]) != (#[trigger] post.role_permissions@[j2]) by {
                assert((|a: RolePermission, b: RolePermission| a != b)(
                    post.role_permissions@[i2],
                    post.role_permissions@[j2],
                ));
            }
            assert forall|i2: int, j2: int|
                0 <= i2 < j2 < post.user_roles@.len() implies (#[trigger] post.user_roles@[i2])
                != (#[trigger] post.user_roles@[j2]) by {
                assert((|a: UserRole, b: UserRole| a != b)(
                    post.user_roles@[i2],
                    post.user_roles@[j2],
                ));
            }
            assert(post.users_wf());
            assert(post.roles_wf());
            assert(post.perms_wf());
            assert(post.user_roles_wf());
            assert(post.role_permissions_wf());
        }
        Ok(())
    }

    /// Rename a role. Fails with `NotFound` when the id is absent and
    /// with `AlreadyExists` when another role holds the new name.
    pub fn update_role_name(&mut self, id: Pk, new_name: String, now: i64) -> (r: Result<
        Role,
        AppError,
    >)
        requires
            old(self).wf(),
        ensures
            final(self).wf(),
            RbacStore::users_same(*old(self), *final(self)),
            RbacStore::perms_same(*old(self), *final(self)),
            RbacStore::role_permissions_same(*old(self), *final(self)),
            RbacStore::user_roles_same(*old(self), *final(self)),
            final(self).next_role_id == old(self).next_role_id,
            match r {
                Ok(role) => {
                    &&& old(self).has_role_id(id as int)
                    &&& role.id == id
                    &&& role.name == new_name
                    &&& role.description == old(self).spec_role(id as int).description
                    &&& role.created_at == old(self).spec_role(id as int).created_at
                    &&& role.updated_at == now
                    &&& final(self).roles@ == old(self).roles@.update(
                        old(self).role_idx(id as int),
                        role,
                    )
                    &&& final(self).has_role_id(id as int)
                },
                Err(e) => {
                    &&& *final(self) == *old(self)
                    &&& (e.kind == ErrorKind::NotFound <==> !old(self).has_role_id(id as int))
                    &&& (e.kind == ErrorKind::AlreadyExists <==> old(self).has_role_id(id as int)
                        && new_name@ != old(self).spec_role(id as int).name@ && old(
                        self,
                    ).has_role_named(new_name@))
                    &&& (e.kind == ErrorKind::NotFound || e.kind == ErrorKind::AlreadyExists)
                },
            },
    {
        let idx = match self.role_index(id) {
            None => {
                return Err(ErrorKind::NotFound.with_message(String::from_str(
                    "Role not found",
                )));
            },
            Some(i) => i,
        };
        proof {
            self.lemma_spec_role_at(idx as int);
        }
        let name_differs = !crate::matching::str_eq(
            self.roles[idx].name.as_str(),
            new_name.as_str(),
        );
        if name_differs && self.exists_role_by_name(new_name.as_str()) {
            return Err(ErrorKind::AlreadyExists.with_message(String::from_str(
                "Role name already exists",
            )));
        }
        let updated = Role {
            id: self.roles[idx].id,
            name: new_name,
            description: crate::model::clone_opt_string(&self.roles[idx].description),
            created_at: self.roles[idx].created_at,
            updated_at: now,
        };
        let result = updated.clone();
        self.roles.set(idx, updated);
        proof {
            let pre = *old(self);
            let post = *self;
            RbacStore::lemma_user_lookups_same(pre, post);
            RbacStore::lemma_perm_lookups_same(pre, post);
            assert forall|x: int| pre.has_role_id(x) implies post.has_role_id(x) by {
                let w = choose|w: int|
                    0 <= w < pre.roles@.len() && (#[trigger] pre.roles@[w]).id == x;
                assert(post.roles@[w].id == x);
            }
            assert forall|x: int| post.has_role_id(x) implies pre.has_role_id(x) by {
                let w = choose|w: int|
                    0 <= w < post.roles@.len() && (#[trigger] post.roles@[w]).id == x;
                assert(pre.roles@[w].id == x);
            }
            assert forall|i: int, j: int|
                0 <= i < j < post.roles@.len() implies (#[trigger] post.roles@[i]).name@ != (
            #[trigger] post.roles@[j]).name@ by {
                if i != idx as int && j != idx as int {
                    assert(pre.roles@[i].name@ != pre.roles@[j].name@);
                } else {
                    if name_differs {
                        assert(!pre.has_role_named(result.name@));
                        if i == idx as int {
                            assert(pre.has_role_named(pre.roles@[j].name@));
                        } else {
                            assert(pre.has_role_named(pre.roles@[i].name@));
                        }
                    }
                }
            }
            assert forall|k: int|
                0 <= k < post.user_roles@.len() implies post.has_user_id(
                (#[trigger] post.user_roles@[k]).user_id as int,
            ) && post.has_role_id(post.user_roles@[k].role_id as int) by {
                assert(pre.has_user_id(pre.user_roles@[k].user_id as int));
                assert(pre.has_role_id(pre.user_roles@[k].role_id as int));
            }
            assert forall|k: int|
                0 <= k < post.role_permissions@.len() implies post.has_role_id(
                (#[trigger] post.role_permissions@[k]).role_id as int,
            ) && post.has_perm_id(post.role_permissions@[k].permission_id as int) by {
                assert(pre.has_role_id(pre.role_permissions@[k].role_id as int));
                assert(pre.has_perm_id(pre.role_permissions@[k].permission_id as int));
            }
            assert(post.users_wf());
            assert(post.roles_wf());
            assert(post.perms_wf());
            assert(post.user_roles_wf());
            assert(post.role_permissions_wf());
        }
        Ok(result)
    }

    /// Change a role's description. Fails with `NotFound` when the id is
    /// absent.
    pub fn update_role_description(
        &mut self,
        id: Pk,
        description: Option<String>,
        now: i64,
    ) -> (r: Result<Role, AppError>)
        requires
            old(self).wf(),
        ensures
            final(self).wf(),
            RbacStore::users_same(*old(self), *final(self)),
            RbacStore::perms_same(*old(self), *final(self)),
            RbacStore::role_permissions_same(*old(self), *final(self)),
            RbacStore::user_roles_same(*old(self), *final(self)),
            final(self).next_role_id == old(self).next_role_id,
            match r {
                Ok(role) => {
                    &&& old(self).has_role_id(id as int)
                    &&& role.id == id
                    &&& role.name == old(self).spec_role(id as int).name
                    &&& role.description == description
                    &&& role.created_at == old(self).spec_role(id as int).created_at
                    &&& role.updated_at == now
                    &&& final(self).roles@ == old(self).roles@.update(
                        old(self).role_idx(id as int),
                        role,
                    )
                },
                Err(e) => {
                    &&& *final(self) == *old(self)
                    &&& e.kind == ErrorKind::NotFound
                    &&& !old(self).has_role_id(id as int)
                },
            },
    {
        let idx = match self.role_index(id) {
            None => {
                return Err(ErrorKind::NotFound.with_message(String::from_str(
                    "Role not found",
                )));
            },
            Some(i) => i,
        };
        proof {
            self.lemma_spec_role_at(idx as int);
        }
        let updated = Role {
            id: self.roles[idx].id,
            name: self.roles[idx].name.clone(),
            description,
            created_at: self.roles[idx].created_at,
            updated_at: now,
        };
        let result = updated.clone();
        self.roles.set(idx, updated);
        proof {
            let pre = *old(self);
            let post = *self;
            RbacStore::lemma_user_lookups_same(pre, post);
            RbacStore::lemma_perm_lookups_same(pre, post);
            assert forall|x: int| pre.has_role_id(x) implies post.has_role_id(x) by {
                let w = choose|w: int|
                    0 <= w < pre.roles@.len() && (#[trigger] pre.roles@[w]).id == x;
                assert(post.roles@[w].id == x);
            }
            assert forall|i: int, j: int|
                0 <= i < j < post.roles@.len() implies (#[trigger] post.roles@[i]).name@ != (
            #[trigger] post.roles@[j]).name@ by {
                assert(pre.roles@[i].name@ != pre.roles@[j].name@);
            }
            assert forall|k: int|
                0 <= k < post.user_roles@.len() implies post.has_user_id(
                (#[trigger] post.user_roles@[k]).user_id as int,
            ) && post.has_role_id(post.user_roles@[k].role_id as int) by {
                assert(pre.has_user_id(pre.user_roles@[k].user_id as int));
                assert(pre.has_role_id(pre.user_roles@[k].role_id as int));
            }
            assert forall|k: int|
                0 <= k < post.role_permissions@.len() implies post.has_role_id(
                (#[trigger] post.role_permissions@[k]).role_id as int,
            ) && post.has_perm_id(post.role_permissions@[k].permission_id as int) by {
                assert(pre.has_role_id(pre.role_permissions@[k].role_id as int));
                assert(pre.has_perm_id(pre.role_permissions@[k].permission_id as int));
            }
            assert(post.users_wf());
            assert(post.roles_wf());
            assert(post.perms_wf());
            assert(post.user_roles_wf());
            assert(post.role_permissions_wf());
        }
        Ok(result)
    }

    /// Assign a role to a user. Fails with `NotFound` when either id is
    /// absent and with `AlreadyExists` when the assignment is already
    /// there.
    pub fn assign_role_to_user(&mut self, user_id: Pk, role_id: Pk) -> (r: Result<
        (),
        AppError,
    >)
        requires
            old(self).wf(),
        ensures
            final(self).wf(),
            RbacStore::users_same(*old(self), *final(self)),
            RbacStore::roles_same(*old(self), *final(self)),
            RbacStore::perms_same(*old(self), *final(self)),
            RbacStore::role_permissions_same(*old(self), *final(self)),
            match r {
                Ok(_) => {
                    &&& old(self).has_user_id(user_id as int)
                    &&& old(self).has_role_id(role_id as int)
                    &&& !old(self).user_has_role(user_id as int, role_id as int)
                    &&& final(self).user_roles@ == old(self).user_roles@.push(
                        UserRole { user_id, role_id },
                    )
                    &&& final(self).user_has_role(user_id as int, role_id as int)
                },
                Err(e) => {
                    &&& *final(self) == *old(self)
                    &&& (e.kind == ErrorKind::NotFound <==> !(old(self).has_user_id(
                        user_id as int,
                    ) && old(self).has_role_id(role_id as int)))
                    &&& (e.kind == ErrorKind::AlreadyExists <==> old(self).has_user_id(
                        user_id as int,
                    ) && old(self).has_role_id(role_id as int) && old(self).user_has_role(
                        user_id as int,
                        role_id as int,
                    ))
                    &&& (e.kind == ErrorKind::NotFound || e.kind == ErrorKind::AlreadyExists)
                },
            },
    {
        if self.user_index(user_id).is_none() {
            return Err(ErrorKind::NotFound.with_message(String::from_str("User not found")));
        }
        if self.role_index(role_id).is_none() {
            return Err(ErrorKind::NotFound.with_message(String::from_str("Role not found")));
        }
        if self.user_role_exists(user_id, role_id) {
            return Err(ErrorKind::AlreadyExists.with_message(String::from_str(
                "Role already assigned to user",
            )));
        }
        let row = UserRole { user_id, role_id };
        self.user_roles.push(row);
        proof {
            let pre = *old(self);
            let post = *self;
            assert(post.user_roles@.last() == row);
            assert forall|i: int, j: int|
                0 <= i < j < post.user_roles@.len() implies (#[trigger] post.user_roles@[i]) != (
            #[trigger] post.user_roles@[j]) by {
                if j == post.user_roles@.len() - 1 {
                    assert(pre.user_has_role(user_id as int, role_id as int) || (
                    pre.user_roles@[i] != row));
                }
            }
            assert(post.user_has_role(user_id as int, role_id as int)) by {
                assert(post.user_roles@[post.user_roles@.len() - 1] == row);
            }
            RbacStore::lemma_user_lookups_same(pre, post);
            RbacStore::lemma_role_lookups_same(pre, post);
            RbacStore::lemma_perm_lookups_same(pre, post);
            assert forall|k: int|
                0 <= k < post.user_roles@.len() implies post.has_user_id(
                (#[trigger] post.user_roles@[k]).user_id as int,
            ) && post.has_role_id(post.user_roles@[k].role_id as int) by {
                if k < pre.user_roles@.len() {
                    assert(pre.user_roles@[k] == post.user_roles@[k]);
                    assert(pre.has_user_id(pre.user_roles@[k].user_id as int));
                    assert(pre.has_role_id(pre.user_roles@[k].role_id as int));
                } else {
                    assert(post.user_roles@[k] == row);
                }
            }
            assert forall|k: int|
                0 <= k < post.role_permissions@.len() implies post.has_role_id(
                (#[trigger] post.role_permissions@[k]).role_id as int,
            ) && post.has_perm_id(post.role_permissions@[k].permission_id as int) by {
                assert(pre.role_permissions@[k] == post.role_permissions@[k]);
                assert(pre.has_role_id(pre.role_permissions@[k].role_id as int));
                assert(pre.has_perm_id(pre.role_permissions@[k].permission_id as int));
            }
            assert(post.users_wf());
            assert(post.roles_wf());
            assert(post.perms_wf());
            assert(post.user_roles_wf());
            assert(post.role_permissions_wf());
        }
        Ok(())
    }

    /// Revoke a role from a user; removing an absent assignment is a
    /// silent no-op.
    pub fn revoke_role_from_user(&mut self, user_id: Pk, role_id: Pk)
        requires
            old(self).wf(),
        ensures
            final(self).wf(),
            RbacStore::users_same(*old(self), *final(self)),
            RbacStore::roles_same(*old(self), *final(self)),
            RbacStore::perms_same(*old(self), *final(self)),
            RbacStore::role_permissions_same(*old(self), *final(self)),
            final(self).user_roles@ == old(self).user_roles@.filter(
                RbacStore::ur_keep_not_pair(user_id as int, role_id as int),
            ),
            !final(self).user_has_role(user_id as int, role_id as int),
            forall|u2: int, r2: int|
                !(u2 == user_id && r2 == role_id) ==> (#[trigger] final(self).user_has_role(
                    u2,
                    r2,
                ) <==> old(self).user_has_role(u2, r2)),
    {
        let pred = Ghost(RbacStore::ur_keep_not_pair(user_id as int, role_id as int));
        let n = self.user_roles.len();
        let mut kept: Vec<UserRole> = Vec::new();
        let mut i: usize = 0;
        while i < n
            invariant
                *self == *old(self),
                n == self.user_roles@.len(),
                i <= n,
                kept@ == self.user_roles@.take(i as int).filter(pred@),
                pred@ == RbacStore::ur_keep_not_pair(user_id as int, role_id as int),
            decreases n - i,
        {
            proof {
                crate::seqtools::lemma_filter_take_step(self.user_roles@, pred@, i as int);
            }
            let row = self.user_roles[i];
            if !(row.user_id == user_id && row.role_id == role_id) {
                kept.push(row);
            }
            i += 1;
        }
        proof {
            assert(self.user_roles@.take(n as int) =~= self.user_roles@);
        }
        self.user_roles = kept;
        proof {
            let pre = *old(self);
            let post = *self;
            let s = pre.user_roles@;
            RbacStore::lemma_user_lookups_same(pre, post);
            RbacStore::lemma_role_lookups_same(pre, post);
            RbacStore::lemma_perm_lookups_same(pre, post);
            crate::seqtools::lemma_filter_membership(s, pred@);
            crate::seqtools::lemma_filter_preserves_pairwise(
                s,
                pred@,
                |a: UserRole, b: UserRole| a != b,
            );
            assert forall|k: int|
                0 <= k < post.user_roles@.len() implies post.has_user_id(
                (#[trigger] post.user_roles@[k]).user_id as int,
            ) && post.has_role_id(post.user_roles@[k].role_id as int) by {
                assert(s.contains(post.user_roles@[k]));
                let w = choose|w: int| 0 <= w < s.len() && s[w] == post.user_roles@[k];
                assert(pre.has_user_id(s[w].user_id as int));
                assert(pre.has_role_id(s[w].role_id as int));
            }
            assert forall|i2: int, j2: int|
                0 <= i2 < j2 < post.user_roles@.len() implies (#[trigger] post.user_roles@[i2])
                != (#[trigger] post.user_roles@[j2]) by {
                assert((|a: UserRole, b: UserRole| a != b)(
                    post.user_roles@[i2],
                    post.user_roles@[j2],
                ));
            }
            assert forall|u2: int, r2: int|
                !(u2 == user_id && r2 == role_id) && old(self).user_has_role(u2, r2)
                implies #[trigger] post.user_has_role(u2, r2) by {
                let w = choose|w: int|
                    0 <= w < s.len() && (#[trigger] s[w]).user_id == u2 && s[w].role_id == r2;
                broadcast use vstd::seq_lib::group_filter_ensures;

                assert(pred@(s[w]));
                assert(s.filter(pred@).contains(s[w]));
                let v = choose|v: int|
                    0 <= v < s.filter(pred@).len() && s.filter(pred@)[v] == s[w];
                assert(post.user_roles@[v] == s[w]);
            }
            assert forall|k: int|
                0 <= k < post.role_permissions@.len() implies post.has_role_id(
                (#[trigger] post.role_permissions@[k]).role_id as int,
            ) && post.has_perm_id(post.role_permissions@[k].permission_id as int) by {
                assert(pre.role_permissions@[k] == post.role_permissions@[k]);
                assert(pre.has_role_id(pre.role_permissions@[k].role_id as int));
                assert(pre.has_perm_id(pre.role_permissions@[k].permission_id as int));
            }
            assert(post.users_wf());
            assert(post.roles_wf());
            assert(post.perms_wf());
            assert(post.user_roles_wf());
            assert(post.role_permissions_wf());
        }
    }

    /// Whether the user holds the permission through some assigned role.
    pub fn user_holds_perm(&self, user_id: Pk, perm_id: Pk) -> (r: bool)
        ensures
            r == self.user_has_perm(user_id as int, perm_id as int),
    {
        let n = self.role_permissions.len();
        let mut i: usize = 0;
        while i < n
            invariant
                n == self.role_permissions@.len(),
                i <= n,
                forall|j: int|
                    0 <= j < i ==> !((#[trigger] self.role_permissions@[j]).permission_id
                        == perm_id && self.user_has_role(
                        user_id as int,
                        self.role_permissions@[j].role_id as int,
                    )),
            decreases n - i,
        {
            let row = self.role_permissions[i];
            if row.permission_id == perm_id && self.user_role_exists(user_id, row.role_id) {
                proof {
                    assert(self.role_has_perm(row.role_id as int, perm_id as int));
                }
                return true;
            }
            i += 1;
        }
        proof {
            if self.user_has_perm(user_id as int, perm_id as int) {
                let rid = choose|rid: int|
                    #[trigger] self.user_has_role(user_id as int, rid) && self.role_has_perm(
                        rid,
                        perm_id as int,
                    );
                let j = choose|j: int|
                    0 <= j < self.role_permissions@.len() && (
                    #[trigger] self.role_permissions@[j]).role_id == rid
                        && self.role_permissions@[j].permission_id == perm_id;
                assert(!((self.role_permissions@[j]).permission_id == perm_id
                    && self.user_has_role(
                    user_id as int,
                    self.role_permissions@[j].role_id as int,
                )));
            }
        }
        false
    }

    /// Every permission assigned to the role, in ascending id order.
    pub fn permissions_of_role(&self, role_id: Pk) -> (r: Vec<Permission>)
        requires
            self.wf(),
        ensures
            r@ == self.spec_permissions_of_role(role_id as int),
            forall|i: int, j: int| 0 <= i < j < r@.len() ==> r@[i].id < r@[j].id,
    {
        let pred = Ghost(self.perms_of_role_pred(role_id as int));
        let n = self.permissions.len();
        let mut out: Vec<Permission> = Vec::new();
        let mut i: usize = 0;
        while i < n
            invariant
                self.wf(),
                n == self.permissions@.len(),
                i <= n,
                out@ == self.permissions@.take(i as int).filter(pred@),
                pred@ == self.perms_of_role_pred(role_id as int),
            decreases n - i,
        {
            proof {
                crate::seqtools::lemma_filter_take_step(self.permissions@, pred@, i as int);
            }
            let p = &self.permissions[i];
            if self.role_permission_exists(role_id, p.id) {
                out.push(self.permissions[i].clone());
            }
            i += 1;
        }
        proof {
            assert(self.permissions@.take(n as int) =~= self.permissions@);
            crate::seqtools::lemma_filter_preserves_pairwise(
                self.permissions@,
                pred@,
                |a: Permission, b: Permission| a.id < b.id,
            );
            assert forall|i2: int, j2: int|
                0 <= i2 < j2 < out@.len() implies (#[trigger] out@[i2]).id < (
            #[trigger] out@[j2]).id by {
                assert((|a: Permission, b: Permission| a.id < b.id)(out@[i2], out@[j2]));
            }
        }
        out
    }

    /// Every role assigned to the user, in ascending id order.
    pub fn roles_of_user(&self, user_id: Pk) -> (r: Vec<Role>)
        requires
            self.wf(),
        ensures
            r@ == self.spec_roles_of_user(user_id as int),
            forall|i: int, j: int| 0 <= i < j < r@.len() ==> r@[i].id < r@[j].id,
    {
        let pred = Ghost(self.roles_of_user_pred(user_id as int));
        let n = self.roles.len();
        let mut out: Vec<Role> = Vec::new();
        let mut i: usize = 0;
        while i < n
            invariant
                self.wf(),
                n == self.roles@.len(),
                i <= n,
                out@ == self.roles@.take(i as int).filter(pred@),
                pred@ == self.roles_of_user_pred(user_id as int),
            decreases n - i,
        {
            proof {
                crate::seqtools::lemma_filter_take_step(self.roles@, pred@, i as int);
            }
            let id = self.roles[i].id;
            if self.user_role_exists(user_id, id) {
                out.push(self.roles[i].clone());
            }
            i += 1;
        }
        proof {
            assert(self.roles@.take(n as int) =~= self.roles@);
            crate::seqtools::lemma_filter_preserves_pairwise(
                self.roles@,
                pred@,
                |a: Role, b: Role| a.id < b.id,
            );
            assert forall|i2: int, j2: int|
                0 <= i2 < j2 < out@.len() implies (#[trigger] out@[i2]).id < (
            #[trigger] out@[j2]).id by {
                assert((|a: Role, b: Role| a.id < b.id)(out@[i2], out@[j2]));
            }
        }
        out
    }

    /// The user's effective permission set: the union of the permissions
    /// of all their roles, deduplicated by identity, in ascending id
    /// order.
    pub fn effective_permissions_of_user(&self, user_id: Pk) -> (r: Vec<Permission>)
        requires
            self.wf(),
        ensures
            r@ == self.spec_effective_permissions(user_id as int),
            forall|i: int, j: int| 0 <= i < j < r@.len() ==> r@[i].id < r@[j].id,
    {
        let pred = Ghost(self.perms_of_user_pred(user_id as int));
        let n = self.permissions.len();
        let mut out: Vec<Permission> = Vec::new();
        let mut i: usize = 0;
        while i < n
            invariant
                self.wf(),
                n == self.permissions@.len(),
                i <= n,
                out@ == self.permissions@.take(i as int).filter(pred@),
                pred@ == self.perms_of_user_pred(user_id as int),
            decreases n - i,
        {
            proof {
                crate::seqtools::lemma_filter_take_step(self.permissions@, pred@, i as int);
            }
            let id = self.permissions[i].id;
            if self.user_holds_perm(user_id, id) {
                out.push(self.permissions[i].clone());
            }
            i += 1;
        }
        proof {
            assert(self.permissions@.take(n as int) =~= self.permissions@);
            crate::seqtools::lemma_filter_preserves_pairwise(
                self.permissions@,
                pred@,
                |a: Permission, b: Permission| a.id < b.id,
            );
            assert forall|i2: int, j2: int|
                0 <= i2 < j2 < out@.len() implies (#[trigger] out@[i2]).id < (
            #[trigger] out@[j2]).id by {
                assert((|a: Permission, b: Permission| a.id < b.id)(out@[i2], out@[j2]));
            }
        }
        out
    }

    /// Whether the user's effective set holds a permission with exactly
    /// the (resource, action) pair; wildcard-aware checks live on the
    /// principal.
    pub fn user_has_permission(&self, user_id: Pk, resource: &str, action: &str) -> (r: bool)
        requires
            self.wf(),
        ensures
            r == self.spec_user_has_pair(user_id as int, resource@, action@),
    {
        let n = self.permissions.len();
        let mut i: usize = 0;
        while i < n
            invariant
                self.wf(),
                n == self.permissions@.len(),
                i <= n,
                forall|j: int|
                    0 <= j < i ==> !(self.user_has_perm(
                        user_id as int,
                        (#[trigger] self.permissions@[j]).id as int,
                    ) && self.permissions@[j].resource@ == resource@
                        && self.permissions@[j].action@ == action@),
            decreases n - i,
        {
            let p = &self.permissions[i];
            if crate::matching::str_eq(p.resource.as_str(), resource) && crate::matching::str_eq(
                p.action.as_str(),
                action,
            ) && self.user_holds_perm(user_id, p.id) {
                return true;
            }
            i += 1;
        }
        false
    }

    /// Whether the role holds a permission covered by the queried catalog
    /// permission, taking the query as the grant in the wildcard
    /// comparison.
    pub fn role_has_permission(&self, role_id: Pk, perm: crate::catalog::Perm) -> (r: bool)
        requires
            self.wf(),
        ensures
            r == exists|i: int|
                0 <= i < self.permissions@.len() && self.role_has_perm(
                    role_id as int,
                    (#[trigger] self.permissions@[i]).id as int,
                ) && crate::matching::spec_matches(
                    crate::catalog::spec_resource_str(crate::catalog::spec_resource_action(perm).0),
                    crate::catalog::spec_action_str(crate::catalog::spec_resource_action(perm).1),
                    self.permissions@[i].resource@,
                    self.permissions@[i].action@,
                ),
    {
        let n = self.permissions.len();
        let mut i: usize = 0;
        while i < n
            invariant
                self.wf(),
                n == self.permissions@.len(),
                i <= n,
                forall|j: int|
                    0 <= j < i ==> !(self.role_has_perm(
                        role_id as int,
                        (#[trigger] self.permissions@[j]).id as int,
                    ) && crate::matching::spec_matches(
                        crate::catalog::spec_resource_str(
                            crate::catalog::spec_resource_action(perm).0,
                        ),
                        crate::catalog::spec_action_str(
                            crate::catalog::spec_resource_action(perm).1,
                        ),
                        self.permissions@[j].resource@,
                        self.permissions@[j].action@,
                    )),
            decreases n - i,
        {
            let p = &self.permissions[i];
            if self.role_permission_exists(role_id, p.id) && perm.matches(
                p.resource.as_str(),
                p.action.as_str(),
            ) {
                return true;
            }
            i += 1;
        }
        false
    }

    /// Every role, in table order.
    pub fn list_all_roles(&self) -> (r: Vec<Role>)
        ensures
            r@ == self.roles@,
    {
        let n = self.roles.len();
        let mut out: Vec<Role> = Vec::new();
        let mut i: usize = 0;
        while i < n
            invariant
                n == self.roles@.len(),
                i <= n,
                out@ == self.roles@.take(i as int),
            decreases n - i,
        {
            out.push(self.roles[i].clone());
            proof {
                assert(self.roles@.take(i + 1) =~= self.roles@.take(i as int).push(
                    self.roles@[i as int],
                ));
            }
            i += 1;
        }
        proof {
            assert(self.roles@.take(n as int) =~= self.roles@);
        }
        out
    }

    /// Every permission, in table order.
    pub fn list_all_permissions(&self) -> (r: Vec<Permission>)
        ensures
            r@ == self.permissions@,
    {
        let n = self.permissions.len();
        let mut out: Vec<Permission> = Vec::new();
        let mut i: usize = 0;
        while i < n
            invariant
                n == self.permissions@.len(),
                i <= n,
                out@ == self.permissions@.take(i as int),
            decreases n - i,
        {
            out.push(self.permissions[i].clone());
            proof {
                assert(self.permissions@.take(i + 1) =~= self.permissions@.take(i as int).push(
                    self.permissions@[i as int],
                ));
            }
            i += 1;
        }
        proof {
            assert(self.permissions@.take(n as int) =~= self.permissions@);
        }
        out
    }

    /// One page of the user table.
    pub fn list_users(&self, page: u64, per_page: u64) -> (r: Vec<User>)
        ensures
            r@ == crate::seqtools::spec_page(self.users@, page as int, per_page as int),
    {
        let (start, end) = page_bounds(self.users.len(), page, per_page);
        let mut out: Vec<User> = Vec::new();
        let mut i: usize = start;
        while i < end
            invariant
                start <= i <= end <= self.users@.len(),
                out@ == self.users@.subrange(start as int, i as int),
            decreases end - i,
        {
            out.push(self.users[i].clone());
            proof {
                assert(self.users@.subrange(start as int, i + 1) =~= self.users@.subrange(
                    start as int,
                    i as int,
                ).push(self.users@[i as int]));
            }
            i += 1;
        }
        out
    }

    /// One page of the role table.
    pub fn list_roles(&self, page: u64, per_page: u64) -> (r: Vec<Role>)
        ensures
            r@ == crate::seqtools::spec_page(self.roles@, page as int, per_page as int),
    {
        let (start, end) = page_bounds(self.roles.len(), page, per_page);
        let mut out: Vec<Role> = Vec::new();
        let mut i: usize = start;
        while i < end
            invariant
                start <= i <= end <= self.roles@.len(),
                out@ == self.roles@.subrange(start as int, i as int),
            decreases end - i,
        {
            out.push(self.roles[i].clone());
            proof {
                assert(self.roles@.subrange(start as int, i + 1) =~= self.roles@.subrange(
                    start as int,
                    i as int,
                ).push(self.roles@[i as int]));
            }
            i += 1;
        }
        out
    }

    /// One page of the permission table.
    pub fn list_permissions(&self, page: u64, per_page: u64) -> (r: Vec<Permission>)
        ensures
            r@ == crate::seqtools::spec_page(self.permissions@, page as int, per_page as int),
    {
        let (start, end) = page_bounds(self.permissions.len(), page, per_page);
        let mut out: Vec<Permission> = Vec::new();
        let mut i: usize = start;
        while i < end
            invariant
                start <= i <= end <= self.permissions@.len(),
                out@ == self.permissions@.subrange(start as int, i as int),
            decreases end - i,
        {
            out.push(self.permissions[i].clone());
            proof {
                assert(self.permissions@.subrange(start as int, i + 1)
                    =~= self.permissions@.subrange(start as int, i as int).push(
                    self.permissions@[i as int],
                ));
            }
            i += 1;
        }
        out
    }

    /// The role carrying the id, or `NotFound`.
    pub fn get_role_by_id(&self, id: Pk) -> (r: Result<Role, AppError>)
        requires
            self.wf(),
        ensures
            r is Ok <==> self.has_role_id(id as int),
            r matches Ok(role) ==> role == self.spec_role(id as int),
            r is Err ==> r->Err_0.kind == ErrorKind::NotFound,
    {
        match self.find_role_by_id(id) {
            Some(role) => Ok(role),
            None => Err(ErrorKind::NotFound.with_message(String::from_str("Role not found"))),
        }
    }

    /// The user carrying the id, or `NotFound`.
    pub fn get_user_by_id(&self, id: Pk) -> (r: Result<User, AppError>)
        requires
            self.wf(),
        ensures
            r is Ok <==> self.has_user_id(id as int),
            r matches Ok(user) ==> user == self.spec_user(id as int),
            r is Err ==> r->Err_0.kind == ErrorKind::NotFound,
    {
        match self.find_user_by_id(id) {
            Some(user) => Ok(user),
            None => Err(ErrorKind::NotFound.with_message(String::from_str("User not found"))),
        }
    }

    /// The permission carrying the id, or `NotFound`.
    pub fn get_permission_by_id(&self, id: Pk) -> (r: Result<Permission, AppError>)
        requires
            self.wf(),
        ensures
            r is Ok <==> self.has_perm_id(id as int),
            r matches Ok(perm) ==> perm == self.spec_perm(id as int),
            r is Err ==> r->Err_0.kind == ErrorKind::NotFound,
    {
        match self.find_permission_by_id(id) {
            Some(perm) => Ok(perm),
            None => Err(ErrorKind::NotFound.with_message(String::from_str(
                "Permission not found",
            ))),
        }
    }

    /// Grant a permission to a role, both resolved by their natural
    /// names: the role by its name, the permission by its
    /// (resource, action) pair. `NotFound` when either is absent;
    /// `AlreadyExists` when the assignment is already there.
    pub fn assign_permission_by_name(
        &mut self,
        role_name: &str,
        resource: &str,
        action: &str,
    ) -> (r: Result<(), AppError>)
        requires
            old(self).wf(),
        ensures
            final(self).wf(),
            RbacStore::users_same(*old(self), *final(self)),
            RbacStore::roles_same(*old(self), *final(self)),
            RbacStore::perms_same(*old(self), *final(self)),
            RbacStore::user_roles_same(*old(self), *final(self)),
            (r is Err && r->Err_0.kind == ErrorKind::NotFound) <==> !(old(self).has_role_named(
                role_name@,
            ) && old(self).has_perm_pair(resource@, action@)),
            (r is Err && r->Err_0.kind == ErrorKind::AlreadyExists) <==> (old(
                self,
            ).has_role_named(role_name@) && old(self).has_perm_pair(resource@, action@) && old(
                self,
            ).named_role_has_pair(role_name@, resource@, action@)),
            r is Ok ==> final(self).named_role_has_pair(role_name@, resource@, action@),
            r is Ok ==> exists|i: int, j: int|
                0 <= i < old(self).roles@.len() && (#[trigger] old(self).roles@[i]).name@
                    == role_name@ && 0 <= j < old(self).permissions@.len() && (
                #[trigger] old(self).permissions@[j]).resource@ == resource@ && old(
                    self,
                ).permissions@[j].action@ == action@ && final(self).role_has_perm(
                    old(self).roles@[i].id as int,
                    old(self).permissions@[j].id as int,
                ),
            r is Err ==> *final(self) == *old(self) && (r->Err_0.kind == ErrorKind::NotFound
                || r->Err_0.kind == ErrorKind::AlreadyExists),
    {
        let role = match self.find_role_by_name(role_name) {
            Some(role) => role,
            None => {
                return Err(ErrorKind::NotFound.with_message(String::from_str(
                    "Role not found",
                )));
            },
        };
        let perm = match self.find_by_resource_action(resource, action) {
            Some(perm) => perm,
            None => {
                return Err(ErrorKind::NotFound.with_message(String::from_str(
                    "Permission not found",
                )));
            },
        };
        proof {
            let w = choose|w: int|
                0 <= w < self.roles@.len() && #[trigger] self.roles@[w] == role && role.name@
                    == role_name@;
            self.lemma_spec_role_at(w);
            let v = choose|v: int|
                0 <= v < self.permissions@.len() && #[trigger] self.permissions@[v] == perm
                    && perm.resource@ == resource@ && perm.action@ == action@;
            self.lemma_spec_perm_at(v);
            assert forall|i: int|
                0 <= i < self.roles@.len() && (#[trigger] self.roles@[i]).name@ == role_name@
                implies self.roles@[i].id == role.id by {
                if i != w {
                    if i < w {
                        assert(self.roles@[i].name@ != self.roles@[w].name@);
                    } else {
                        assert(self.roles@[w].name@ != self.roles@[i].name@);
                    }
                }
            }
            assert forall|j: int|
                0 <= j < self.permissions@.len() && (#[trigger] self.permissions@[j]).resource@
                    == resource@ && self.permissions@[j].action@ == action@
                implies self.permissions@[j].id == perm.id by {
                if j != v {
                    assert(!(self.permissions@[j].resource@ == self.permissions@[v].resource@
                        && self.permissions@[j].action@ == self.permissions@[v].action@));
                }
            }
            assert(self.named_role_has_pair(role_name@, resource@, action@)
                <==> self.role_has_perm(role.id as int, perm.id as int)) by {
                if self.role_has_perm(role.id as int, perm.id as int) {
                    assert(self.roles@[w].name@ == role_name@ && self.permissions@[v].resource@
                        == resource@);
                }
            }
        }
        let ghost mid = *self;
        match self.assign_permission_to_role(role.id, perm.id) {
            Ok(_) => {
                proof {
                    let w = choose|w: int|
                        0 <= w < mid.roles@.len() && #[trigger] mid.roles@[w] == role
                            && role.name@ == role_name@;
                    let v = choose|v: int|
                        0 <= v < mid.permissions@.len() && #[trigger] mid.permissions@[v]
                            == perm && perm.resource@ == resource@ && perm.action@ == action@;
                    assert(self.roles@[w] == role && self.permissions@[v] == perm);
                    assert(self.named_role_has_pair(role_name@, resource@, action@));
                }
                Ok(())
            },
            Err(e) => Err(e),
        }
    }
}

/// The half-open index range `[start, end)` of one page: empty at the
/// table's end when the page starts past it.
fn page_bounds(len: usize, page: u64, per_page: u64) -> (r: (usize, usize))
    ensures
        r.0 <= r.1 <= len,
        page * per_page >= len ==> r.0 == len && r.1 == len,
        page * per_page < len ==> r.0 == page * per_page && (r.1 == if page * per_page + per_page
            >= len {
            len as int
        } else {
            page * per_page + per_page
        }),
{
    proof {
        vstd::arithmetic::mul::lemma_mul_upper_bound(
            page as int,
            0xffff_ffff_ffff_ffff,
            per_page as int,
            0xffff_ffff_ffff_ffff,
        );
    }
    let prod: u128 = (page as u128) * (per_page as u128);
    if prod >= len as u128 {
        return (len, len);
    }
    let start = prod as usize;
    let rem = len - start;
    if per_page as u128 >= rem as u128 {
        (start, len)
    } else {
        (start, start + per_page as usize)
    }
}

} // verus!
