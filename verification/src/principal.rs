//! The authenticated principal: a user together with their resolved
//! roles and effective permissions, built per session and never stored.

use vstd::prelude::*;

use crate::catalog;
use crate::catalog::Perm;
use crate::matching;
use crate::model::Permission;
use crate::model::Pk;
use crate::model::Role;
use crate::model::User;
use crate::model::spec_full_name;
use crate::store::RbacStore;

verus! {

/// A user with their resolved roles and effective permission set.
pub struct UserPrincipal {
    /// The authenticated user row.
    pub user: User,
    /// The user's roles, in ascending id order.
    pub roles: Vec<Role>,
    /// The user's effective permissions, in ascending id order.
    pub permissions: Vec<Permission>,
}

/// The catalog permission a stored permission row stands for, if any.
pub open spec fn perm_to_catalog() -> spec_fn(Permission) -> Option<Perm> {
    |p: Permission| catalog::spec_catalog_lookup(p.resource@, p.action@)
}

impl UserPrincipal {
    /// Whether this principal is exactly the projection of the user's
    /// current state in the store.
    pub open spec fn resolved_from(self, s: RbacStore) -> bool {
        &&& s.has_user_id(self.user.id as int)
        &&& self.user == s.spec_user(self.user.id as int)
        &&& self.roles@ == s.spec_roles_of_user(self.user.id as int)
        &&& self.permissions@ == s.spec_effective_permissions(self.user.id as int)
    }

    /// Whether the principal holds a role of the given name.
    pub open spec fn spec_has_role(self, name: Seq<char>) -> bool {
        exists|i: int|
            0 <= i < self.roles@.len() && (#[trigger] self.roles@[i]).name@ == name
    }

    /// Whether some effective permission covers the required
    /// (resource, action) pair, under the structured wildcard semantics.
    pub open spec fn spec_has_permission(self, res: Seq<char>, act: Seq<char>) -> bool {
        exists|i: int|
            0 <= i < self.permissions@.len() && matching::spec_matches(
                (#[trigger] self.permissions@[i]).resource@,
                self.permissions@[i].action@,
                res,
                act,
            )
    }

    /// Whether some effective permission's code covers the required code,
    /// under the legacy string-code wildcard semantics.
    pub open spec fn spec_has_code(self, code: Seq<char>) -> bool {
        exists|i: int|
            0 <= i < self.permissions@.len() && matching::spec_code_matches(
                spec_full_name(
                    (#[trigger] self.permissions@[i]).resource@,
                    self.permissions@[i].action@,
                ),
                code,
            )
    }

    /// The authenticated user's id.
    pub fn id(&self) -> (r: Pk)
        ensures
            r == self.user.id,
    {
        self.user.id
    }

    /// The session fingerprint: the user's current password hash. A
    /// session bound to this value is invalid once the hash changes.
    pub fn session_auth_hash(&self) -> (r: &str)
        ensures
            r@ == self.user.password@,
    {
        self.user.password.as_str()
    }

    /// Whether the principal holds a role of the given name.
    pub fn has_role(&self, role_name: &str) -> (r: bool)
        ensures
            r == self.spec_has_role(role_name@),
    {
        let n = self.roles.len();
        let mut i: usize = 0;
        while i < n
            invariant
                n == self.roles@.len(),
                i <= n,
                forall|j: int| 0 <= j < i ==> (#[trigger] self.roles@[j]).name@ != role_name@,
            decreases n - i,
        {
            if matching::str_eq(self.roles[i].name.as_str(), role_name) {
                return true;
            }
            i += 1;
        }
        false
    }

    /// Whether the principal may act on the required (resource, action)
    /// pair: true iff some effective permission matches it, with the
    /// ("admin", "*") grant covering everything and a granted action of
    /// "*" covering every action on its resource. Pure; no store access.
    pub fn has_permission(&self, resource: &str, action: &str) -> (r: bool)
        ensures
            r == self.spec_has_permission(resource@, action@),
    {
        let n = self.permissions.len();
        let mut i: usize = 0;
        while i < n
            invariant
                n == self.permissions@.len(),
                i <= n,
                forall|j: int|
                    0 <= j < i ==> !matching::spec_matches(
                        (#[trigger] self.permissions@[j]).resource@,
                        self.permissions@[j].action@,
                        resource@,
                        action@,
                    ),
            decreases n - i,
        {
            if self.permissions[i].matches_pair(resource, action) {
                return true;
            }
            i += 1;
        }
        false
    }

    /// Whether the principal may act on the required permission code,
    /// under the legacy string-code wildcard semantics.
    pub fn has_permission_by_code(&self, code: &str) -> (r: bool)
        ensures
            r == self.spec_has_code(code@),
    {
        let n = self.permissions.len();
        let mut i: usize = 0;
        while i < n
            invariant
                n == self.permissions@.len(),
                i <= n,
                forall|j: int|
                    0 <= j < i ==> !matching::spec_code_matches(
                        spec_full_name(
                            (#[trigger] self.permissions@[j]).resource@,
                            self.permissions@[j].action@,
                        ),
                        code@,
                    ),
            decreases n - i,
        {
            if self.permissions[i].matches_code(code) {
                return true;
            }
            i += 1;
        }
        false
    }

    /// Whether the principal may act on the catalog permission's code.
    pub fn has_catalog_permission(&self, perm: Perm) -> (r: bool)
        ensures
            r == self.spec_has_code(
                spec_full_name(
                    catalog::spec_resource_str(catalog::spec_resource_action(perm).0),
                    catalog::spec_action_str(catalog::spec_resource_action(perm).1),
                ),
            ),
    {
        let code = perm.full_name();
        self.has_permission_by_code(code.as_str())
    }

    /// The ids of the principal's roles, in the roles' order.
    pub fn role_ids(&self) -> (r: Vec<Pk>)
        ensures
            r@ == self.roles@.map_values(|x: Role| x.id),
    {
        let n = self.roles.len();
        let mut out: Vec<Pk> = Vec::new();
        let mut i: usize = 0;
        while i < n
            invariant
                n == self.roles@.len(),
                i <= n,
                out@ == self.roles@.take(i as int).map_values(|x: Role| x.id),
            decreases n - i,
        {
            out.push(self.roles[i].id);
            proof {
                assert(self.roles@.take(i + 1).map_values(|x: Role| x.id)
                    =~= self.roles@.take(i as int).map_values(|x: Role| x.id).push(
                    self.roles@[i as int].id,
                ));
            }
            i += 1;
        }
        proof {
            assert(self.roles@.take(n as int) =~= self.roles@);
        }
        out
    }

    /// Whether the principal holds the built-in superuser role.
    pub fn is_superuser(&self) -> (r: bool)
        ensures
            r == self.spec_has_role("superuser"@),
    {
        self.has_role("superuser")
    }

    /// Whether the principal holds either built-in administrative role.
    pub fn is_admin(&self) -> (r: bool)
        ensures
            r == (self.spec_has_role("superuser"@) || self.spec_has_role("admin"@)),
    {
        self.has_role("superuser") || self.has_role("admin")
    }

    /// The catalog permissions among the principal's effective set,
    /// dropping pairs the catalog does not know.
    pub fn permissions_as_enum(&self) -> (r: Vec<Perm>)
        ensures
            r@ == self.permissions@.filter_map(perm_to_catalog()),
    {
        let f = Ghost(perm_to_catalog());
        let n = self.permissions.len();
        let mut out: Vec<Perm> = Vec::new();
        let mut i: usize = 0;
        while i < n
            invariant
                n == self.permissions@.len(),
                i <= n,
                out@ == self.permissions@.take(i as int).filter_map(f@),
                f@ == perm_to_catalog(),
            decreases n - i,
        {
            proof {
                crate::seqtools::lemma_filter_map_take_step(self.permissions@, f@, i as int);
            }
            let p = &self.permissions[i];
            match Perm::from_resource_action(p.resource.as_str(), p.action.as_str()) {
                Some(perm) => {
                    out.push(perm);
                    proof {
                        assert(out@ =~= self.permissions@.take(i as int).filter_map(f@)
                            + seq![perm]);
                    }
                },
                None => {},
            }
            i += 1;
        }
        proof {
            assert(self.permissions@.take(n as int) =~= self.permissions@);
        }
        out
    }
}

} // verus!
