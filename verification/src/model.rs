//! Persistent entities of the access-control core: users, roles,
//! permissions, and the two many-to-many assignment rows.

use vstd::prelude::*;

use crate::matching;

verus! {

/// Primary-key type of all persisted entities.
pub type Pk = i64;

/// A user record: unique username plus the salted password hash.
#[derive(Debug)]
pub struct User {
    /// Primary key.
    pub id: Pk,
    /// Unique username.
    pub username: String,
    /// Salted, self-describing password hash.
    pub password: String,
    /// Creation time, seconds since the Unix epoch.
    pub created_at: i64,
    /// Last-update time, seconds since the Unix epoch.
    pub updated_at: i64,
}

impl Clone for User {
    /// An exact copy of the record.
    fn clone(&self) -> (r: User)
        ensures
            r == *self,
    {
        User {
            id: self.id,
            username: self.username.clone(),
            password: self.password.clone(),
            created_at: self.created_at,
            updated_at: self.updated_at,
        }
    }
}

/// Behaviour shared by user records.
pub trait UserExt {
}

impl UserExt for User {
}


/// A role record: unique name and optional description.
#[derive(Debug)]
pub struct Role {
    /// Primary key.
    pub id: Pk,
    /// Unique role name.
    pub name: String,
    /// Optional human description.
    pub description: Option<String>,
    /// Creation time, seconds since the Unix epoch.
    pub created_at: i64,
    /// Last-update time, seconds since the Unix epoch.
    pub updated_at: i64,
}

impl Clone for Role {
    /// An exact copy of the record.
    fn clone(&self) -> (r: Role)
        ensures
            r == *self,
    {
        Role {
            id: self.id,
            name: self.name.clone(),
            description: clone_opt_string(&self.description),
            created_at: self.created_at,
            updated_at: self.updated_at,
        }
    }
}

/// Behaviour shared by role records.
pub trait RoleExt {
    /// Whether the role carries administrative authority by name.
    fn is_admin(&self) -> bool;
}

impl RoleExt for Role {
    /// Whether this role is one of the built-in administrative roles.
    fn is_admin(&self) -> (r: bool)
        ensures
            r == (self.name@ == "superuser"@ || self.name@ == "admin"@),
    {
        matching::str_eq(self.name.as_str(), "superuser") || matching::str_eq(
            self.name.as_str(),
            "admin",
        )
    }
}

/// A permission record, identified by its (resource, action) pair.
#[derive(Debug)]
pub struct Permission {
    /// Primary key.
    pub id: Pk,
    /// The resource component of the pair.
    pub resource: String,
    /// The action component of the pair; "*" means every action.
    pub action: String,
    /// Optional human description.
    pub description: Option<String>,
    /// Creation time, seconds since the Unix epoch.
    pub created_at: i64,
}

impl Clone for Permission {
    /// An exact copy of the record.
    fn clone(&self) -> (r: Permission)
        ensures
            r == *self,
    {
        Permission {
            id: self.id,
            resource: self.resource.clone(),
            action: self.action.clone(),
            description: clone_opt_string(&self.description),
            created_at: self.created_at,
        }
    }
}

/// The full permission code of a (resource, action) pair:
/// the resource, a ':', and the action.
pub open spec fn spec_full_name(resource: Seq<char>, action: Seq<char>) -> Seq<char> {
    resource + seq![':'] + action
}

impl Permission {
    /// The permission code "resource:action" of this record.
    pub fn full_name(&self) -> (r: String)
        ensures
            r@ == spec_full_name(self.resource@, self.action@),
    {
        let mut s = self.resource.clone();
        s.append(":");
        s.append(self.action.as_str());
        proof {
            reveal_strlit(":");
            assert(":"@ =~= seq![':']);
        }
        s
    }

    /// Whether this granted permission covers the required code, under
    /// the legacy string-code wildcard semantics.
    pub fn matches_code(&self, code: &str) -> (r: bool)
        ensures
            r == matching::spec_code_matches(
                spec_full_name(self.resource@, self.action@),
                code@,
            ),
    {
        let own = self.full_name();
        matching::matches_code(own.as_str(), code)
    }

    /// Whether this granted permission covers the required
    /// (resource, action) pair, under the structured wildcard semantics.
    pub fn matches_pair(&self, resource: &str, action: &str) -> (r: bool)
        ensures
            r == matching::spec_matches(self.resource@, self.action@, resource@, action@),
    {
        matching::pair_matches(
            self.resource.as_str(),
            self.action.as_str(),
            resource,
            action,
        )
    }
}

/// An assignment row linking one role to one permission.
#[derive(Debug, Clone, Copy, PartialEq, Eq, Structural)]
pub struct RolePermission {
    /// The role side of the link.
    pub role_id: Pk,
    /// The permission side of the link.
    pub permission_id: Pk,
}

/// An assignment row linking one user to one role.
#[derive(Debug, Clone, Copy, PartialEq, Eq, Structural)]
pub struct UserRole {
    /// The user side of the link.
    pub user_id: Pk,
    /// The role side of the link.
    pub role_id: Pk,
}

/// An exact copy of an optional string.
pub(crate) fn clone_opt_string(s: &Option<String>) -> (r: Option<String>)
    ensures
        r == *s,
{
    match s {
        Some(v) => Some(v.clone()),
        None => None,
    }
}

} // verus!
