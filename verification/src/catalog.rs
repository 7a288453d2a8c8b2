//! The closed catalog of (resource, action) permissions the system
//! understands, with their human descriptions. Used at seed time; the
//! live source of truth is the persisted permission table.

use vstd::prelude::*;

use crate::matching;
use crate::model::Permission;
use crate::model::spec_full_name;

verus! {

/// The resources the catalog speaks of.
#[derive(Debug, Clone, Copy, PartialEq, Eq, Structural)]
pub enum Resource {
    /// User management.
    User,
    /// Role management.
    Role,
    /// Permission management.
    Permission,
    /// Global administration.
    Admin,
}

/// The string form of a resource.
pub open spec fn spec_resource_str(r: Resource) -> Seq<char> {
    match r {
        Resource::User => "user"@,
        Resource::Role => "role"@,
        Resource::Permission => "permission"@,
        Resource::Admin => "admin"@,
    }
}

impl Resource {
    /// The string form of this resource.
    pub fn as_str(&self) -> (r: &'static str)
        ensures
            r@ == spec_resource_str(*self),
    {
        match self {
            Resource::User => "user",
            Resource::Role => "role",
            Resource::Permission => "permission",
            Resource::Admin => "admin",
        }
    }
}

/// The actions the catalog speaks of.
#[derive(Debug, Clone, Copy, PartialEq, Eq, Structural)]
pub enum Action {
    /// Create an entity.
    Create,
    /// Read one entity.
    Read,
    /// Update an entity.
    Update,
    /// Delete an entity.
    Delete,
    /// List entities.
    List,
    /// Assign one entity to another.
    Assign,
    /// The wildcard covering every action.
    All,
}

/// The string form of an action; the wildcard is "*".
pub open spec fn spec_action_str(a: Action) -> Seq<char> {
    match a {
        Action::Create => "create"@,
        Action::Read => "read"@,
        Action::Update => "update"@,
        Action::Delete => "delete"@,
        Action::List => "list"@,
        Action::Assign => "assign"@,
        Action::All => "*"@,
    }
}

impl Action {
    /// The string form of this action.
    pub fn as_str(&self) -> (r: &'static str)
        ensures
            r@ == spec_action_str(*self),
    {
        match self {
            Action::Create => "create",
            Action::Read => "read",
            Action::Update => "update",
            Action::Delete => "delete",
            Action::List => "list",
            Action::Assign => "assign",
            Action::All => "*",
        }
    }
}

/// One catalog permission: a fixed (resource, action) pair.
#[derive(Debug, Clone, Copy, PartialEq, Eq, Hash, Structural)]
pub enum Perm {
    /// Create new users.
    UserCreate,
    /// View user information.
    UserRead,
    /// Update user information.
    UserUpdate,
    /// Delete users.
    UserDelete,
    /// List all users.
    UserList,
    /// Create new roles.
    RoleCreate,
    /// View role information.
    RoleRead,
    /// Update role information.
    RoleUpdate,
    /// Delete roles.
    RoleDelete,
    /// List all roles.
    RoleList,
    /// Assign roles to users.
    RoleAssign,
    /// View permission information.
    PermissionRead,
    /// List all permissions.
    PermissionList,
    /// All admin permissions.
    AdminAll,
}

/// The (resource, action) pair of a catalog permission.
pub open spec fn spec_resource_action(p: Perm) -> (Resource, Action) {
    match p {
        Perm::UserCreate => (Resource::User, Action::Create),
        Perm::UserRead => (Resource::User, Action::Read),
        Perm::UserUpdate => (Resource::User, Action::Update),
        Perm::UserDelete => (Resource::User, Action::Delete),
        Perm::UserList => (Resource::User, Action::List),
        Perm::RoleCreate => (Resource::Role, Action::Create),
        Perm::RoleRead => (Resource::Role, Action::Read),
        Perm::RoleUpdate => (Resource::Role, Action::Update),
        Perm::RoleDelete => (Resource::Role, Action::Delete),
        Perm::RoleList => (Resource::Role, Action::List),
        Perm::RoleAssign => (Resource::Role, Action::Assign),
        Perm::PermissionRead => (Resource::Permission, Action::Read),
        Perm::PermissionList => (Resource::Permission, Action::List),
        Perm::AdminAll => (Resource::Admin, Action::All),
    }
}

/// The human description of a catalog permission.
pub open spec fn spec_description(p: Perm) -> Seq<char> {
    match p {
        Perm::UserCreate => "Create new users"@,
        Perm::UserRead => "View user information"@,
        Perm::UserUpdate => "Update user information"@,
        Perm::UserDelete => "Delete users"@,
        Perm::UserList => "List all users"@,
        Perm::RoleCreate => "Create new roles"@,
        Perm::RoleRead => "View role information"@,
        Perm::RoleUpdate => "Update role information"@,
        Perm::RoleDelete => "Delete roles"@,
        Perm::RoleList => "List all roles"@,
        Perm::RoleAssign => "Assign roles to users"@,
        Perm::PermissionRead => "View permission information"@,
        Perm::PermissionList => "List all permissions"@,
        Perm::AdminAll => "All admin permissions"@,
    }
}

/// The catalog permission named by a (resource, action) string pair,
/// if the catalog holds that pair.
pub open spec fn spec_catalog_lookup(res: Seq<char>, act: Seq<char>) -> Option<Perm> {
    if res == "user"@ {
        if act == "create"@ {
            Some(Perm::UserCreate)
        } else if act == "read"@ {
            Some(Perm::UserRead)
        } else if act == "update"@ {
            Some(Perm::UserUpdate)
        } else if act == "delete"@ {
            Some(Perm::UserDelete)
        } else if act == "list"@ {
            Some(Perm::UserList)
        } else {
            None
        }
    } else if res == "role"@ {
        if act == "create"@ {
            Some(Perm::RoleCreate)
        } else if act == "read"@ {
            Some(Perm::RoleRead)
        } else if act == "update"@ {
            Some(Perm::RoleUpdate)
        } else if act == "delete"@ {
            Some(Perm::RoleDelete)
        } else if act == "list"@ {
            Some(Perm::RoleList)
        } else if act == "assign"@ {
            Some(Perm::RoleAssign)
        } else {
            None
        }
    } else if res == "permission"@ {
        if act == "read"@ {
            Some(Perm::PermissionRead)
        } else if act == "list"@ {
            Some(Perm::PermissionList)
        } else {
            None
        }
    } else if res == "admin"@ {
        if act == "*"@ {
            Some(Perm::AdminAll)
        } else {
            None
        }
    } else {
        None
    }
}

/// The complete catalog, in its fixed enumeration order.
pub open spec fn spec_all_perms() -> Seq<Perm> {
    seq![
        Perm::UserCreate,
        Perm::UserRead,
        Perm::UserUpdate,
        Perm::UserDelete,
        Perm::UserList,
        Perm::RoleCreate,
        Perm::RoleRead,
        Perm::RoleUpdate,
        Perm::RoleDelete,
        Perm::RoleList,
        Perm::RoleAssign,
        Perm::PermissionRead,
        Perm::PermissionList,
        Perm::AdminAll,
    ]
}

impl Perm {
    /// Resolve a (resource, action) string pair to its catalog
    /// permission, or `None` if the catalog does not hold the pair.
    pub fn from_resource_action(resource: &str, action: &str) -> (r: Option<Perm>)
        ensures
            r == spec_catalog_lookup(resource@, action@),
    {
        if matching::str_eq(resource, "user") {
            if matching::str_eq(action, "create") {
                Some(Perm::UserCreate)
            } else if matching::str_eq(action, "read") {
                Some(Perm::UserRead)
            } else if matching::str_eq(action, "update") {
                Some(Perm::UserUpdate)
            } else if matching::str_eq(action, "delete") {
                Some(Perm::UserDelete)
            } else if matching::str_eq(action, "list") {
                Some(Perm::UserList)
            } else {
                None
            }
        } else if matching::str_eq(resource, "role") {
            if matching::str_eq(action, "create") {
                Some(Perm::RoleCreate)
            } else if matching::str_eq(action, "read") {
                Some(Perm::RoleRead)
            } else if matching::str_eq(action, "update") {
                Some(Perm::RoleUpdate)
            } else if matching::str_eq(action, "delete") {
                Some(Perm::RoleDelete)
            } else if matching::str_eq(action, "list") {
                Some(Perm::RoleList)
            } else if matching::str_eq(action, "assign") {
                Some(Perm::RoleAssign)
            } else {
                None
            }
        } else if matching::str_eq(resource, "permission") {
            if matching::str_eq(action, "read") {
                Some(Perm::PermissionRead)
            } else if matching::str_eq(action, "list") {
                Some(Perm::PermissionList)
            } else {
                None
            }
        } else if matching::str_eq(resource, "admin") {
            if matching::str_eq(action, "*") {
                Some(Perm::AdminAll)
            } else {
                None
            }
        } else {
            None
        }
    }

    /// The (resource, action) pair of this catalog permission.
    pub fn resource_action(&self) -> (r: (Resource, Action))
        ensures
            r == spec_resource_action(*self),
    {
        match self {
            Perm::UserCreate => (Resource::User, Action::Create),
            Perm::UserRead => (Resource::User, Action::Read),
            Perm::UserUpdate => (Resource::User, Action::Update),
            Perm::UserDelete => (Resource::User, Action::Delete),
            Perm::UserList => (Resource::User, Action::List),
            Perm::RoleCreate => (Resource::Role, Action::Create),
            Perm::RoleRead => (Resource::Role, Action::Read),
            Perm::RoleUpdate => (Resource::Role, Action::Update),
            Perm::RoleDelete => (Resource::Role, Action::Delete),
            Perm::RoleList => (Resource::Role, Action::List),
            Perm::RoleAssign => (Resource::Role, Action::Assign),
            Perm::PermissionRead => (Resource::Permission, Action::Read),
            Perm::PermissionList => (Resource::Permission, Action::List),
            Perm::AdminAll => (Resource::Admin, Action::All),
        }
    }

    /// The resource component of this catalog permission.
    pub fn resource(&self) -> (r: Resource)
        ensures
            r == spec_resource_action(*self).0,
    {
        self.resource_action().0
    }

    /// The action component of this catalog permission.
    pub fn action(&self) -> (r: Action)
        ensures
            r == spec_resource_action(*self).1,
    {
        self.resource_action().1
    }

    /// The resource component, as a string.
    pub fn resource_str(&self) -> (r: &'static str)
        ensures
            r@ == spec_resource_str(spec_resource_action(*self).0),
    {
        self.resource().as_str()
    }

    /// The action component, as a string.
    pub fn action_str(&self) -> (r: &'static str)
        ensures
            r@ == spec_action_str(spec_resource_action(*self).1),
    {
        self.action().as_str()
    }

    /// The human description of this catalog permission.
    pub fn description(&self) -> (r: &'static str)
        ensures
            r@ == spec_description(*self),
    {
        match self {
            Perm::UserCreate => "Create new users",
            Perm::UserRead => "View user information",
            Perm::UserUpdate => "Update user information",
            Perm::UserDelete => "Delete users",
            Perm::UserList => "List all users",
            Perm::RoleCreate => "Create new roles",
            Perm::RoleRead => "View role information",
            Perm::RoleUpdate => "Update role information",
            Perm::RoleDelete => "Delete roles",
            Perm::RoleList => "List all roles",
            Perm::RoleAssign => "Assign roles to users",
            Perm::PermissionRead => "View permission information",
            Perm::PermissionList => "List all permissions",
            Perm::AdminAll => "All admin permissions",
        }
    }

    /// Whether this granted catalog permission covers the required
    /// (resource, action) pair, under the structured wildcard semantics.
    pub fn matches(&self, resource: &str, action: &str) -> (r: bool)
        ensures
            r == matching::spec_matches(
                spec_resource_str(spec_resource_action(*self).0),
                spec_action_str(spec_resource_action(*self).1),
                resource@,
                action@,
            ),
    {
        matching::pair_matches(self.resource_str(), self.action_str(), resource, action)
    }

    /// The full permission code "resource:action" of this catalog
    /// permission.
    pub fn full_name(&self) -> (r: String)
        ensures
            r@ == spec_full_name(
                spec_resource_str(spec_resource_action(*self).0),
                spec_action_str(spec_resource_action(*self).1),
            ),
    {
        let mut s = String::from_str(self.resource_str());
        s.append(":");
        s.append(self.action_str());
        proof {
            reveal_strlit(":");
            assert(":"@ =~= seq![':']);
        }
        s
    }

    /// Every catalog permission, in the catalog's fixed order; used only
    /// for seeding.
    pub fn all() -> (r: Vec<Perm>)
        ensures
            r@ == spec_all_perms(),
    {
        let v = vec![
            Perm::UserCreate,
            Perm::UserRead,
            Perm::UserUpdate,
            Perm::UserDelete,
            Perm::UserList,
            Perm::RoleCreate,
            Perm::RoleRead,
            Perm::RoleUpdate,
            Perm::RoleDelete,
            Perm::RoleList,
            Perm::RoleAssign,
            Perm::PermissionRead,
            Perm::PermissionList,
            Perm::AdminAll,
        ];
        proof {
            assert(v@ =~= spec_all_perms());
        }
        v
    }
}

/// Behaviour shared by permission records, stated against the catalog.
pub trait PermissionExt {
    /// Whether the queried catalog permission covers this record's pair.
    fn matches(&self, perm: Perm) -> bool;

    /// The full permission code "resource:action".
    fn full_name(&self) -> String;
}

impl PermissionExt for Permission {
    /// Whether the queried catalog permission, taken as the grant,
    /// covers this record's (resource, action) pair.
    fn matches(&self, perm: Perm) -> (r: bool)
        ensures
            r == matching::spec_matches(
                spec_resource_str(spec_resource_action(perm).0),
                spec_action_str(spec_resource_action(perm).1),
                self.resource@,
                self.action@,
            ),
    {
        perm.matches(self.resource.as_str(), self.action.as_str())
    }

    /// The full permission code "resource:action" of this record.
    fn full_name(&self) -> (r: String)
        ensures
            r@ == spec_full_name(self.resource@, self.action@),
    {
        Permission::full_name(self)
    }
}

} // verus!
