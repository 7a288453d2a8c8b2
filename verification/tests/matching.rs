use rbac_core::catalog::Action;
use rbac_core::catalog::Perm;
use rbac_core::catalog::Resource;
use rbac_core::catalog::PermissionExt;
use rbac_core::matching::matches_code;
use rbac_core::matching::pair_matches;
use rbac_core::model::Permission;

#[test]
fn code_wildcard_on_resource() {
    assert!(matches_code("user:*", "user:delete"));
    assert!(!matches_code("role:*", "user:delete"));
}

#[test]
fn code_super_wildcard_matches_everything() {
    assert!(matches_code("*", "user:delete"));
    assert!(matches_code("*", "role:assign"));
    assert!(matches_code("*", ""));
    assert!(matches_code("*", "*"));
}

#[test]
fn code_exact_equality() {
    assert!(matches_code("user:read", "user:read"));
    assert!(!matches_code("user:read", "user:write"));
    assert!(!matches_code("user:read", "user"));
    assert!(!matches_code("user", "user:read"));
}

#[test]
fn pair_admin_wildcard_matches_everything() {
    assert!(pair_matches("admin", "*", "anything", "anything"));
    assert!(pair_matches("admin", "*", "user", "delete"));
    assert!(pair_matches("admin", "*", "", ""));
}

#[test]
fn pair_action_wildcard_covers_one_resource() {
    assert!(pair_matches("user", "*", "user", "delete"));
    assert!(!pair_matches("user", "*", "role", "delete"));
    assert!(pair_matches("user", "read", "user", "read"));
    assert!(!pair_matches("user", "read", "user", "write"));
    assert!(!pair_matches("admin", "read", "user", "read"));
}

#[test]
fn catalog_resolves_known_pairs() {
    assert_eq!(Perm::from_resource_action("user", "create"), Some(Perm::UserCreate));
    assert_eq!(Perm::from_resource_action("role", "assign"), Some(Perm::RoleAssign));
    assert_eq!(Perm::from_resource_action("admin", "*"), Some(Perm::AdminAll));
    assert_eq!(Perm::from_resource_action("user", "assign"), None);
    assert_eq!(Perm::from_resource_action("widget", "read"), None);
}

#[test]
fn catalog_strings_and_descriptions() {
    assert_eq!(Perm::UserCreate.resource_str(), "user");
    assert_eq!(Perm::UserCreate.action_str(), "create");
    assert_eq!(Perm::UserCreate.full_name(), "user:create");
    assert_eq!(Perm::AdminAll.full_name(), "admin:*");
    assert_eq!(Perm::UserCreate.description(), "Create new users");
    assert_eq!(Perm::AdminAll.description(), "All admin permissions");
    assert_eq!(Resource::Admin.as_str(), "admin");
    assert_eq!(Action::All.as_str(), "*");
    assert_eq!(Perm::RoleAssign.resource(), Resource::Role);
    assert_eq!(Perm::RoleAssign.action(), Action::Assign);
}

#[test]
fn catalog_enumerates_fourteen_permissions() {
    let all = Perm::all();
    assert_eq!(all.len(), 14);
    assert_eq!(all[0], Perm::UserCreate);
    assert_eq!(all[13], Perm::AdminAll);
}

#[test]
fn catalog_perm_matches_pairs() {
    assert!(Perm::AdminAll.matches("anything", "anything"));
    assert!(Perm::UserRead.matches("user", "read"));
    assert!(!Perm::UserRead.matches("user", "write"));
}

#[test]
fn record_full_name_and_code_matching() {
    let p = Permission {
        id: 7,
        resource: "article".to_string(),
        action: "write".to_string(),
        description: None,
        created_at: 0,
    };
    assert_eq!(p.full_name(), "article:write");
    assert!(p.matches_code("article:write"));
    assert!(!p.matches_code("article:read"));
    assert!(p.matches_pair("article", "write"));
    assert!(!p.matches_pair("article", "delete"));

    let star = Permission {
        id: 8,
        resource: "article".to_string(),
        action: "*".to_string(),
        description: None,
        created_at: 0,
    };
    assert!(star.matches_pair("article", "delete"));
    assert!(!star.matches_pair("user", "delete"));
}

#[test]
fn record_checked_against_catalog_grant() {
    let p = Permission {
        id: 3,
        resource: "user".to_string(),
        action: "read".to_string(),
        description: None,
        created_at: 0,
    };
    // The queried catalog permission is taken as the grant.
    assert!(PermissionExt::matches(&p, Perm::UserRead));
    assert!(PermissionExt::matches(&p, Perm::AdminAll));
    assert!(!PermissionExt::matches(&p, Perm::UserDelete));
    assert_eq!(PermissionExt::full_name(&p), "user:read");
}
