use rbac_core::ErrorKind;
use rbac_core::auth::Session;
use rbac_core::catalog::Perm;
use rbac_core::seed;
use rbac_core::store::RbacStore;

const NOW: i64 = 1_700_000_000;

#[test]
fn authentication_accepts_only_the_right_pair() {
    let mut s = RbacStore::new();
    s.create_user("alice".to_string(), "correct".to_string(), NOW).unwrap();

    let principal = s.authenticate("alice", "correct").unwrap();
    assert!(principal.is_some());
    assert_eq!(principal.unwrap().user.username, "alice");

    // Wrong password and unknown user are indistinguishable: both None.
    assert!(s.authenticate("alice", "wrong").unwrap().is_none());
    assert!(s.authenticate("ghost", "x").unwrap().is_none());
}

#[test]
fn password_change_invalidates_prior_sessions() {
    let mut s = RbacStore::new();
    let user = s.create_user("frank".to_string(), "old_password".to_string(), NOW).unwrap();

    let principal = s.authenticate("frank", "old_password").unwrap().unwrap();
    let session = Session::for_principal(&principal);
    assert!(s.rehydrate(&session).is_some());

    s.change_password(user.id, "old_password", "new_password", NOW + 10).unwrap();

    // The fingerprint was bound to the old hash: the session is stale.
    assert!(s.rehydrate(&session).is_none());
    assert!(s.authenticate("frank", "old_password").unwrap().is_none());
    let fresh = s.authenticate("frank", "new_password").unwrap().unwrap();
    let fresh_session = Session::for_principal(&fresh);
    assert!(s.rehydrate(&fresh_session).is_some());
}

#[test]
fn change_password_requires_the_current_one() {
    let mut s = RbacStore::new();
    let user = s.create_user("grace".to_string(), "first_password".to_string(), NOW).unwrap();
    let err = s.change_password(user.id, "not_it", "second_password", NOW).unwrap_err();
    assert_eq!(err.kind(), ErrorKind::InvalidCredentials);
    let err = s.change_password(user.id + 7, "first_password", "x", NOW).unwrap_err();
    assert_eq!(err.kind(), ErrorKind::NotFound);

    s.reset_password(user.id, "admin_set_this", NOW).unwrap();
    assert!(s.authenticate("grace", "admin_set_this").unwrap().is_some());
    let err = s.reset_password(user.id + 7, "x", NOW).unwrap_err();
    assert_eq!(err.kind(), ErrorKind::NotFound);
}

#[test]
fn wildcard_role_covers_unlisted_actions() {
    let mut s = RbacStore::new();
    let r1 = s.create_role("reader".to_string(), None, NOW).unwrap();
    let r2 = s.create_role("user_admin".to_string(), None, NOW).unwrap();
    let p_read = s
        .create_permission("user".to_string(), "read".to_string(), None, NOW)
        .unwrap();
    let p_all = s
        .create_permission("user".to_string(), "*".to_string(), None, NOW)
        .unwrap();
    s.assign_permission_to_role(r1.id, p_read.id).unwrap();
    s.assign_permission_to_role(r2.id, p_all.id).unwrap();

    let u = s.create_user("henry".to_string(), "pw_longenough".to_string(), NOW).unwrap();
    s.assign_role_to_user(u.id, r1.id).unwrap();
    s.assign_role_to_user(u.id, r2.id).unwrap();

    let effective = s.effective_permissions_of_user(u.id);
    let ids: Vec<i64> = effective.iter().map(|p| p.id).collect();
    assert_eq!(ids, vec![p_read.id, p_all.id]);

    let principal = s.get_principal_by_id(u.id).unwrap();
    // ("user", "*") covers an action never granted verbatim.
    assert!(principal.has_permission("user", "delete"));
    assert!(principal.has_permission("user", "read"));
    assert!(!principal.has_permission("role", "read"));
    assert!(principal.has_permission_by_code("user:delete"));
    assert!(!principal.has_permission_by_code("role:read"));
}

#[test]
fn end_to_end_editor_scenario() {
    let mut s = RbacStore::new();
    let editor = s.create_role("editor".to_string(), None, NOW).unwrap();
    let write = s
        .create_permission("article".to_string(), "write".to_string(), None, NOW)
        .unwrap();
    s.assign_permission_to_role(editor.id, write.id).unwrap();
    let bob = s.create_user("bob".to_string(), "bobs_password".to_string(), NOW).unwrap();
    s.assign_role_to_user(bob.id, editor.id).unwrap();

    let principal = s.authenticate("bob", "bobs_password").unwrap().unwrap();
    assert!(principal.has_permission("article", "write"));
    assert!(!principal.has_permission("article", "delete"));
    assert!(principal.has_role("editor"));
    assert!(!principal.has_role("viewer"));
    assert_eq!(principal.role_ids(), vec![editor.id]);
    assert!(!principal.is_admin());
    assert!(!principal.is_superuser());
}

#[test]
fn principal_catalog_projection() {
    let mut s = RbacStore::new();
    let role = s.create_role("mixed".to_string(), None, NOW).unwrap();
    let known = s
        .create_permission("user".to_string(), "read".to_string(), None, NOW)
        .unwrap();
    let unknown = s
        .create_permission("widget".to_string(), "spin".to_string(), None, NOW)
        .unwrap();
    s.assign_permission_to_role(role.id, known.id).unwrap();
    s.assign_permission_to_role(role.id, unknown.id).unwrap();
    let u = s.create_user("ivy".to_string(), "pw_longenough".to_string(), NOW).unwrap();
    s.assign_role_to_user(u.id, role.id).unwrap();

    let principal = s.get_principal_by_id(u.id).unwrap();
    // Pairs outside the catalog are dropped from the enum projection.
    assert_eq!(principal.permissions_as_enum(), vec![Perm::UserRead]);
    assert!(principal.has_catalog_permission(Perm::UserRead));
    assert!(!principal.has_catalog_permission(Perm::UserDelete));
    assert_eq!(principal.id(), u.id);
    assert!(s.get_principal_by_id(u.id + 50).is_none());
}

#[test]
fn seeding_builds_the_default_graph() {
    let mut s = RbacStore::new();
    seed::init_rbac(&mut s).unwrap();

    assert_eq!(s.count_permissions(), 14);
    assert_eq!(s.count_roles(), 3);
    assert!(s.exists_role_by_name("superuser"));
    assert!(s.exists_role_by_name("admin"));
    assert!(s.exists_role_by_name("user"));

    let superuser = s.find_role_by_name("superuser").unwrap();
    assert_eq!(s.permissions_of_role(superuser.id).len(), 14);

    let user_role = s.find_role_by_name("user").unwrap();
    let basic = s.permissions_of_role(user_role.id);
    assert_eq!(basic.len(), 1);
    assert_eq!(basic[0].resource, "user");
    assert_eq!(basic[0].action, "read");

    // Seeding twice creates nothing new.
    seed::init_rbac(&mut s).unwrap();
    assert_eq!(s.count_permissions(), 14);
    assert_eq!(s.count_roles(), 3);
}

#[test]
fn seeded_superuser_may_do_anything() {
    let mut s = RbacStore::new();
    seed::init_rbac(&mut s).unwrap();
    let root = seed::create_superuser(&mut s, "root".to_string(), "root_password".to_string())
        .unwrap();

    let principal = s.authenticate("root", "root_password").unwrap().unwrap();
    assert_eq!(principal.id(), root.id);
    assert!(principal.is_superuser());
    assert!(principal.is_admin());
    // The ("admin", "*") grant covers arbitrary pairs.
    assert!(principal.has_permission("anything", "anything"));
    assert!(principal.has_permission("user", "delete"));

    let err = seed::create_superuser(&mut s, "root".to_string(), "other".to_string())
        .unwrap_err();
    assert_eq!(err.kind(), ErrorKind::AlreadyExists);
}

#[test]
fn create_superuser_needs_a_seeded_store() {
    let mut s = RbacStore::new();
    let err = seed::create_superuser(&mut s, "root".to_string(), "root_password".to_string())
        .unwrap_err();
    assert_eq!(err.kind(), ErrorKind::NotFound);
}

#[test]
fn role_has_permission_checks_catalog_grants() {
    let mut s = RbacStore::new();
    seed::init_rbac(&mut s).unwrap();
    let user_role = s.find_role_by_name("user").unwrap();
    assert!(s.role_has_permission(user_role.id, Perm::UserRead));
    assert!(!s.role_has_permission(user_role.id, Perm::UserDelete));
}
