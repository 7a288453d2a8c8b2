use rbac_core::ErrorKind;
use rbac_core::store::RbacStore;

const NOW: i64 = 1_700_000_000;

fn store_with_role_and_perm() -> (RbacStore, i64, i64) {
    let mut s = RbacStore::new();
    let role = s.create_role("editor".to_string(), None, NOW).unwrap();
    let perm = s
        .create_permission("article".to_string(), "write".to_string(), None, NOW)
        .unwrap();
    (s, role.id, perm.id)
}

#[test]
fn duplicate_permission_pair_is_rejected() {
    let mut s = RbacStore::new();
    s.create_permission("user".to_string(), "read".to_string(), None, NOW).unwrap();
    let err = s
        .create_permission("user".to_string(), "read".to_string(), None, NOW)
        .unwrap_err();
    assert_eq!(err.kind(), ErrorKind::AlreadyExists);
    // A different pair on the same resource is fine.
    s.create_permission("user".to_string(), "write".to_string(), None, NOW).unwrap();
}

#[test]
fn duplicate_role_name_is_rejected() {
    let mut s = RbacStore::new();
    s.create_role("editor".to_string(), None, NOW).unwrap();
    let err = s.create_role("editor".to_string(), None, NOW).unwrap_err();
    assert_eq!(err.kind(), ErrorKind::AlreadyExists);
}

#[test]
fn grant_then_query_then_revoke() {
    let (mut s, rid, pid) = store_with_role_and_perm();
    assert!(s.permissions_of_role(rid).is_empty());
    s.assign_permission_to_role(rid, pid).unwrap();
    let granted = s.permissions_of_role(rid);
    assert_eq!(granted.len(), 1);
    assert_eq!(granted[0].id, pid);
    assert_eq!(granted[0].resource, "article");

    let err = s.assign_permission_to_role(rid, pid).unwrap_err();
    assert_eq!(err.kind(), ErrorKind::AlreadyExists);

    s.revoke_permission_from_role(rid, pid);
    assert!(s.permissions_of_role(rid).is_empty());
    // Revoking again is a silent no-op.
    s.revoke_permission_from_role(rid, pid);
}

#[test]
fn assign_requires_both_sides_to_exist() {
    let (mut s, rid, pid) = store_with_role_and_perm();
    let err = s.assign_permission_to_role(rid + 100, pid).unwrap_err();
    assert_eq!(err.kind(), ErrorKind::NotFound);
    let err = s.assign_permission_to_role(rid, pid + 100).unwrap_err();
    assert_eq!(err.kind(), ErrorKind::NotFound);
}

#[test]
fn deleting_a_role_cascades() {
    let (mut s, rid, pid) = store_with_role_and_perm();
    let user = s.create_user("carol".to_string(), "pw_longenough".to_string(), NOW).unwrap();
    s.assign_permission_to_role(rid, pid).unwrap();
    s.assign_role_to_user(user.id, rid).unwrap();

    s.delete_role(rid).unwrap();
    assert!(s.find_role_by_id(rid).is_none());
    assert!(s.permissions_of_role(rid).is_empty());
    assert!(s.roles_of_user(user.id).is_empty());
    let err = s.assign_permission_to_role(rid, pid).unwrap_err();
    assert_eq!(err.kind(), ErrorKind::NotFound);
    let err = s.delete_role(rid).unwrap_err();
    assert_eq!(err.kind(), ErrorKind::NotFound);
}

#[test]
fn deleting_a_permission_cascades() {
    let (mut s, rid, pid) = store_with_role_and_perm();
    s.assign_permission_to_role(rid, pid).unwrap();
    s.delete_permission(pid).unwrap();
    assert!(s.find_permission_by_id(pid).is_none());
    assert!(s.permissions_of_role(rid).is_empty());
    let err = s.delete_permission(pid).unwrap_err();
    assert_eq!(err.kind(), ErrorKind::NotFound);
}

#[test]
fn deleting_a_user_cascades_role_links() {
    let (mut s, rid, _pid) = store_with_role_and_perm();
    let user = s.create_user("dave".to_string(), "pw_longenough".to_string(), NOW).unwrap();
    s.assign_role_to_user(user.id, rid).unwrap();
    s.delete_user(user.id);
    assert!(s.find_user_by_id(user.id).is_none());
    let err = s.assign_role_to_user(user.id, rid).unwrap_err();
    assert_eq!(err.kind(), ErrorKind::NotFound);
    // Deleting an absent user is a silent no-op.
    s.delete_user(user.id);
}

#[test]
fn role_updates() {
    let mut s = RbacStore::new();
    let a = s.create_role("alpha".to_string(), None, NOW).unwrap();
    let _b = s.create_role("beta".to_string(), None, NOW).unwrap();

    let renamed = s.update_role_name(a.id, "gamma".to_string(), NOW + 5).unwrap();
    assert_eq!(renamed.name, "gamma");
    assert_eq!(renamed.updated_at, NOW + 5);
    assert_eq!(renamed.created_at, NOW);

    let err = s.update_role_name(a.id, "beta".to_string(), NOW + 6).unwrap_err();
    assert_eq!(err.kind(), ErrorKind::AlreadyExists);
    // Renaming to its own current name is allowed.
    s.update_role_name(a.id, "gamma".to_string(), NOW + 7).unwrap();

    let described = s
        .update_role_description(a.id, Some("first role".to_string()), NOW + 8)
        .unwrap();
    assert_eq!(described.description.as_deref(), Some("first role"));

    let err = s.update_role_name(a.id + 100, "delta".to_string(), NOW).unwrap_err();
    assert_eq!(err.kind(), ErrorKind::NotFound);
}

#[test]
fn permission_description_update() {
    let mut s = RbacStore::new();
    let p = s
        .create_permission("user".to_string(), "read".to_string(), None, NOW)
        .unwrap();
    let updated = s.update_permission_description(p.id, Some("View users".to_string())).unwrap();
    assert_eq!(updated.description.as_deref(), Some("View users"));
    assert_eq!(updated.resource, "user");
    let err = s.update_permission_description(p.id + 9, None).unwrap_err();
    assert_eq!(err.kind(), ErrorKind::NotFound);
}

#[test]
fn username_updates() {
    let mut s = RbacStore::new();
    let a = s.create_user("alice".to_string(), "pw_longenough".to_string(), NOW).unwrap();
    s.create_user("bob".to_string(), "pw_longenough".to_string(), NOW).unwrap();

    let renamed = s.update_username(a.id, "alicia".to_string(), NOW + 1).unwrap();
    assert_eq!(renamed.username, "alicia");

    let err = s.update_username(a.id, "bob".to_string(), NOW + 2).unwrap_err();
    assert_eq!(err.kind(), ErrorKind::AlreadyExists);

    let err = s.create_user("alicia".to_string(), "pw_longenough".to_string(), NOW).unwrap_err();
    assert_eq!(err.kind(), ErrorKind::AlreadyExists);

    assert!(s.exists_by_username("alicia"));
    assert!(!s.exists_by_username("alice"));
    assert!(s.find_by_username("bob").is_some());
    assert!(s.user_exists(a.id));
    assert_eq!(s.count_users(), 2);
}

#[test]
fn effective_permissions_union_is_deduplicated_and_sorted() {
    let mut s = RbacStore::new();
    let r1 = s.create_role("reader".to_string(), None, NOW).unwrap();
    let r2 = s.create_role("writer".to_string(), None, NOW).unwrap();
    let p_read = s
        .create_permission("doc".to_string(), "read".to_string(), None, NOW)
        .unwrap();
    let p_write = s
        .create_permission("doc".to_string(), "write".to_string(), None, NOW)
        .unwrap();
    s.assign_permission_to_role(r1.id, p_read.id).unwrap();
    s.assign_permission_to_role(r2.id, p_read.id).unwrap();
    s.assign_permission_to_role(r2.id, p_write.id).unwrap();

    let u = s.create_user("erin".to_string(), "pw_longenough".to_string(), NOW).unwrap();
    s.assign_role_to_user(u.id, r2.id).unwrap();
    s.assign_role_to_user(u.id, r1.id).unwrap();

    let effective = s.effective_permissions_of_user(u.id);
    let ids: Vec<i64> = effective.iter().map(|p| p.id).collect();
    // Shared permission appears once; order is ascending by id.
    assert_eq!(ids, vec![p_read.id, p_write.id]);

    let roles = s.roles_of_user(u.id);
    let role_ids: Vec<i64> = roles.iter().map(|r| r.id).collect();
    assert_eq!(role_ids, vec![r1.id, r2.id]);

    assert!(s.user_has_permission(u.id, "doc", "read"));
    assert!(s.user_has_permission(u.id, "doc", "write"));
    assert!(!s.user_has_permission(u.id, "doc", "delete"));

    s.revoke_role_from_user(u.id, r2.id);
    assert!(!s.user_has_permission(u.id, "doc", "write"));
    // Revoking an absent assignment is a silent no-op.
    s.revoke_role_from_user(u.id, r2.id);
}

#[test]
fn pagination_slices_tables() {
    let mut s = RbacStore::new();
    for i in 0..5 {
        s.create_user(format!("user{}", i), "pw_longenough".to_string(), NOW).unwrap();
    }
    assert_eq!(s.count_users(), 5);

    let page0 = s.list_users(0, 2);
    assert_eq!(page0.len(), 2);
    assert_eq!(page0[0].username, "user0");
    let page2 = s.list_users(2, 2);
    assert_eq!(page2.len(), 1);
    assert_eq!(page2[0].username, "user4");
    assert!(s.list_users(3, 2).is_empty());
    assert!(s.list_users(0, 0).is_empty());
    assert!(s.list_users(u64::MAX, u64::MAX).is_empty());

    s.create_role("solo".to_string(), None, NOW).unwrap();
    assert_eq!(s.list_roles(0, 10).len(), 1);
    assert_eq!(s.list_all_roles().len(), 1);
    assert_eq!(s.count_roles(), 1);
    s.create_permission("doc".to_string(), "read".to_string(), None, NOW).unwrap();
    assert_eq!(s.list_permissions(0, 10).len(), 1);
    assert_eq!(s.list_all_permissions().len(), 1);
    assert_eq!(s.count_permissions(), 1);
}

#[test]
fn get_by_id_reports_not_found() {
    let (mut s, rid, pid) = store_with_role_and_perm();
    assert_eq!(s.get_role_by_id(rid).unwrap().name, "editor");
    assert_eq!(s.get_role_by_id(rid + 5).unwrap_err().kind(), ErrorKind::NotFound);
    assert_eq!(s.get_permission_by_id(pid).unwrap().resource, "article");
    assert_eq!(s.get_permission_by_id(pid + 5).unwrap_err().kind(), ErrorKind::NotFound);
    let u = s.create_user("judy".to_string(), "pw_longenough".to_string(), NOW).unwrap();
    assert_eq!(s.get_user_by_id(u.id).unwrap().username, "judy");
    assert_eq!(s.get_user_by_id(u.id + 5).unwrap_err().kind(), ErrorKind::NotFound);
}

#[test]
fn assignment_by_natural_names() {
    let (mut s, rid, _pid) = store_with_role_and_perm();
    s.assign_permission_by_name("editor", "article", "write").unwrap();
    assert_eq!(s.permissions_of_role(rid).len(), 1);
    let err = s.assign_permission_by_name("editor", "article", "write").unwrap_err();
    assert_eq!(err.kind(), ErrorKind::AlreadyExists);
    let err = s.assign_permission_by_name("ghost", "article", "write").unwrap_err();
    assert_eq!(err.kind(), ErrorKind::NotFound);
    let err = s.assign_permission_by_name("editor", "article", "read").unwrap_err();
    assert_eq!(err.kind(), ErrorKind::NotFound);
}

#[test]
fn lookups_answer_precisely() {
    let (s, rid, pid) = store_with_role_and_perm();
    assert_eq!(s.find_role_by_id(rid).unwrap().name, "editor");
    assert!(s.find_role_by_id(rid + 1).is_none());
    assert_eq!(s.find_role_by_name("editor").unwrap().id, rid);
    assert!(s.find_role_by_name("ghost").is_none());
    assert!(s.exists_role_by_name("editor"));
    assert_eq!(s.find_permission_by_id(pid).unwrap().action, "write");
    assert!(s.find_permission_by_id(pid + 1).is_none());
    assert_eq!(s.find_by_resource_action("article", "write").unwrap().id, pid);
    assert!(s.find_by_resource_action("article", "read").is_none());
    assert!(s.exists_by_resource_action("article", "write"));
}
