//! Seeding of the access-control data: the catalog permissions, the
//! built-in roles, the superuser's full grant, and the regular user's
//! basic grant. The catalog is a finite, explicitly constructed table;
//! no ambient registry is involved.

use vstd::prelude::*;

use crate::catalog;
use crate::catalog::Perm;
use crate::clock;
use crate::error::AppError;
use crate::error::ErrorKind;
use crate::model::Pk;
use crate::model::User;
use crate::password::hash_matches;
use crate::store::RbacStore;

verus! {

/// The (resource, action) pair of a catalog permission exists in the
/// store's permission table.
pub open spec fn catalog_pair_present(s: RbacStore, p: Perm) -> bool {
    s.has_perm_pair(
        catalog::spec_resource_str(catalog::spec_resource_action(p).0),
        catalog::spec_action_str(catalog::spec_resource_action(p).1),
    )
}

/// Every role named "superuser" is assigned every permission in the
/// store.
pub open spec fn superuser_covers_all(s: RbacStore) -> bool {
    forall|i: int, j: int|
        0 <= i < s.roles@.len() && (#[trigger] s.roles@[i]).name@ == "superuser"@ && 0 <= j
            < s.permissions@.len() ==> s.role_has_perm(
            s.roles@[i].id as int,
            (#[trigger] s.permissions@[j]).id as int,
        )
}

/// Every role named "user" is assigned every permission carrying the
/// pair ("user", "read").
pub open spec fn basic_user_grant_present(s: RbacStore) -> bool {
    forall|i: int, j: int|
        0 <= i < s.roles@.len() && (#[trigger] s.roles@[i]).name@ == "user"@ && 0 <= j
            < s.permissions@.len() && (#[trigger] s.permissions@[j]).resource@ == "user"@
            && s.permissions@[j].action@ == "read"@ ==> s.role_has_perm(
            s.roles@[i].id as int,
            s.permissions@[j].id as int,
        )
}

/// Create the role under the name unless one exists; existing roles stay
/// findable.
fn ensure_role(store: &mut RbacStore, name: &str, description: &str, now: i64) -> (r: Result<
    (),
    AppError,
>)
    requires
        old(store).wf(),
    ensures
        final(store).wf(),
        RbacStore::users_same(*old(store), *final(store)),
        RbacStore::perms_same(*old(store), *final(store)),
        RbacStore::role_permissions_same(*old(store), *final(store)),
        RbacStore::user_roles_same(*old(store), *final(store)),
        r is Ok ==> final(store).has_role_named(name@),
        forall|m: Seq<char>|
            old(store).has_role_named(m) ==> #[trigger] final(store).has_role_named(m),
        final(store).next_role_id <= old(store).next_role_id + 1,
        old(store).next_role_id < Pk::MAX ==> r is Ok,
        old(store).has_role_named(name@) ==> (r is Ok && *final(store) == *old(store)),
        r is Err ==> r->Err_0.kind == ErrorKind::Internal,
{
    if store.exists_role_by_name(name) {
        return Ok(());
    }
    let ghost pre = *store;
    match store.create_role(String::from_str(name), Some(String::from_str(description)), now) {
        Ok(role) => {
            proof {
                RbacStore::lemma_role_push_preserves(pre, *store, role);
            }
            Ok(())
        },
        Err(e) => Err(e),
    }
}

/// Create every catalog permission whose pair is absent.
fn seed_catalog(store: &mut RbacStore, now: i64) -> (r: Result<(), AppError>)
    requires
        old(store).wf(),
    ensures
        final(store).wf(),
        RbacStore::users_same(*old(store), *final(store)),
        RbacStore::roles_same(*old(store), *final(store)),
        RbacStore::role_permissions_same(*old(store), *final(store)),
        RbacStore::user_roles_same(*old(store), *final(store)),
        r is Ok ==> forall|p: Perm| #[trigger] catalog_pair_present(*final(store), p),
        old(store).next_permission_id + 14 <= Pk::MAX ==> r is Ok,
        (forall|p: Perm| #[trigger] catalog_pair_present(*old(store), p)) ==> (r is Ok
            && *final(store) == *old(store)),
        r is Err ==> r->Err_0.kind == ErrorKind::Internal,
{
    let all = Perm::all();
    let n = all.len();
    let mut i: usize = 0;
    while i < n
        invariant
            store.wf(),
            n == all@.len(),
            all@ == catalog::spec_all_perms(),
            i <= n,
            RbacStore::users_same(*old(store), *store),
            RbacStore::roles_same(*old(store), *store),
            RbacStore::role_permissions_same(*old(store), *store),
            RbacStore::user_roles_same(*old(store), *store),
            store.next_permission_id <= old(store).next_permission_id + i,
            (forall|p: Perm| #[trigger] catalog_pair_present(*old(store), p)) ==> *store
                == *old(store),
            forall|k: int| 0 <= k < i ==> catalog_pair_present(*store, all@[k]),
        decreases n - i,
    {
        let p = all[i];
        let res = p.resource_str();
        let act = p.action_str();
        if !store.exists_by_resource_action(res, act) {
            let ghost pre = *store;
            proof {
                if forall|p2: Perm| #[trigger] catalog_pair_present(*old(store), p2) {
                    assert(catalog_pair_present(*old(store), all@[i as int]));
                    assert(store.has_perm_pair(res@, act@));
                }
            }
            match store.create_permission(
                String::from_str(res),
                String::from_str(act),
                Some(String::from_str(p.description())),
                now,
            ) {
                Ok(perm) => {
                    proof {
                        RbacStore::lemma_perm_push_preserves(pre, *store, perm);
                    }
                },
                Err(e) => {
                    proof {
                        if old(store).next_permission_id + 14 <= Pk::MAX {
                            assert(pre.next_permission_id == Pk::MAX);
                            assert(false);
                        }
                    }
                    return Err(e);
                },
            }
        }
        i += 1;
    }
    proof {
        assert forall|p: Perm| #[trigger] catalog_pair_present(*store, p) by {
            match p {
                Perm::UserCreate => assert(catalog_pair_present(
                    *store,
                    catalog::spec_all_perms()[0],
                )),
                Perm::UserRead => assert(catalog_pair_present(
                    *store,
                    catalog::spec_all_perms()[1],
                )),
                Perm::UserUpdate => assert(catalog_pair_present(
                    *store,
                    catalog::spec_all_perms()[2],
                )),
                Perm::UserDelete => assert(catalog_pair_present(
                    *store,
                    catalog::spec_all_perms()[3],
                )),
                Perm::UserList => assert(catalog_pair_present(
                    *store,
                    catalog::spec_all_perms()[4],
                )),
                Perm::RoleCreate => assert(catalog_pair_present(
                    *store,
                    catalog::spec_all_perms()[5],
                )),
                Perm::RoleRead => assert(catalog_pair_present(
                    *store,
                    catalog::spec_all_perms()[6],
                )),
                Perm::RoleUpdate => assert(catalog_pair_present(
                    *store,
                    catalog::spec_all_perms()[7],
                )),
                Perm::RoleDelete => assert(catalog_pair_present(
                    *store,
                    catalog::spec_all_perms()[8],
                )),
                Perm::RoleList => assert(catalog_pair_present(
                    *store,
                    catalog::spec_all_perms()[9],
                )),
                Perm::RoleAssign => assert(catalog_pair_present(
                    *store,
                    catalog::spec_all_perms()[10],
                )),
                Perm::PermissionRead => assert(catalog_pair_present(
                    *store,
                    catalog::spec_all_perms()[11],
                )),
                Perm::PermissionList => assert(catalog_pair_present(
                    *store,
                    catalog::spec_all_perms()[12],
                )),
                Perm::AdminAll => assert(catalog_pair_present(
                    *store,
                    catalog::spec_all_perms()[13],
                )),
            }
        }
    }
    Ok(())
}

/// Assign every permission in the table to the superuser role.
fn grant_all_to_superuser(store: &mut RbacStore) -> (r: Result<(), AppError>)
    requires
        old(store).wf(),
        old(store).has_role_named("superuser"@),
    ensures
        final(store).wf(),
        RbacStore::users_same(*old(store), *final(store)),
        RbacStore::roles_same(*old(store), *final(store)),
        RbacStore::perms_same(*old(store), *final(store)),
        RbacStore::user_roles_same(*old(store), *final(store)),
        forall|r2: int, p2: int|
            old(store).role_has_perm(r2, p2) ==> #[trigger] final(store).role_has_perm(r2, p2),
        r is Ok,
        superuser_covers_all(*final(store)),
        superuser_covers_all(*old(store)) ==> *final(store) == *old(store),
{
    let superuser = match store.find_role_by_name("superuser") {
        Some(role) => role,
        None => {
            proof {
                assert(false);
            }
            return Err(ErrorKind::Internal.to_error());
        },
    };
    let sid = superuser.id;
    proof {
        let w = choose|w: int|
            0 <= w < store.roles@.len() && #[trigger] store.roles@[w] == superuser
                && superuser.name@ == "superuser"@;
        store.lemma_spec_role_at(w);
        assert forall|i2: int|
            0 <= i2 < store.roles@.len() && (#[trigger] store.roles@[i2]).name@ == "superuser"@
            implies store.roles@[i2].id == sid by {
            if i2 != w {
                if i2 < w {
                    assert(store.roles@[i2].name@ != store.roles@[w].name@);
                } else {
                    assert(store.roles@[w].name@ != store.roles@[i2].name@);
                }
            }
        }
    }
    let n_perms = store.permissions.len();
    let mut j: usize = 0;
    while j < n_perms
        invariant
            store.wf(),
            n_perms == store.permissions@.len(),
            j <= n_perms,
            RbacStore::users_same(*old(store), *store),
            RbacStore::roles_same(*old(store), *store),
            RbacStore::perms_same(*old(store), *store),
            RbacStore::user_roles_same(*old(store), *store),
            store.has_role_id(sid as int),
            old(store).has_role_named("superuser"@),
            superuser_covers_all(*old(store)) ==> *store == *old(store),
            forall|i2: int|
                0 <= i2 < store.roles@.len() && (#[trigger] store.roles@[i2]).name@
                    == "superuser"@ ==> store.roles@[i2].id == sid,
            forall|r2: int, p2: int|
                old(store).role_has_perm(r2, p2) ==> #[trigger] store.role_has_perm(r2, p2),
            forall|k: int|
                0 <= k < j ==> store.role_has_perm(
                    sid as int,
                    (#[trigger] store.permissions@[k]).id as int,
                ),
        decreases n_perms - j,
    {
        let pid = store.permissions[j].id;
        proof {
            store.lemma_spec_perm_at(j as int);
        }
        if !store.role_permission_exists(sid, pid) {
            let ghost pre = *store;
            proof {
                if superuser_covers_all(*old(store)) {
                    let w2 = choose|w2: int|
                        0 <= w2 < old(store).roles@.len() && (
                        #[trigger] old(store).roles@[w2]).name@ == "superuser"@;
                    assert(old(store).roles@[w2].id == sid);
                    assert(old(store).role_has_perm(
                        sid as int,
                        old(store).permissions@[j as int].id as int,
                    ));
                    assert(false);
                }
            }
            match store.assign_permission_to_role(sid, pid) {
                Ok(_) => {
                    proof {
                        assert forall|r2: int, p2: int| pre.role_has_perm(r2, p2)
                            implies #[trigger] store.role_has_perm(r2, p2) by {
                            let w = choose|w: int|
                                0 <= w < pre.role_permissions@.len() && (
                                #[trigger] pre.role_permissions@[w]).role_id == r2
                                    && pre.role_permissions@[w].permission_id == p2;
                            assert(store.role_permissions@[w] == pre.role_permissions@[w]);
                        }
                    }
                },
                Err(e) => {
                    proof {
                        assert(false);
                    }
                    return Err(e);
                },
            }
        }
        j += 1;
    }
    Ok(())
}

/// Assign the basic ("user", "read") permission to the "user" role.
fn grant_basic_to_user(store: &mut RbacStore) -> (r: Result<(), AppError>)
    requires
        old(store).wf(),
        old(store).has_role_named("user"@),
        old(store).has_perm_pair("user"@, "read"@),
    ensures
        final(store).wf(),
        RbacStore::users_same(*old(store), *final(store)),
        RbacStore::roles_same(*old(store), *final(store)),
        RbacStore::perms_same(*old(store), *final(store)),
        RbacStore::user_roles_same(*old(store), *final(store)),
        forall|r2: int, p2: int|
            old(store).role_has_perm(r2, p2) ==> #[trigger] final(store).role_has_perm(r2, p2),
        r is Ok,
        basic_user_grant_present(*final(store)),
        basic_user_grant_present(*old(store)) ==> *final(store) == *old(store),
{
    let user_role = match store.find_role_by_name("user") {
        Some(role) => role,
        None => {
            proof {
                assert(false);
            }
            return Err(ErrorKind::Internal.to_error());
        },
    };
    let basic = match store.find_by_resource_action("user", "read") {
        Some(perm) => perm,
        None => {
            proof {
                assert(false);
            }
            return Err(ErrorKind::Internal.to_error());
        },
    };
    let ghost pre = *store;
    proof {
        let w = choose|w: int|
            0 <= w < store.roles@.len() && #[trigger] store.roles@[w] == user_role
                && user_role.name@ == "user"@;
        store.lemma_spec_role_at(w);
        let v = choose|v: int|
            0 <= v < store.permissions@.len() && #[trigger] store.permissions@[v] == basic
                && basic.resource@ == "user"@ && basic.action@ == "read"@;
        store.lemma_spec_perm_at(v);
    }
    if !store.role_permission_exists(user_role.id, basic.id) {
        proof {
            if basic_user_grant_present(*old(store)) {
                let w2 = choose|w2: int|
                    0 <= w2 < store.roles@.len() && #[trigger] store.roles@[w2] == user_role
                        && user_role.name@ == "user"@;
                let v2 = choose|v2: int|
                    0 <= v2 < store.permissions@.len() && #[trigger] store.permissions@[v2]
                        == basic && basic.resource@ == "user"@ && basic.action@ == "read"@;
                assert(old(store).role_has_perm(
                    user_role.id as int,
                    basic.id as int,
                ));
                assert(false);
            }
        }
        match store.assign_permission_to_role(user_role.id, basic.id) {
            Ok(_) => {},
            Err(e) => {
                proof {
                    assert(false);
                }
                return Err(e);
            },
        }
    }
    proof {
        let post = *store;
        assert forall|r2: int, p2: int| pre.role_has_perm(r2, p2) implies #[trigger] post.role_has_perm(
            r2,
            p2,
        ) by {
            let w = choose|w: int|
                0 <= w < pre.role_permissions@.len() && (
                #[trigger] pre.role_permissions@[w]).role_id == r2
                    && pre.role_permissions@[w].permission_id == p2;
            assert(post.role_permissions@[w] == pre.role_permissions@[w]);
        }
        assert(post.role_has_perm(user_role.id as int, basic.id as int));
        assert forall|i2: int, j2: int|
            0 <= i2 < post.roles@.len() && (#[trigger] post.roles@[i2]).name@ == "user"@ && 0
                <= j2 < post.permissions@.len() && (#[trigger] post.permissions@[j2]).resource@
                == "user"@ && post.permissions@[j2].action@ == "read"@ implies post.role_has_perm(
            post.roles@[i2].id as int,
            post.permissions@[j2].id as int,
        ) by {
            let w = choose|w: int|
                0 <= w < pre.roles@.len() && #[trigger] pre.roles@[w] == user_role
                    && user_role.name@ == "user"@;
            if i2 != w {
                if i2 < w {
                    assert(post.roles@[i2].name@ != post.roles@[w].name@);
                } else {
                    assert(post.roles@[w].name@ != post.roles@[i2].name@);
                }
            }
            let v = choose|v: int|
                0 <= v < pre.permissions@.len() && #[trigger] pre.permissions@[v] == basic
                    && basic.resource@ == "user"@ && basic.action@ == "read"@;
            if j2 != v {
                assert(!(post.permissions@[j2].resource@ == post.permissions@[v].resource@
                    && post.permissions@[j2].action@ == post.permissions@[v].action@));
            }
        }
    }
    Ok(())
}

/// Seed the store: create every catalog permission and the built-in
/// roles "superuser", "admin" and "user" where absent, grant every
/// permission in the table to the superuser role, and grant the basic
/// ("user", "read") permission to the user role. Success is owed while
/// the id counters have room; a store already fully seeded is returned
/// unchanged; and errors — only id-space exhaustion — never touch the
/// user or user-role tables.
pub fn init_rbac(store: &mut RbacStore) -> (r: Result<(), AppError>)
    requires
        old(store).wf(),
    ensures
        final(store).wf(),
        RbacStore::users_same(*old(store), *final(store)),
        RbacStore::user_roles_same(*old(store), *final(store)),
        r is Ok ==> {
            &&& forall|p: Perm| #[trigger] catalog_pair_present(*final(store), p)
            &&& final(store).has_role_named("superuser"@)
            &&& final(store).has_role_named("admin"@)
            &&& final(store).has_role_named("user"@)
            &&& superuser_covers_all(*final(store))
            &&& basic_user_grant_present(*final(store))
        },
        (old(store).next_permission_id + 14 <= Pk::MAX && old(store).next_role_id + 3
            <= Pk::MAX) ==> r is Ok,
        ((forall|p: Perm| #[trigger] catalog_pair_present(*old(store), p)) && old(
            store,
        ).has_role_named("superuser"@) && old(store).has_role_named("admin"@) && old(
            store,
        ).has_role_named("user"@) && superuser_covers_all(*old(store))
            && basic_user_grant_present(*old(store))) ==> (r is Ok && *final(store) == *old(
            store,
        )),
        r is Err ==> r->Err_0.kind == ErrorKind::Internal,
{
    let now = clock::now_unix_seconds();
    let ghost room = old(store).next_permission_id + 14 <= Pk::MAX && old(
        store,
    ).next_role_id + 3 <= Pk::MAX;
    let ghost idem = (forall|p: Perm| #[trigger] catalog_pair_present(*old(store), p)) && old(
        store,
    ).has_role_named("superuser"@) && old(store).has_role_named("admin"@) && old(
        store,
    ).has_role_named("user"@) && superuser_covers_all(*old(store)) && basic_user_grant_present(
        *old(store),
    );
    match seed_catalog(store, now) {
        Ok(_) => {},
        Err(e) => {
            proof {
                if room {
                    assert(false);
                }
                if idem {
                    assert(false);
                }
            }
            return Err(e);
        },
    }
    let ghost s1 = *store;
    proof {
        if idem {
            assert(s1 == *old(store));
        }
    }
    match ensure_role(store, "superuser", "Super administrator with all permissions", now) {
        Ok(_) => {},
        Err(e) => {
            proof {
                if room {
                    assert(s1.next_role_id == old(store).next_role_id);
                    assert(false);
                }
                if idem {
                    assert(s1.has_role_named("superuser"@));
                    assert(false);
                }
            }
            return Err(e);
        },
    }
    let ghost r1 = *store;
    proof {
        if idem {
            assert(r1 == *old(store));
        }
    }
    match ensure_role(store, "admin", "Administrator with management permissions", now) {
        Ok(_) => {},
        Err(e) => {
            proof {
                if room {
                    assert(r1.next_role_id <= old(store).next_role_id + 1);
                    assert(false);
                }
                if idem {
                    assert(r1.has_role_named("admin"@));
                    assert(false);
                }
            }
            return Err(e);
        },
    }
    let ghost r2 = *store;
    proof {
        if idem {
            assert(r2 == *old(store));
        }
    }
    match ensure_role(store, "user", "Regular user with basic permissions", now) {
        Ok(_) => {},
        Err(e) => {
            proof {
                if room {
                    assert(r2.next_role_id <= old(store).next_role_id + 2);
                    assert(false);
                }
                if idem {
                    assert(r2.has_role_named("user"@));
                    assert(false);
                }
            }
            return Err(e);
        },
    }
    let ghost s2 = *store;
    proof {
        RbacStore::lemma_perm_lookups_same(s1, s2);
        if idem {
            assert(s2 == *old(store));
        }
    }
    match grant_all_to_superuser(store) {
        Ok(_) => {},
        Err(e) => {
            proof {
                assert(false);
            }
            return Err(e);
        },
    }
    let ghost s3 = *store;
    proof {
        RbacStore::lemma_perm_lookups_same(s2, s3);
        RbacStore::lemma_role_lookups_same(s2, s3);
        assert(catalog_pair_present(s1, Perm::UserRead));
        assert(catalog_pair_present(s2, Perm::UserRead));
        assert(catalog_pair_present(s3, Perm::UserRead));
        assert(s3.has_perm_pair("user"@, "read"@));
    }
    match grant_basic_to_user(store) {
        Ok(_) => {},
        Err(e) => {
            proof {
                assert(false);
            }
            return Err(e);
        },
    }
    proof {
        let s4 = *store;
        if idem {
            assert(s3 == *old(store));
            assert(s4 == *old(store));
        }
        RbacStore::lemma_perm_lookups_same(s3, s4);
        RbacStore::lemma_role_lookups_same(s3, s4);
        assert forall|p: Perm| #[trigger] catalog_pair_present(s4, p) by {
            assert(catalog_pair_present(s1, p));
            assert(catalog_pair_present(s2, p));
            assert(catalog_pair_present(s3, p));
        }
        assert(superuser_covers_all(s4)) by {
            assert forall|i2: int, j2: int|
                0 <= i2 < s4.roles@.len() && (#[trigger] s4.roles@[i2]).name@ == "superuser"@
                    && 0 <= j2 < s4.permissions@.len() implies s4.role_has_perm(
                s4.roles@[i2].id as int,
                (#[trigger] s4.permissions@[j2]).id as int,
            ) by {
                assert(s3.roles@[i2] == s4.roles@[i2]);
                assert(s3.permissions@[j2] == s4.permissions@[j2]);
                assert(s3.role_has_perm(s3.roles@[i2].id as int, s3.permissions@[j2].id as int));
            }
        }
    }
    Ok(())
}

/// Create a user and assign the built-in superuser role to them. Fails
/// with `AlreadyExists` when the username is taken, with `NotFound` when
/// the superuser role is missing (the store was never seeded), and with
/// `Internal` when the primitive fails.
pub fn create_superuser(store: &mut RbacStore, username: String, plaintext: String) -> (r: Result<
    User,
    AppError,
>)
    requires
        old(store).wf(),
    ensures
        final(store).wf(),
        RbacStore::roles_same(*old(store), *final(store)),
        RbacStore::perms_same(*old(store), *final(store)),
        RbacStore::role_permissions_same(*old(store), *final(store)),
        match r {
            Ok(user) => {
                &&& !old(store).has_username(username@)
                &&& user.username == username
                &&& hash_matches(plaintext@, user.password@)
                &&& final(store).has_user_id(user.id as int)
                &&& exists|rid: int|
                    #[trigger] final(store).user_has_role(user.id as int, rid)
                        && final(store).has_role_id(rid)
                        && final(store).spec_role(rid).name@ == "superuser"@
            },
            Err(e) => {
                &&& (e.kind == ErrorKind::AlreadyExists <==> old(store).has_username(username@))
                &&& (e.kind == ErrorKind::NotFound ==> !final(store).has_role_named(
                    "superuser"@,
                ))
                &&& (e.kind == ErrorKind::AlreadyExists || e.kind == ErrorKind::NotFound
                    || e.kind == ErrorKind::Internal)
            },
        },
{
    let now = clock::now_unix_seconds();
    let ghost pre = *store;
    let user = match store.create_user(username, plaintext, now) {
        Ok(u) => u,
        Err(e) => {
            return Err(e);
        },
    };
    let role = match store.find_role_by_name("superuser") {
        Some(role) => role,
        None => {
            return Err(ErrorKind::NotFound.with_message(String::from_str(
                "Superuser role not found",
            )));
        },
    };
    proof {
        let mid = *store;
        let w = choose|w: int|
            0 <= w < mid.roles@.len() && #[trigger] mid.roles@[w] == role && role.name@
                == "superuser"@;
        mid.lemma_spec_role_at(w);
        assert(!mid.user_has_role(user.id as int, role.id as int)) by {
            if mid.user_has_role(user.id as int, role.id as int) {
                let v = choose|v: int|
                    0 <= v < mid.user_roles@.len() && (#[trigger] mid.user_roles@[v]).user_id
                        == user.id && mid.user_roles@[v].role_id == role.id;
                assert(pre.user_roles@[v] == mid.user_roles@[v]);
                assert(pre.has_user_id(pre.user_roles@[v].user_id as int));
                let u = choose|u: int|
                    0 <= u < pre.users@.len() && (#[trigger] pre.users@[u]).id
                        == pre.user_roles@[v].user_id;
                assert(pre.users@[u].id < pre.next_user_id);
            }
        }
    }
    let ghost mid = *store;
    match store.assign_role_to_user(user.id, role.id) {
        Ok(_) => {
            proof {
                let post = *store;
                RbacStore::lemma_role_lookups_same(mid, post);
                RbacStore::lemma_user_lookups_same(mid, post);
                let w = choose|w: int|
                    0 <= w < mid.roles@.len() && #[trigger] mid.roles@[w] == role && role.name@
                        == "superuser"@;
                mid.lemma_spec_role_at(w);
                post.lemma_spec_role_at(w);
                assert(post.user_has_role(user.id as int, role.id as int) && post.has_role_id(
                    role.id as int,
                ) && post.spec_role(role.id as int).name@ == "superuser"@);
            }
            Ok(user)
        },
        Err(e) => {
            proof {
                assert(false);
            }
            Err(e)
        },
    }
}

} // verus!
