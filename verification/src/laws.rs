//! Crate-level laws: facts that tie several operations of the store
//! together, stated over the same spec functions their contracts use.

use vstd::prelude::*;

use crate::model::Permission;
use crate::model::Pk;
use crate::principal::UserPrincipal;
use crate::store::RbacStore;

verus! {

/// A permission granted to a role appears in the role's resolved
/// permission set, and one not granted does not: granting makes
/// `permissions_of_role` contain the permission, revoking removes it.
pub proof fn lemma_role_permission_membership(s: RbacStore, role_id: Pk, perm_id: Pk)
    requires
        s.wf(),
        s.has_perm_id(perm_id as int),
    ensures
        s.role_has_perm(role_id as int, perm_id as int) ==> exists|i: int|
            0 <= i < s.spec_permissions_of_role(role_id as int).len() && (
            #[trigger] s.spec_permissions_of_role(role_id as int)[i]).id == perm_id,
        !s.role_has_perm(role_id as int, perm_id as int) ==> forall|i: int|
            0 <= i < s.spec_permissions_of_role(role_id as int).len() ==> (
            #[trigger] s.spec_permissions_of_role(role_id as int)[i]).id != perm_id,
{
    broadcast use vstd::seq_lib::group_filter_ensures;

    let pred = s.perms_of_role_pred(role_id as int);
    let ps = s.permissions@;
    if s.role_has_perm(role_id as int, perm_id as int) {
        let w = choose|w: int| 0 <= w < ps.len() && (#[trigger] ps[w]).id == perm_id;
        assert(pred(ps[w]));
        assert(ps.filter(pred).contains(ps[w]));
        let v = choose|v: int|
            0 <= v < ps.filter(pred).len() && ps.filter(pred)[v] == ps[w];
        assert(s.spec_permissions_of_role(role_id as int)[v].id == perm_id);
    } else {
        assert forall|i: int|
            0 <= i < s.spec_permissions_of_role(role_id as int).len() implies (
        #[trigger] s.spec_permissions_of_role(role_id as int)[i]).id != perm_id by {
            assert(pred(ps.filter(pred)[i]));
        }
    }
}

/// A user holding two roles, one granting ("user", "read") and one
/// granting ("user", "*"), has both permissions in their effective set,
/// and the principal resolved for them may act on ("user", "delete"):
/// the role-wise union is closed under every assigned role, and the
/// wildcard action covers actions never granted verbatim.
pub proof fn lemma_role_union_and_wildcard(
    s: RbacStore,
    p: UserPrincipal,
    r1: int,
    r2: int,
    i1: int,
    i2: int,
)
    requires
        s.wf(),
        p.resolved_from(s),
        s.user_has_role(p.user.id as int, r1),
        s.user_has_role(p.user.id as int, r2),
        0 <= i1 < s.permissions@.len(),
        s.permissions@[i1].resource@ == "user"@,
        s.permissions@[i1].action@ == "read"@,
        0 <= i2 < s.permissions@.len(),
        s.permissions@[i2].resource@ == "user"@,
        s.permissions@[i2].action@ == "*"@,
        s.role_has_perm(r1, s.permissions@[i1].id as int),
        s.role_has_perm(r2, s.permissions@[i2].id as int),
    ensures
        s.spec_effective_permissions(p.user.id as int).contains(s.permissions@[i1]),
        s.spec_effective_permissions(p.user.id as int).contains(s.permissions@[i2]),
        p.spec_has_permission("user"@, "delete"@),
{
    broadcast use vstd::seq_lib::group_filter_ensures;

    let uid = p.user.id as int;
    let pred = s.perms_of_user_pred(uid);
    let ps = s.permissions@;
    assert(s.user_has_perm(uid, ps[i1].id as int)) by {
        assert(s.user_has_role(uid, r1) && s.role_has_perm(r1, ps[i1].id as int));
    }
    assert(s.user_has_perm(uid, ps[i2].id as int)) by {
        assert(s.user_has_role(uid, r2) && s.role_has_perm(r2, ps[i2].id as int));
    }
    assert(pred(ps[i1]));
    assert(pred(ps[i2]));
    assert(ps.filter(pred).contains(ps[i1]));
    assert(ps.filter(pred).contains(ps[i2]));
    let v = choose|v: int| 0 <= v < ps.filter(pred).len() && ps.filter(pred)[v] == ps[i2];
    assert(crate::matching::spec_matches(
        p.permissions@[v].resource@,
        p.permissions@[v].action@,
        "user"@,
        "delete"@,
    ));
}

/// A deleted role keeps nothing: referential integrity makes the
/// permission set of an absent role empty and bars it from every user's
/// role set, and a later grant to it is answered with `NotFound`.
pub proof fn lemma_deleted_role_is_detached(s: RbacStore, role_id: Pk)
    requires
        s.wf(),
        !s.has_role_id(role_id as int),
    ensures
        s.spec_permissions_of_role(role_id as int) =~= Seq::<Permission>::empty(),
        forall|u: int| !s.user_has_role(u, role_id as int),
{
    broadcast use vstd::seq_lib::group_filter_ensures;

    let pred = s.perms_of_role_pred(role_id as int);
    let ps = s.permissions@;
    if ps.filter(pred).len() > 0 {
        assert(pred(ps.filter(pred)[0]));
        let w = choose|w: int|
            0 <= w < s.role_permissions@.len() && (#[trigger] s.role_permissions@[w]).role_id
                == role_id && s.role_permissions@[w].permission_id == ps.filter(pred)[0].id;
        assert(s.has_role_id(s.role_permissions@[w].role_id as int));
    }
    assert forall|u: int| !s.user_has_role(u, role_id as int) by {
        if s.user_has_role(u, role_id as int) {
            let w = choose|w: int|
                0 <= w < s.user_roles@.len() && (#[trigger] s.user_roles@[w]).user_id == u
                    && s.user_roles@[w].role_id == role_id;
            assert(s.has_role_id(s.user_roles@[w].role_id as int));
        }
    }
}

} // verus!
