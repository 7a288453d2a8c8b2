//! The authentication gate: credential verification, principal
//! resolution, session fingerprints, and the password-changing
//! operations that feed them.

use vstd::prelude::*;

use crate::error::AppError;
use crate::error::ErrorKind;
use crate::model::Pk;
use crate::model::User;
use crate::password;
use crate::password::hash_matches;
use crate::password::phc_readable;
use crate::principal::UserPrincipal;
use crate::store::RbacStore;

verus! {

/// A username/password pair as presented for authentication.
#[derive(Debug)]
pub struct Credentials {
    /// The claimed username.
    pub username: String,
    /// The plaintext password.
    pub password: String,
}

/// A persisted session reference: the user it names and the password-hash
/// fingerprint it was issued under.
pub struct Session {
    /// The authenticated user's id.
    pub user_id: Pk,
    /// The password hash the session was bound to at login.
    pub auth_hash: String,
}

impl Session {
    /// A session bound to the principal's current password hash.
    pub fn for_principal(p: &UserPrincipal) -> (r: Session)
        ensures
            r.user_id == p.user.id,
            r.auth_hash@ == p.user.password@,
    {
        Session { user_id: p.user.id, auth_hash: p.user.password.clone() }
    }
}

impl RbacStore {
    /// Whether the stored credentials accept the username/password pair:
    /// the user exists and the password verifies against their hash.
    pub open spec fn spec_credentials_valid(
        self,
        username: Seq<char>,
        password: Seq<char>,
    ) -> bool {
        exists|i: int|
            0 <= i < self.users@.len() && (#[trigger] self.users@[i]).username@ == username
                && hash_matches(password, self.users@[i].password@)
    }

    /// Whether a session is still valid: its user exists and its
    /// fingerprint equals the user's current password hash.
    pub open spec fn spec_session_valid(self, session: Session) -> bool {
        self.has_user_id(session.user_id as int) && self.spec_user(
            session.user_id as int,
        ).password@ == session.auth_hash@
    }

    /// The principal of a user row: the row together with its resolved
    /// roles and effective permissions.
    pub fn build_principal(&self, user: User) -> (r: UserPrincipal)
        requires
            self.wf(),
            self.has_user_id(user.id as int),
            user == self.spec_user(user.id as int),
        ensures
            r.resolved_from(*self),
            r.user == user,
    {
        let roles = self.roles_of_user(user.id);
        let permissions = self.effective_permissions_of_user(user.id);
        UserPrincipal { user, roles, permissions }
    }

    /// Verify a username/password pair and, on success, materialize the
    /// principal. An unknown username and a wrong password are both
    /// answered with `None`, indistinguishably; `Err` arises only from a
    /// stored hash the primitive cannot read.
    pub fn authenticate(&self, username: &str, plaintext: &str) -> (r: Result<
        Option<UserPrincipal>,
        AppError,
    >)
        requires
            self.wf(),
        ensures
            r is Ok ==> ((r->Ok_0 is Some) <==> self.spec_credentials_valid(
                username@,
                plaintext@,
            )),
            (r is Ok && r->Ok_0 is Some) ==> (r->Ok_0->0.resolved_from(*self)
                && r->Ok_0->0.user.username@ == username@ && hash_matches(
                plaintext@,
                r->Ok_0->0.user.password@,
            )),
            !self.has_username(username@) ==> (r is Ok && r->Ok_0 is None),
            r is Err <==> exists|i: int|
                0 <= i < self.users@.len() && (#[trigger] self.users@[i]).username@ == username@
                    && !phc_readable(self.users@[i].password@),
            r is Err ==> r->Err_0.kind == ErrorKind::Internal,
    {
        let found = self.find_by_username(username);
        match found {
            None => {
                proof {
                    if self.spec_credentials_valid(username@, plaintext@) {
                        let i = choose|i: int|
                            0 <= i < self.users@.len() && (#[trigger] self.users@[i]).username@
                                == username@ && hash_matches(plaintext@, self.users@[i].password@);
                        assert(self.has_username(username@));
                    }
                    if exists|i: int|
                        0 <= i < self.users@.len() && (#[trigger] self.users@[i]).username@
                            == username@ && !phc_readable(self.users@[i].password@) {
                        let i = choose|i: int|
                            0 <= i < self.users@.len() && (#[trigger] self.users@[i]).username@
                                == username@ && !phc_readable(self.users@[i].password@);
                        assert(self.has_username(username@));
                    }
                }
                Ok(None)
            },
            Some(user) => {
                let ghost wi = choose|i: int|
                    0 <= i < self.users@.len() && #[trigger] self.users@[i] == user
                        && user.username@ == username@;
                let verified = match password::verify(plaintext, user.password.as_str()) {
                    Ok(b) => b,
                    Err(e) => {
                        proof {
                            assert(self.users@[wi].username@ == username@ && !phc_readable(
                                self.users@[wi].password@,
                            ));
                        }
                        return Err(e);
                    },
                };
                proof {
                    assert forall|j: int|
                        0 <= j < self.users@.len() && (#[trigger] self.users@[j]).username@
                            == username@ implies phc_readable(self.users@[j].password@) by {
                        if j != wi {
                            if j < wi {
                                assert(self.users@[j].username@ != self.users@[wi].username@);
                            } else {
                                assert(self.users@[wi].username@ != self.users@[j].username@);
                            }
                        }
                    }
                    let i = choose|i: int|
                        0 <= i < self.users@.len() && #[trigger] self.users@[i] == user
                            && user.username@ == username@;
                    self.lemma_spec_user_at(i);
                    if !verified && self.spec_credentials_valid(username@, plaintext@) {
                        let j = choose|j: int|
                            0 <= j < self.users@.len() && (#[trigger] self.users@[j]).username@
                                == username@ && hash_matches(
                                plaintext@,
                                self.users@[j].password@,
                            );
                        assert(self.users@[i].username@ == self.users@[j].username@);
                        if i != j {
                            if i < j {
                                assert(self.users@[i].username@ != self.users@[j].username@);
                            } else {
                                assert(self.users@[j].username@ != self.users@[i].username@);
                            }
                        }
                    }
                }
                if verified {
                    Ok(Some(self.build_principal(user)))
                } else {
                    Ok(None)
                }
            },
        }
    }

    /// Rehydrate the principal named by a user id, without re-verifying
    /// the password; used on each request after login.
    pub fn get_principal_by_id(&self, user_id: Pk) -> (r: Option<UserPrincipal>)
        requires
            self.wf(),
        ensures
            r is Some <==> self.has_user_id(user_id as int),
            r matches Some(p) ==> p.resolved_from(*self) && p.user.id == user_id,
    {
        match self.find_user_by_id(user_id) {
            Some(user) => Some(self.build_principal(user)),
            None => None,
        }
    }

    /// Rehydrate a session: the principal, provided the session's user
    /// still exists and the session's fingerprint still equals the user's
    /// current password hash. A stale fingerprint — as after a password
    /// change — yields `None`, forcing a fresh login.
    pub fn rehydrate(&self, session: &Session) -> (r: Option<UserPrincipal>)
        requires
            self.wf(),
        ensures
            r is Some <==> self.spec_session_valid(*session),
            r matches Some(p) ==> p.resolved_from(*self) && p.user.id == session.user_id,
    {
        match self.find_user_by_id(session.user_id) {
            Some(user) => {
                if crate::matching::str_eq(user.password.as_str(), session.auth_hash.as_str()) {
                    Some(self.build_principal(user))
                } else {
                    None
                }
            },
            None => None,
        }
    }

    /// Register a user: hash the password with a fresh salt and insert
    /// the row. Fails with `AlreadyExists` when the username is taken and
    /// with `Internal` when hashing fails or the id space is exhausted.
    pub fn create_user(&mut self, username: String, plaintext: String, now: i64) -> (r: Result<
        User,
        AppError,
    >)
        requires
            old(self).wf(),
        ensures
            final(self).wf(),
            RbacStore::roles_same(*old(self), *final(self)),
            RbacStore::perms_same(*old(self), *final(self)),
            RbacStore::role_permissions_same(*old(self), *final(self)),
            RbacStore::user_roles_same(*old(self), *final(self)),
            match r {
                Ok(user) => {
                    &&& !old(self).has_username(username@)
                    &&& user.id == old(self).next_user_id
                    &&& user.username == username
                    &&& hash_matches(plaintext@, user.password@)
                    &&& phc_readable(user.password@)
                    &&& user.password@.len() > 7
                    &&& user.password@.subrange(0, 7) == "$argon2"@
                    &&& final(self).users@ == old(self).users@.push(user)
                    &&& final(self).next_user_id == old(self).next_user_id + 1
                    &&& final(self).has_username(username@)
                    &&& final(self).has_user_id(user.id as int)
                },
                Err(e) => {
                    &&& *final(self) == *old(self)
                    &&& (e.kind == ErrorKind::AlreadyExists <==> old(self).has_username(
                        username@,
                    ))
                    &&& (e.kind == ErrorKind::AlreadyExists || e.kind == ErrorKind::Internal)
                },
            },
    {
        if self.exists_by_username(username.as_str()) {
            return Err(ErrorKind::AlreadyExists.with_message(String::from_str(
                "Username already exists",
            )));
        }
        let hashed = match password::hash(plaintext.as_str()) {
            Ok(h) => h,
            Err(e) => {
                return Err(e);
            },
        };
        self.insert_user_with_hash(username, hashed, now)
    }

    /// Change a user's password, requiring the current one to verify
    /// first. Fails with `NotFound` for an absent user, with
    /// `InvalidCredentials` when the old password does not verify, and
    /// with `Internal` when the primitive fails.
    pub fn change_password(
        &mut self,
        id: Pk,
        old_password: &str,
        new_password: &str,
        now: i64,
    ) -> (r: Result<(), AppError>)
        requires
            old(self).wf(),
        ensures
            final(self).wf(),
            RbacStore::roles_same(*old(self), *final(self)),
            RbacStore::perms_same(*old(self), *final(self)),
            RbacStore::role_permissions_same(*old(self), *final(self)),
            RbacStore::user_roles_same(*old(self), *final(self)),
            match r {
                Ok(_) => {
                    &&& old(self).has_user_id(id as int)
                    &&& hash_matches(old_password@, old(self).spec_user(id as int).password@)
                    &&& final(self).has_user_id(id as int)
                    &&& hash_matches(new_password@, final(self).spec_user(id as int).password@)
                    &&& phc_readable(final(self).spec_user(id as int).password@)
                    &&& final(self).spec_user(id as int).username == old(self).spec_user(
                        id as int,
                    ).username
                    &&& final(self).users@ == old(self).users@.update(
                        old(self).user_idx(id as int),
                        final(self).spec_user(id as int),
                    )
                },
                Err(e) => {
                    &&& *final(self) == *old(self)
                    &&& (e.kind == ErrorKind::NotFound <==> !old(self).has_user_id(id as int))
                    &&& (e.kind == ErrorKind::InvalidCredentials <==> old(self).has_user_id(
                        id as int,
                    ) && phc_readable(old(self).spec_user(id as int).password@) && !hash_matches(
                        old_password@,
                        old(self).spec_user(id as int).password@,
                    ))
                    &&& (e.kind == ErrorKind::NotFound || e.kind == ErrorKind::InvalidCredentials
                        || e.kind == ErrorKind::Internal)
                },
            },
    {
        let user = match self.find_user_by_id(id) {
            Some(u) => u,
            None => {
                return Err(ErrorKind::NotFound.with_message(String::from_str(
                    "User not found",
                )));
            },
        };
        let verified = match password::verify(old_password, user.password.as_str()) {
            Ok(b) => b,
            Err(e) => {
                return Err(e);
            },
        };
        if !verified {
            return Err(ErrorKind::InvalidCredentials.with_message(String::from_str(
                "Invalid old password",
            )));
        }
        let hashed = match password::hash(new_password) {
            Ok(h) => h,
            Err(e) => {
                return Err(e);
            },
        };
        match self.set_password_hash(id, hashed, now) {
            Ok(_) => Ok(()),
            Err(e) => Err(e),
        }
    }

    /// Reset a user's password without verifying the current one — an
    /// administrative action. Fails with `NotFound` for an absent user
    /// and with `Internal` when hashing fails.
    pub fn reset_password(&mut self, id: Pk, new_password: &str, now: i64) -> (r: Result<
        (),
        AppError,
    >)
        requires
            old(self).wf(),
        ensures
            final(self).wf(),
            RbacStore::roles_same(*old(self), *final(self)),
            RbacStore::perms_same(*old(self), *final(self)),
            RbacStore::role_permissions_same(*old(self), *final(self)),
            RbacStore::user_roles_same(*old(self), *final(self)),
            match r {
                Ok(_) => {
                    &&& old(self).has_user_id(id as int)
                    &&& final(self).has_user_id(id as int)
                    &&& hash_matches(new_password@, final(self).spec_user(id as int).password@)
                    &&& phc_readable(final(self).spec_user(id as int).password@)
                    &&& final(self).spec_user(id as int).username == old(self).spec_user(
                        id as int,
                    ).username
                    &&& final(self).users@ == old(self).users@.update(
                        old(self).user_idx(id as int),
                        final(self).spec_user(id as int),
                    )
                },
                Err(e) => {
                    &&& *final(self) == *old(self)
                    &&& (e.kind == ErrorKind::NotFound <==> !old(self).has_user_id(id as int))
                    &&& (e.kind == ErrorKind::NotFound || e.kind == ErrorKind::Internal)
                },
            },
    {
        if !self.user_exists(id) {
            return Err(ErrorKind::NotFound.with_message(String::from_str("User not found")));
        }
        let hashed = match password::hash(new_password) {
            Ok(h) => h,
            Err(e) => {
                return Err(e);
            },
        };
        match self.set_password_hash(id, hashed, now) {
            Ok(_) => Ok(()),
            Err(e) => Err(e),
        }
    }
}

/// A principal freshly authenticated or rehydrated carries a fingerprint
/// equal to the user's current hash; once the stored hash differs from a
/// session's fingerprint — as after a password change — that session no
/// longer rehydrates.
pub proof fn lemma_stale_fingerprint_invalidates(s: RbacStore, session: Session)
    requires
        s.has_user_id(session.user_id as int) ==> s.spec_user(session.user_id as int).password@
            != session.auth_hash@,
    ensures
        !s.spec_session_valid(session),
{
}

} // verus!
