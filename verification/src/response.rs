//! Response payloads handed back to the boundary. None of them carries a
//! password hash.

use vstd::prelude::*;

use crate::model::Pk;
use crate::model::User;
use crate::principal::UserPrincipal;
use crate::store::RbacStore;

verus! {

/// The public projection of a user row.
pub open spec fn user_to_response() -> spec_fn(User) -> UserResponse {
    |u: User|
        UserResponse { id: u.id, username: u.username, created_at: u.created_at, updated_at: u.updated_at }
}

/// A user as shown to clients: everything but the password hash.
#[derive(Debug)]
pub struct UserResponse {
    /// The user's id.
    pub id: Pk,
    /// The username.
    pub username: String,
    /// Creation time, seconds since the Unix epoch.
    pub created_at: i64,
    /// Last-update time, seconds since the Unix epoch.
    pub updated_at: i64,
}

impl From<User> for UserResponse {
    /// The public projection of a user row.
    fn from(user: User) -> (r: UserResponse) {
        UserResponse {
            id: user.id,
            username: user.username,
            created_at: user.created_at,
            updated_at: user.updated_at,
        }
    }
}

impl vstd::std_specs::convert::FromSpecImpl<User> for UserResponse {
    open spec fn obeys_from_spec() -> bool {
        true
    }

    open spec fn from_spec(user: User) -> UserResponse {
        UserResponse {
            id: user.id,
            username: user.username,
            created_at: user.created_at,
            updated_at: user.updated_at,
        }
    }
}

impl UserResponse {
    /// The public projection of a user row, leaving the row in place.
    pub fn of_user(user: &User) -> (r: UserResponse)
        ensures
            r == user_to_response()(*user),
    {
        UserResponse {
            id: user.id,
            username: user.username.clone(),
            created_at: user.created_at,
            updated_at: user.updated_at,
        }
    }
}

/// One page of users, with the paging echoed back.
#[derive(Debug)]
pub struct UserListResponse {
    /// The page's users.
    pub users: Vec<UserResponse>,
    /// The total number of users.
    pub total: u64,
    /// The zero-based page number served.
    pub page: u64,
    /// The page size served.
    pub per_page: u64,
}

impl UserListResponse {
    /// One page of the user table as the list endpoint reports it: the
    /// page's users projected, the total count, and the paging echoed
    /// back.
    pub fn for_page(store: &RbacStore, page: u64, per_page: u64) -> (r: UserListResponse)
        ensures
            r.users@ == crate::seqtools::spec_page(
                store.users@,
                page as int,
                per_page as int,
            ).map_values(user_to_response()),
            r.total == store.users@.len(),
            r.page == page,
            r.per_page == per_page,
    {
        let f = Ghost(user_to_response());
        let users = store.list_users(page, per_page);
        let n = users.len();
        let mut out: Vec<UserResponse> = Vec::new();
        let mut i: usize = 0;
        while i < n
            invariant
                n == users@.len(),
                i <= n,
                out@ == users@.take(i as int).map_values(f@),
                f@ == user_to_response(),
            decreases n - i,
        {
            out.push(UserResponse::of_user(&users[i]));
            proof {
                assert(users@.take(i + 1).map_values(f@) =~= users@.take(i as int).map_values(
                    f@,
                ).push(f@(users@[i as int])));
            }
            i += 1;
        }
        proof {
            assert(users@.take(n as int) =~= users@);
        }
        UserListResponse { users: out, total: store.count_users(), page, per_page }
    }
}

/// A plain confirmation message.
#[derive(Debug)]
pub struct MessageResponse {
    /// The message text.
    pub message: String,
}

/// The response to a successful login.
#[derive(Debug)]
pub struct LoginResponse {
    /// The authenticated user.
    pub user: UserResponse,
}

/// The authenticated user behind the current session.
#[derive(Debug)]
pub struct CurrentUserResponse {
    /// The session's user.
    pub user: UserResponse,
}

impl LoginResponse {
    /// The login response for a freshly authenticated principal.
    pub fn for_principal(p: &UserPrincipal) -> (r: LoginResponse)
        ensures
            r.user == user_to_response()(p.user),
    {
        LoginResponse { user: UserResponse::of_user(&p.user) }
    }
}

impl CurrentUserResponse {
    /// The session-introspection response for the current principal.
    pub fn for_principal(p: &UserPrincipal) -> (r: CurrentUserResponse)
        ensures
            r.user == user_to_response()(p.user),
    {
        CurrentUserResponse { user: UserResponse::of_user(&p.user) }
    }
}

/// The greeting response.
#[derive(Debug)]
pub struct HelloResponse {
    /// The greeting text.
    pub message: String,
}

impl HelloResponse {
    /// The greeting for a name: the word "Hello", a space, and the name.
    pub fn greeting(name: &str) -> (r: HelloResponse)
        ensures
            r.message@ == "Hello "@ + name@,
    {
        let mut s = String::from_str("Hello ");
        s.append(name);
        HelloResponse { message: s }
    }
}

} // verus!
