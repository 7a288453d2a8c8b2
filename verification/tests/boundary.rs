use rbac_core::ErrorKind;
use rbac_core::config::AppConfig;
use rbac_core::config::SessionConfig;
use rbac_core::model::Role;
use rbac_core::model::RoleExt;
use rbac_core::model::User;
use rbac_core::request::AutoIdPath;
use rbac_core::request::CreateUserRequest;
use rbac_core::request::PaginationQuery;
use rbac_core::response::CurrentUserResponse;
use rbac_core::response::HelloResponse;
use rbac_core::response::LoginResponse;
use rbac_core::response::UserListResponse;
use rbac_core::response::UserResponse;
use rbac_core::store::RbacStore;

#[test]
fn error_kinds_carry_their_codes() {
    assert_eq!(ErrorKind::NotFound.code(), "res.not_found");
    assert_eq!(ErrorKind::AlreadyExists.code(), "res.already_exists");
    assert_eq!(ErrorKind::InvalidCredentials.code(), "auth.invalid_credentials");
    assert_eq!(ErrorKind::PermissionDenied.code(), "auth.permission_denied");
    assert_eq!(ErrorKind::Unauthorized.code(), "auth.unauthorized");
    assert_eq!(ErrorKind::ValidationFailed.code(), "data.validation_failed");
    assert_eq!(ErrorKind::BadRequest.code(), "data.bad_request");
    assert_eq!(ErrorKind::DataParse.code(), "data.parse");
    assert_eq!(ErrorKind::InvalidParameter.code(), "data.invalid");
    assert_eq!(ErrorKind::Config.code(), "sys.config");
    assert_eq!(ErrorKind::Internal.code(), "err.internal");
}

#[test]
fn error_kinds_map_to_http_statuses() {
    assert_eq!(ErrorKind::BadRequest.status_code(), 400);
    assert_eq!(ErrorKind::ValidationFailed.status_code(), 400);
    assert_eq!(ErrorKind::Unauthorized.status_code(), 401);
    assert_eq!(ErrorKind::PermissionDenied.status_code(), 403);
    assert_eq!(ErrorKind::InvalidCredentials.status_code(), 403);
    assert_eq!(ErrorKind::NotFound.status_code(), 404);
    assert_eq!(ErrorKind::AlreadyExists.status_code(), 409);
    assert_eq!(ErrorKind::Internal.status_code(), 500);
    assert_eq!(ErrorKind::Config.status_code(), 500);
}

#[test]
fn error_messages_and_internal_flag() {
    assert_eq!(ErrorKind::NotFound.default_message(), "Resource not found");
    assert_eq!(ErrorKind::InvalidCredentials.default_message(), "Invalid credentials");
    assert!(ErrorKind::Internal.is_internal_error());
    assert!(ErrorKind::Config.is_internal_error());
    assert!(!ErrorKind::NotFound.is_internal_error());

    let e = ErrorKind::NotFound.to_error();
    assert_eq!(e.kind(), ErrorKind::NotFound);
    assert_eq!(e.message(), "Resource not found");
    assert_eq!(e.code(), "res.not_found");
    assert_eq!(e.status_code(), 404);
    let e = ErrorKind::NotFound.with_message("Role not found".to_string());
    assert_eq!(e.message(), "Role not found");
}

#[test]
fn config_defaults() {
    let c = AppConfig::default();
    assert_eq!(c.server.host, "0.0.0.0");
    assert_eq!(c.server.port, 8000);
    assert_eq!(c.log.level, "debug");
    assert_eq!(c.database.url, "postgres://postgres:@localhost:5432/db");
    assert_eq!(c.session.inactivity_timeout, 14 * 24 * 60 * 60);
    assert_eq!(c.session.inactivity_timeout_seconds(), 1_209_600);
    let big = SessionConfig { inactivity_timeout: u64::MAX };
    assert_eq!(big.inactivity_timeout_seconds(), i64::MAX);
}

#[test]
fn create_user_request_validation() {
    let ok = CreateUserRequest { username: "bob".to_string(), password: "longenough".to_string() };
    assert!(ok.validate().is_ok());
    let short_name = CreateUserRequest { username: "ab".to_string(), password: "longenough".to_string() };
    assert_eq!(short_name.validate().unwrap_err().kind(), ErrorKind::ValidationFailed);
    let long_name = CreateUserRequest {
        username: "a".repeat(21),
        password: "longenough".to_string(),
    };
    assert!(long_name.validate().is_err());
    let short_pw = CreateUserRequest { username: "bob".to_string(), password: "short".to_string() };
    assert!(short_pw.validate().is_err());
    let long_pw = CreateUserRequest { username: "bob".to_string(), password: "p".repeat(33) };
    assert!(long_pw.validate().is_err());
    let edge = CreateUserRequest { username: "a".repeat(20), password: "p".repeat(32) };
    assert!(edge.validate().is_ok());
}

#[test]
fn auto_id_path_validation() {
    assert!(AutoIdPath { id: 1 }.validate().is_ok());
    assert!(AutoIdPath { id: 0 }.validate().is_err());
    assert!(AutoIdPath { id: -3 }.validate().is_err());
}

#[test]
fn pagination_defaults() {
    let p = PaginationQuery::default();
    assert_eq!(p.page, 0);
    assert_eq!(p.per_page, 10);
}

#[test]
fn hello_greeting() {
    let r = HelloResponse::greeting("World");
    assert_eq!(r.message, "Hello World");
}

#[test]
fn user_response_projection() {
    let user = User {
        id: 9,
        username: "kate".to_string(),
        password: "$argon2id$secret".to_string(),
        created_at: 100,
        updated_at: 200,
    };
    let resp = UserResponse::from(user);
    assert_eq!(resp.id, 9);
    assert_eq!(resp.username, "kate");
    assert_eq!(resp.created_at, 100);
    assert_eq!(resp.updated_at, 200);
}

#[test]
fn user_list_page_projects_without_hashes() {
    let mut s = RbacStore::new();
    for i in 0..3 {
        s.create_user(format!("user{}", i), "pw_longenough".to_string(), 1000 + i).unwrap();
    }
    let page = UserListResponse::for_page(&s, 1, 2);
    assert_eq!(page.total, 3);
    assert_eq!(page.page, 1);
    assert_eq!(page.per_page, 2);
    assert_eq!(page.users.len(), 1);
    assert_eq!(page.users[0].username, "user2");
    assert_eq!(page.users[0].created_at, 1002);
}

#[test]
fn login_and_me_responses_carry_the_user() {
    let mut s = RbacStore::new();
    s.create_user("lena".to_string(), "a_fine_password".to_string(), 50).unwrap();
    let principal = s.authenticate("lena", "a_fine_password").unwrap().unwrap();
    let login = LoginResponse::for_principal(&principal);
    assert_eq!(login.user.username, "lena");
    let me = CurrentUserResponse::for_principal(&principal);
    assert_eq!(me.user.id, principal.id());
}

#[test]
fn administrative_roles_by_name() {
    let admin = Role {
        id: 1,
        name: "admin".to_string(),
        description: None,
        created_at: 0,
        updated_at: 0,
    };
    let viewer = Role {
        id: 2,
        name: "viewer".to_string(),
        description: None,
        created_at: 0,
        updated_at: 0,
    };
    assert!(admin.is_admin());
    assert!(!viewer.is_admin());
}
