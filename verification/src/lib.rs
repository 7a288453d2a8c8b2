//! A verified role-based access control core.
//!
//! The crate models users, roles and permissions together with their
//! many-to-many assignments, resolves a user's effective permission set
//! through the role graph, and evaluates wildcard-aware permission checks.
//! Credential verification is delegated to the Argon2 password-hashing
//! primitive behind a narrow trusted boundary; everything else is proved.

pub mod auth;
pub mod catalog;
pub mod clock;
pub mod config;
pub mod error;
pub mod laws;
pub mod matching;
pub mod model;
pub mod password;
pub mod principal;
pub mod request;
pub mod response;
pub mod seed;
pub mod seqtools;
pub mod store;

pub use error::AppError;
pub use error::ErrorKind;
