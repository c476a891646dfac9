//! Cookie-based session authentication for a small web application:
//! reading the session cookies, locating a user's key file, and the
//! decisions taken by the login, sign-up and profile-update handlers.

pub mod text;
pub mod headers;
pub mod cookie;
pub mod auth;
pub mod sqlx;
