//! The second variant of the account handlers, named after the database
//! layer its handlers use: a missing or unreadable `Cookie` field is an
//! error rather than an anonymous visit, a login keeps the location of its
//! key in cookies, and a sign-up is refused when the email or the user name
//! is taken.

pub mod check;
pub mod accreditation;
