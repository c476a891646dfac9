pub mod models;
pub mod views;
pub mod check;
pub mod password;
pub mod accreditation;
pub mod handlers;
