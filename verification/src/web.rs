pub mod admin;
pub mod session;
