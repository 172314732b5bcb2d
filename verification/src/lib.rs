//! Trapps, their auth tokens and filter rules, kept in a store whose keys are
//! enforced on every statement, and the signed session of the administrator.

pub mod config;
pub mod crud;
pub mod crypto;
pub mod database;
pub mod models;
pub mod schema;
pub mod table;
pub mod utils;
pub mod web;
