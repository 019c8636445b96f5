//! Authentication and catalog-consistency core of a product catalog backend.
//!
//! Session tokens, password hashing, the operator login and password-change
//! decisions, and the brand / product / hot-list rules, each with a contract.

pub mod auth;
pub mod catalog;
pub mod cosmetics;
pub mod decimal;
pub mod jwt;
pub mod models;
pub mod password;
