//! Request-handling rules of a small real-estate agency back office: sessions and roles,
//! form validation, property search filters, audit events, report exports and the
//! administrator's SQL console.

pub mod audit;
pub mod auth;
pub mod console;
pub mod error;
pub mod export;
pub mod forms;
pub mod json;
pub mod pages;
pub mod reports;
pub mod search;
pub mod text;
