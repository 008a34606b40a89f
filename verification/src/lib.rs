//! Catalog-browsing application core: session-token authentication,
//! credential validation, identity resolution, and the pure catalog
//! helpers (pagination windows, entity mapping) that surround it.

pub mod ascii;
pub mod auth;
pub mod base64url;
pub mod catalog;
pub mod configuration;
pub mod date;
pub mod digits;
pub mod encryption;
pub mod entity;
pub mod error;
pub mod etl;
pub mod frontend;
pub mod jwt;
pub mod time;
