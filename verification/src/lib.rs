//! Account registration, email-verified sign-up, session sign-in and
//! filtered, sorted, paginated listings, with every rule stated as a
//! contract and proved.

pub mod auth;
pub mod encoding;
pub mod error;
pub mod listing;
pub mod password;
pub mod pattern;
pub mod query;
pub mod session;
pub mod sources;
pub mod store;
pub mod token;
pub mod user;
pub mod value;
