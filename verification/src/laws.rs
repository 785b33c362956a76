//! What holds of whole requests, run against the database and the disk of
//! [`world`](crate::world).
pub mod delete;
pub mod dirs;
pub mod download;
pub mod finalize;
pub mod history;
pub mod identity;
pub mod places;
pub mod progress;
pub mod recording;
pub mod removal;
pub mod schema;
pub mod session;
pub mod sql;
pub mod startup;
pub mod tables;
pub mod tokens;
pub mod upload;
