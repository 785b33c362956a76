//! The logic of a recorder for long voice messages. A browser uploads a recording in small
//! chunks as it is made; the server keeps them, puts them together when the recording is
//! finalized, plays the result, and deletes it on request.
//!
//! A request is a machine: it asks for one effect on the database or the disk at a time
//! ([`effect`]), goes on with the reply ([`server::resume`]), and ends with an outcome
//! ([`messages::Outcome`]).

pub mod codec;
pub mod config;
pub mod delete;
pub mod download;
pub mod effect;
pub mod finalize;
pub mod flow;
pub mod identity;
pub mod laws;
pub mod layout;
pub mod lookup;
pub mod messages;
pub mod outside;
pub mod path;
pub mod routes;
pub mod server;
pub mod session;
pub mod sql;
pub mod startup;
pub mod text;
pub mod upload;
pub mod world;
