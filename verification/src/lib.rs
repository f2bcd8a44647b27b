//! The decision core of a small HTTP gateway: it serves static front-end assets,
//! accepts one PDF upload, and stamps permissive cross-origin headers on every
//! response. All input and output stays with the caller; this crate decides.

pub mod cors;
pub mod gateway;
pub mod laws;
pub mod path;
pub mod reply;
pub mod resolver;
pub mod router;
pub mod upload;

pub use cors::Cors;
pub use gateway::{rocket, Gateway};
