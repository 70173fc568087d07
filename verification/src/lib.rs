//! Verified core of a collaborative whiteboard and quiz service: identifiers,
//! authentication decisions, access control, sharing, edits and the
//! real-time board rooms.
pub mod access;
pub mod auth;
pub mod config;
pub mod edits;
pub mod error;
pub mod ident;
pub mod records;
pub mod rooms;
pub mod session;
pub mod share;
