//! A two-replica mail synchronisation engine, with the small pieces of
//! mail-reader state that sit around it.
pub mod account;
pub mod cache;
pub mod config;
pub mod envelope;
pub mod flag;
pub mod folder;
pub mod imap_envelope;
pub mod reader;
pub mod store;
pub mod sync;
pub mod text;
