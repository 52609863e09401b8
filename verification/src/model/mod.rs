//! The records that syncing reads: ids, users and their connections, and
//! the sync actions of a server.
pub mod connection;
pub mod hakuid;
pub mod sync_action;
pub mod user;
pub mod discord;
