//! A content-addressed store of git working trees served as volumes.
pub mod address;
pub mod assoc;
pub mod cmd;
pub mod config;
pub mod protocol;
pub mod record;
pub mod store;
pub mod volume;
