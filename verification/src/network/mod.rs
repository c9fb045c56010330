//! Sharing files with other machines on the local network.

pub mod permissions;
pub mod client;
pub mod discovery;
pub mod share;
pub mod server;
