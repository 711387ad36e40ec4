//! Oxy: a remote access tool designed to resist man-in-the-middle attacks.
//! This crate holds its configuration, key and protocol logic.

pub mod value;
pub mod base32;
pub mod config;
pub mod util;
pub mod conf;
pub mod crypto;
pub mod keys;
pub mod sealed;
pub mod peers;
pub mod message;
pub mod paths;
pub mod handler;
pub mod metacommand;
pub mod transfer;
pub mod ui;
pub mod entry;
pub mod session;
pub mod admission;
pub mod socks;
pub mod cli;
pub mod tunnel;
pub mod noise;
