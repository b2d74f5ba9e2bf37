//! Pluton: the verified core of a small federated chat system.

pub mod text;
pub mod base64;
pub mod crypto;
pub mod general;
pub mod definitions;
pub mod account;
pub mod handshake;
pub mod peers;
pub mod client;
pub mod editor;
pub mod tui;
pub mod server;
pub mod store;
pub mod home;
pub mod files;
pub mod logging;
pub mod config;
pub mod view;
pub mod session;
