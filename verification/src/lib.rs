//! Neewer-Bridge: an ArtNet (DMX-over-UDP) to Neewer Bluetooth light bridge.
//!
//! This crate holds the bridge's decisions and encodings: every function is
//! verified against the contract written above its body. Sockets, Bluetooth,
//! files and the command line live in the application around it.

pub mod artnet;
pub mod ble;
pub mod bridge;
pub mod clock;
pub mod commands;
pub mod config;
pub mod driver;
pub mod light;
pub mod logging;
pub mod merge;
pub mod models;
pub mod parse;
pub mod profile;
pub mod protocol;
pub mod recovery;
pub mod scan;
pub mod startup;
pub mod table;
pub mod text;
