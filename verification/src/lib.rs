//! Verified core of a local hardware agent: configuration, scale protocol
//! parsing, serial line framing and the decisions of the scale supervisor.

pub mod text;
pub mod config;
pub mod config_store;
pub mod paths;
pub mod icon;
pub mod tray;
pub mod cors;
pub mod scale;
