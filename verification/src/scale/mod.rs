//! RS-232 scale support: protocol parsers and the reader's decisions.

pub mod protocols;
pub mod manager;
pub mod reader;
