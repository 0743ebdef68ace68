//! What clients of the server see.

pub mod mcp;
