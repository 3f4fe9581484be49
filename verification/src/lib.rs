//! Rules of an MCP (Model Context Protocol) client: server configuration,
//! deadlines and progress reports of operations, and the set of live
//! connections.
//!
//! Nothing here waits, connects or logs. Each function takes what came back
//! from the outside world as a value and says what follows from it.

pub mod config;
pub mod manager;
pub mod operation;
pub mod text;
pub mod time;

pub use manager::McpClientManager;
