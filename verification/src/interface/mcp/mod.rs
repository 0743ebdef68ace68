//! The tools of the server: which of them a mode exposes, and what each does.

pub mod call;
pub mod mode;
pub mod server;
pub mod tools;

pub use self::call::{ToolCall, ToolOutput};
pub use self::mode::ServerMode;
pub use self::server::GitWorkflowServer;
