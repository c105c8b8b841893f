//! A command-dispatch core for chat interaction platforms: typed option
//! values, command schemas, a compiler from handler definitions to schemas,
//! and a registry that resolves and binds incoming invocations.

pub mod value;
pub mod schema;
pub mod compiler;
pub mod handler;
pub mod dispatch;
pub mod laws;
pub mod services;
