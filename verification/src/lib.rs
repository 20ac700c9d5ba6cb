//! Session lifecycle manager for a desktop shell that serves each opened
//! file from a dedicated local backend process.
//!
//! For every file the user opens, the host application allocates a free
//! loopback port, spawns a backend server bound to that port, and tracks the
//! resulting session in a table keyed by a freshly generated identifier.
//! This crate holds the verified core of that design: the session table, the
//! identifier and URL rendering, and the lifecycle operations (open, close,
//! list, shutdown-all). The host supplies the blocking primitives — port
//! binding, process spawn and kill — and hands their results in as plain
//! values.

pub mod hostenv;
pub mod manager;
pub mod render;
pub mod session;
