//! A chat broker between WebSocket clients and child processes of a command
//! line program that speak JSON, one frame on each line.
//!
//! `cli` holds what concerns one child: the command that starts it, and what
//! its reader, its writer and its control handler do. `server` holds the chat
//! manager, which routes messages between connections, chats and sessions,
//! and what surrounds it. `types` holds the messages themselves.

pub mod api;
pub mod cli;
pub mod embedded;
pub mod json;
pub mod server;
pub mod table;
pub mod text;
pub mod types;
