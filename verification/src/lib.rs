//! A remote-access agent for a guest that ships none: a telnet server that runs
//! command lines and moves tar streams.
//!
//! Everything the agent decides is here. What it asks of the kernel is handed
//! out as a value, and what the kernel answered is handed back in, so no
//! function of this crate performs a system call. No function allocates either:
//! the agent's heap is a small arena that is emptied between commands.

pub mod arena;
pub mod commands;
pub mod dispatch;
pub mod kernel;
pub mod launch;
pub mod line;
pub mod report;
pub mod search;
pub mod server;
pub mod session;
pub mod spawn;
pub mod telnet;
pub mod text;
