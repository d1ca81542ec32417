//! Browser automation support library: command-line and launch logic,
//! CDP event bookkeeping, accessibility snapshots and the text formatters
//! behind the DevTools tools.

pub mod text;
pub mod keyboard;
pub mod json;
pub mod assoc;
pub mod collector;
pub mod accessibility;
pub mod snapshot;
pub mod pagination;
pub mod json_write;
pub mod console;
pub mod issue;
pub mod tools;
pub mod extensions;
pub mod cdp;
pub mod launch;
pub mod config;
pub mod params;
pub mod events;
pub mod context;
pub mod network;
pub mod commands;
pub mod handlers;
pub mod trace;
