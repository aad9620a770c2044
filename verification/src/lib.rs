//! Profile synchronisation through a Proxmox LXC container.

pub mod cli;
pub mod commands;
pub mod config;
pub mod daemon;
pub mod error;
pub mod gui;
pub mod ipc;
pub mod laws;
pub mod number;
pub mod path;
pub mod proxmox;
pub mod report;
pub mod sync;
pub mod text;
pub mod wizard;
