//! The Proxmox API.

pub mod client;
pub mod json;
pub mod lxc;
