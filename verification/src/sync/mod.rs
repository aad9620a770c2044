//! Synchronisation between this machine and the container.

pub mod contents;
pub mod ignore;
pub mod pattern;
pub mod profile;
pub mod run;
pub mod setup;
pub mod watcher;
