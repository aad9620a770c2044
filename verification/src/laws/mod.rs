//! What the operations are for: laws that hold of them for all inputs.

pub mod asking;
pub mod configurations;
pub mod containers;
pub mod ignoring;
pub mod numbers;
pub mod paths;
pub mod provisioning;
pub mod serving;
pub mod showing;
pub mod texts;
pub mod transfers;
pub mod watching;
