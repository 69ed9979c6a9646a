//! The channels that turns come by.

pub mod cli;
pub mod http;
