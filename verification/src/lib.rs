use vstd::prelude::*;

pub mod agent;
pub mod artifacts;
pub mod cli;
pub mod config;
pub mod context;
pub mod fsutil;
pub mod init;
pub mod marketplace;
pub mod mcp;
pub mod memory;
pub mod permissions;
pub mod session;
pub mod skills;
pub mod sorting;
pub mod text;
pub mod url;

verus! {
} // verus!
