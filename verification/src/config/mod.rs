pub mod connection;
pub mod interpolate;
pub mod layering;
pub mod mcp_servers;
pub mod pass_backend;
pub mod paths;
pub mod secrets;
