pub mod server;
pub mod tool;
