pub mod types;
pub mod spec;
