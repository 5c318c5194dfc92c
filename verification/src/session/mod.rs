pub mod paths;
pub mod types;
pub mod store;
