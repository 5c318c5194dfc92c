pub mod gate;
pub mod settings;
pub mod types;
pub mod stdio;
