pub mod builder;
pub mod effort;
pub mod headless;
pub mod provider;
pub mod skill_tool;
pub mod tools;
