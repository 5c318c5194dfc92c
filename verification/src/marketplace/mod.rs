pub mod catalog;
pub mod git_url_forms;
pub mod install;
pub mod registry;
pub mod source;
