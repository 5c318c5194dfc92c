pub mod generate;
pub mod prompt;
pub mod survey;
