pub mod prompt_builder;
pub mod prompts;
pub mod runtime;
