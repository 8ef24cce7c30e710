pub mod config;
pub mod error;
pub mod front_matter;
pub mod json;
pub mod load;
pub mod log;
pub mod names;
pub mod text;
pub mod time;
pub mod validate;
