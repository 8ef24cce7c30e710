pub mod base;
pub mod registry;
pub mod session;
pub mod spec;
