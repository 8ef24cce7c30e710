pub mod base;
pub mod bash;
pub mod echo;
pub mod fs;
pub mod web;
