pub mod patterns;
pub mod text;
pub mod version;
pub mod document;
pub mod project;
pub mod utils;
pub mod config;
pub mod github;
pub mod commands;
