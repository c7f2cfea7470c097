pub mod config;
pub mod error;
pub mod handler;
pub mod json;
pub mod text;
pub mod tree;
