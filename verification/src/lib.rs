pub mod checks;
pub mod cli;
pub mod command_builder;
pub mod config;
pub mod json;
pub mod mcp;
pub mod model;
pub mod parameters;
pub mod registry;
pub mod service;
pub mod text;
