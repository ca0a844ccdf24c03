//! Verified core of the DeepseekHarness launcher.
pub mod text;
pub mod version;
pub mod paths;
pub mod service;
pub mod node;
pub mod config;
pub mod json;
pub mod dsh;
pub mod update;
pub mod extensions;
pub mod mcp;
pub mod logs;
pub mod ui;
pub mod yaml;
pub mod npx;
pub mod dsh_search;
pub mod start;
