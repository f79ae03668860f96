//! A client for the Model Context Protocol together with the pure rules of the
//! command-line assistant built around it.

pub mod ai_utils;
pub mod cli;
pub mod context;
pub mod git_utils;
pub mod mcp;
pub mod numbers;
pub mod security;
pub mod text;
