//! Walrus: verified core logic for composable agent workflows.

pub mod anthropic;
pub mod ask_user;
pub mod bytes;
pub mod chunk;
pub mod clock;
pub mod config;
pub mod cron;
pub mod filter;
pub mod frontmatter;
pub mod fs_memory;
pub mod graph;
pub mod hub;
pub mod local;
pub mod mcp;
pub mod memory;
pub mod protocol;
pub mod skills;
pub mod split;
pub mod sse;
pub mod stream_cut;
pub mod task_tools;
pub mod tasks;
pub mod text;
pub mod toml_tree;
