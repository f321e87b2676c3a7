//! Verified core of the mcagent agent workspace: frontmatter and metadata
//! parsing for WASI tools, the tool cache, sandbox planning, copy-on-write
//! layer bookkeeping, GitButler command handling and the server's agent table.

pub mod text;
pub mod exit_codes;
pub mod types;
pub mod toml_tree;
pub mod frontmatter;
pub mod paths;
pub mod cache;
pub mod metadata;
pub mod executor;
pub mod order;
pub mod runtime;
pub mod compiler;
pub mod cowfs;
pub mod gitbutler;
pub mod server;
pub mod agent_tools;
pub mod report;
