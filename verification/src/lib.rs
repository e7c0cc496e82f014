//! Keeps rule documents (Markdown with YAML frontmatter) as the single source
//! of truth for AI coding-agent context and projects them into the artifacts
//! each agent expects: reference files, generated body files, skill bundles,
//! command files, and MCP server configurations.
//!
//! Everything that computes artifact content, decides applicability, diffs
//! expected against actual state, or picks files to delete lives here and is
//! verified. Reading and writing the filesystem is left to the binary around
//! this library, which hands plain values in and takes plain values out.

pub mod amp;
pub mod amp_command_generator;
pub mod assistant;
pub mod assistant_skills;
pub mod body_generator;
pub mod cleaner;
pub mod cli_args;
pub mod codex;
pub mod command_reader;
pub mod constants;
pub mod cursor;
pub mod cursor_command_generator;
pub mod external_commands_generator;
pub mod external_skills_generator;
pub mod file_utils;
pub mod firebender;
pub mod frontmatter;
pub mod gemini;
pub mod generation_result;
pub mod gitignore_updater;
pub mod goose_utils;
pub mod init_params;
pub mod jetbrains_ai_assistant;
pub mod json;
pub mod laws;
pub mod legacy_cleaner;
pub mod markdown_based;
pub mod mcp_generator;
pub mod mcp_reader;
pub mod optional_rules;
pub mod paths;
pub mod registry;
pub mod roo;
pub mod single_file_based;
pub mod skills_reader;
pub mod source_file;
pub mod source_reader;
pub mod status;
pub mod text;
pub mod yaml;
