//! Names and fixed strings of the generated-artifact conventions.

use vstd::prelude::*;

verus! {

pub const MD_EXTENSION: &'static str = "md";

pub const AI_RULE_SOURCE_DIR: &'static str = "ai-rules";

pub const GENERATED_RULE_BODY_DIR: &'static str = ".generated-ai-rules";

pub const OPTIONAL_RULES_FILENAME: &'static str = "ai-rules-generated-optional.md";

pub const AGENTS_MD_FILENAME: &'static str = "AGENTS.md";

pub const AI_RULE_CONFIG_FILENAME: &'static str = "ai-rules-config.yaml";

/// The reserved prefix that marks a file as generated and deletable.
pub const GENERATED_FILE_PREFIX: &'static str = "ai-rules-generated-";

pub const ASSISTANT_SKILLS_DIR: &'static str = ".assistant/skills";

pub const CODEX_SKILLS_DIR: &'static str = ".codex/skills";

pub const SKILL_FILENAME: &'static str = "SKILL.md";

pub const SKILLS_DIR: &'static str = "skills";

pub const FIREBENDER_JSON: &'static str = "firebender.json";

pub const FIREBENDER_OVERLAY_JSON: &'static str = "firebender-overlay.json";

pub const FIREBENDER_USE_CURSOR_RULES_FIELD: &'static str = "useCursorRules";

pub const MCP_JSON: &'static str = "mcp.json";

pub const ASSISTANT_MCP_JSON: &'static str = ".mcp.json";

pub const MCP_SERVERS_FIELD: &'static str = "mcpServers";

pub const COMMANDS_DIR: &'static str = "commands";

pub const ASSISTANT_COMMANDS_DIR: &'static str = ".assistant/commands";

pub const CURSOR_COMMANDS_DIR: &'static str = ".cursor/commands";

pub const AMP_COMMANDS_DIR: &'static str = ".agents/commands";

pub const GENERATED_COMMANDS_SUBDIR: &'static str = "ai-rules";

pub const CURSOR_SKILLS_DIR: &'static str = ".cursor/skills";

pub const FIREBENDER_SKILLS_DIR: &'static str = ".firebender/skills";

pub const AMP_SKILLS_DIR: &'static str = ".agents/skills";

/// The shared header of every optional-rules index document.
pub const OPTIONAL_RULES_HEADER: &'static str = "# Optional Rules (use when relevant):\n\n";

} // verus!
