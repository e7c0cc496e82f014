//! The closed set of supported agents: one tagged variant per agent family,
//! built fresh per invocation and passed by reference, never global state.

use vstd::prelude::*;

use crate::amp::AmpGenerator;
use crate::assistant::AssistantGenerator;
use crate::codex::CodexGenerator;
use crate::constants::AGENTS_MD_FILENAME;
use crate::cursor::CursorGenerator;
use crate::firebender::FirebenderGenerator;
use crate::gemini::GeminiGenerator;
use crate::roo::RooGenerator;
use crate::single_file_based::SingleFileBasedGenerator;
use crate::text::string_eq_str;

verus! {

/// One supported agent.
pub enum AgentTool {
    Assistant(AssistantGenerator),
    SingleFile(SingleFileBasedGenerator),
    Cursor(CursorGenerator),
    Firebender(FirebenderGenerator),
    Amp(AmpGenerator),
    Codex(CodexGenerator),
    Gemini(GeminiGenerator),
    Roo(RooGenerator),
}

/// An agent's registered name.
pub open spec fn spec_tool_name(t: AgentTool) -> Seq<char> {
    match t {
        AgentTool::Assistant(g) => g.name@,
        AgentTool::SingleFile(g) => g.name@,
        AgentTool::Cursor(_) => "cursor"@,
        AgentTool::Firebender(_) => "firebender"@,
        AgentTool::Amp(_) => "amp"@,
        AgentTool::Codex(g) => g.name@,
        AgentTool::Gemini(_) => "gemini"@,
        AgentTool::Roo(g) => g.inner.name@,
    }
}

impl AgentTool {
    pub fn name(&self) -> (r: String)
        ensures
            r@ == spec_tool_name(*self),
    {
        match self {
            AgentTool::Assistant(g) => g.name.clone(),
            AgentTool::SingleFile(g) => g.name.clone(),
            AgentTool::Cursor(_) => "cursor".to_owned(),
            AgentTool::Firebender(_) => "firebender".to_owned(),
            AgentTool::Amp(_) => "amp".to_owned(),
            AgentTool::Codex(g) => g.name.clone(),
            AgentTool::Gemini(_) => "gemini".to_owned(),
            AgentTool::Roo(g) => g.inner.name.clone(),
        }
    }

    /// The patterns the agent's own outputs contribute to `.gitignore`.
    pub fn gitignore_patterns(&self) -> (r: Vec<String>)
        ensures
            crate::file_utils::string_views(r@) == spec_tool_gitignore_patterns(*self),
    {
        match self {
            AgentTool::Assistant(g) => g.gitignore_patterns(),
            AgentTool::SingleFile(g) => g.gitignore_patterns(),
            AgentTool::Cursor(g) => g.gitignore_patterns(),
            AgentTool::Firebender(g) => g.gitignore_patterns(),
            AgentTool::Amp(g) => g.gitignore_patterns(),
            AgentTool::Codex(g) => g.gitignore_patterns(),
            AgentTool::Gemini(g) => g.gitignore_patterns(),
            AgentTool::Roo(g) => g.gitignore_patterns(),
        }
    }

    /// The agent's MCP generator, when it has one.
    pub fn mcp_generator(&self) -> (r: Option<crate::mcp_generator::ExternalMcpGenerator>)
        ensures
            match r {
                Some(g) => seq![g.output_path@] == spec_tool_mcp_patterns(*self),
                None => spec_tool_mcp_patterns(*self).len() == 0,
            },
    {
        match self {
            AgentTool::Assistant(g) => g.mcp_generator(),
            AgentTool::Cursor(_) => {
                let mut p = ".cursor".to_owned();
                p.append("/");
                p.append(crate::constants::MCP_JSON);
                Some(crate::mcp_generator::ExternalMcpGenerator { output_path: p })
            },
            AgentTool::Roo(g) => g.mcp_generator(),
            _ => None,
        }
    }

    /// The agent's command generator, when it has one: symlink-shaped for
    /// the Assistant and Cursor agents, file-shaped for AMP.
    pub fn command_generator(&self) -> (r: Option<CommandTool>)
        ensures
            ((*self) matches AgentTool::Amp(_)) ==> (r matches Some(t) && t
                matches CommandTool::Files(_)),
            ((*self) matches AgentTool::Assistant(_)) ==> (r matches Some(t) && (t
                matches CommandTool::Links(g) && g.target_dir@
                == crate::constants::ASSISTANT_COMMANDS_DIR@ && crate::markdown_based::opt_view(
                g.subdir,
            ) == Some(crate::constants::GENERATED_COMMANDS_SUBDIR@))),
            ((*self) matches AgentTool::Cursor(_)) ==> (r matches Some(t) && (t
                matches CommandTool::Links(g) && g.target_dir@
                == crate::constants::CURSOR_COMMANDS_DIR@ && crate::markdown_based::opt_view(
                g.subdir,
            ) == Some(crate::constants::GENERATED_COMMANDS_SUBDIR@))),
            r is None ==> spec_tool_command_patterns(*self).len() == 0,
            r is Some ==> ((*self) matches AgentTool::Assistant(_) || (*self)
                matches AgentTool::Cursor(_) || (*self) matches AgentTool::Amp(_)),
    {
        match self {
            AgentTool::Assistant(g) => match g.command_generator() {
                Some(cg) => Some(CommandTool::Links(cg)),
                None => None,
            },
            AgentTool::Cursor(_) => Some(
                CommandTool::Links(
                    crate::external_commands_generator::ExternalCommandsGenerator::with_subdir(
                        crate::constants::CURSOR_COMMANDS_DIR,
                        crate::constants::GENERATED_COMMANDS_SUBDIR,
                    ),
                ),
            ),
            AgentTool::Amp(g) => match g.command_generator() {
                Some(cg) => Some(CommandTool::Files(cg)),
                None => None,
            },
            _ => None,
        }
    }

    /// The agent's skills generator, when it has one.
    pub fn skills_generator(&self) -> (r: Option<
        crate::external_skills_generator::ExternalSkillsGenerator,
    >)
        ensures
            match r {
                Some(g) => seq![
                    g.target_dir@ + "/"@ + crate::constants::GENERATED_FILE_PREFIX@ + (
                    if g.marks_directories {
                        "*/"@
                    } else {
                        "*"@
                    }),
                ] == spec_tool_skills_patterns(*self),
                None => spec_tool_skills_patterns(*self).len() == 0,
            },
    {
        match self {
            AgentTool::Assistant(g) => g.skills_generator(),
            AgentTool::Cursor(_) => Some(
                crate::external_skills_generator::ExternalSkillsGenerator::new(
                    crate::constants::CURSOR_SKILLS_DIR,
                ),
            ),
            AgentTool::Amp(g) => g.skills_generator(),
            AgentTool::Codex(g) => g.skills_generator(),
            AgentTool::Firebender(g) => g.skills_generator(),
            _ => None,
        }
    }
}


/// An agent's command generator: symlinks back to the authored documents,
/// or generated files with the frontmatter stripped.
pub enum CommandTool {
    Links(crate::external_commands_generator::ExternalCommandsGenerator),
    Files(crate::amp_command_generator::AmpCommandGenerator),
}

impl CommandTool {
    /// The pattern this command generator contributes to `.gitignore`.
    pub fn command_gitignore_patterns(&self) -> (r: Vec<String>)
        ensures
            r@.len() == 1,
            r@[0]@ == match *self {
                CommandTool::Links(g) => match crate::markdown_based::opt_view(g.subdir) {
                    Some(sub) => g.target_dir@ + "/"@ + sub + "/"@,
                    None => g.target_dir@ + "/"@ + crate::constants::GENERATED_FILE_PREFIX@
                        + "*.md"@,
                },
                CommandTool::Files(_) => crate::constants::AMP_COMMANDS_DIR@ + "/"@
                    + crate::constants::GENERATED_FILE_PREFIX@ + "*.md"@,
            },
    {
        match self {
            CommandTool::Links(g) => g.command_gitignore_patterns(),
            CommandTool::Files(g) => g.command_gitignore_patterns(),
        }
    }
}


/// The patterns one agent's own outputs contribute to `.gitignore`.
pub open spec fn spec_tool_gitignore_patterns(t: AgentTool) -> Seq<Seq<char>> {
    match t {
        AgentTool::Assistant(g) => if g.skills_mode {
            seq![
                g.output_filename@,
                crate::constants::ASSISTANT_SKILLS_DIR@ + "/"@
                    + crate::constants::GENERATED_FILE_PREFIX@ + "*/"@,
            ]
        } else {
            seq![g.output_filename@]
        },
        AgentTool::SingleFile(g) => seq![g.output_filename@],
        AgentTool::Cursor(_) => seq![".cursor/rules/"@],
        AgentTool::Firebender(_) => seq![crate::constants::FIREBENDER_JSON@],
        AgentTool::Amp(_) => seq![crate::constants::AGENTS_MD_FILENAME@],
        AgentTool::Codex(g) => seq![g.output_filename@],
        AgentTool::Gemini(_) => seq!["GEMINI.md"@, ".gemini/settings.json"@],
        AgentTool::Roo(g) => seq![g.inner.output_filename@],
    }
}

/// The pattern of one agent's MCP output, when it has one.
pub open spec fn spec_tool_mcp_patterns(t: AgentTool) -> Seq<Seq<char>> {
    match t {
        AgentTool::Assistant(_) => seq![crate::constants::ASSISTANT_MCP_JSON@],
        AgentTool::Cursor(_) => seq![".cursor"@ + "/"@ + crate::constants::MCP_JSON@],
        AgentTool::Roo(_) => seq![".roo"@ + "/"@ + crate::constants::MCP_JSON@],
        _ => Seq::empty(),
    }
}

/// The pattern of one agent's command outputs, when it has any.
pub open spec fn spec_tool_command_patterns(t: AgentTool) -> Seq<Seq<char>> {
    match t {
        AgentTool::Assistant(_) => seq![
            crate::constants::ASSISTANT_COMMANDS_DIR@ + "/"@
                + crate::constants::GENERATED_COMMANDS_SUBDIR@ + "/"@,
        ],
        AgentTool::Cursor(_) => seq![
            crate::constants::CURSOR_COMMANDS_DIR@ + "/"@
                + crate::constants::GENERATED_COMMANDS_SUBDIR@ + "/"@,
        ],
        AgentTool::Amp(_) => seq![
            crate::constants::AMP_COMMANDS_DIR@ + "/"@ + crate::constants::GENERATED_FILE_PREFIX@
                + "*.md"@,
        ],
        _ => Seq::empty(),
    }
}

/// The pattern of one agent's skill links, when it has any.
pub open spec fn spec_tool_skills_patterns(t: AgentTool) -> Seq<Seq<char>> {
    match t {
        AgentTool::Assistant(_) => seq![
            crate::constants::ASSISTANT_SKILLS_DIR@ + "/"@
                + crate::constants::GENERATED_FILE_PREFIX@ + "*/"@,
        ],
        AgentTool::Cursor(_) => seq![
            crate::constants::CURSOR_SKILLS_DIR@ + "/"@
                + crate::constants::GENERATED_FILE_PREFIX@ + "*/"@,
        ],
        AgentTool::Amp(_) => seq![
            crate::constants::AMP_SKILLS_DIR@ + "/"@ + crate::constants::GENERATED_FILE_PREFIX@
                + "*/"@,
        ],
        AgentTool::Codex(_) => seq![
            crate::constants::CODEX_SKILLS_DIR@ + "/"@ + crate::constants::GENERATED_FILE_PREFIX@
                + "*/"@,
        ],
        AgentTool::Firebender(_) => seq![
            crate::constants::FIREBENDER_SKILLS_DIR@ + "/"@
                + crate::constants::GENERATED_FILE_PREFIX@ + "*"@,
        ],
        _ => Seq::empty(),
    }
}

/// Everything one agent contributes to `.gitignore`, in contribution order.
pub open spec fn spec_tool_all_patterns(t: AgentTool) -> Seq<Seq<char>> {
    spec_tool_gitignore_patterns(t) + spec_tool_mcp_patterns(t) + spec_tool_command_patterns(t)
        + spec_tool_skills_patterns(t)
}

/// The registry: the supported agents in their registration order.
pub struct AgentToolRegistry {
    pub tools: Vec<AgentTool>,
}

impl AgentToolRegistry {
    /// Builds the registry of every supported agent, in a fixed order; the
    /// one runtime switch is whether the Assistant agent runs in skills
    /// mode. Each slot holds exactly its named agent.
    pub fn new(use_assistant_skills: bool) -> (r: AgentToolRegistry)
        ensures
            r.tools@.len() == 11,
            spec_tool_name(r.tools@[0]) == "assistant"@,
            r.tools@[0] matches AgentTool::Assistant(g) && g.skills_mode == use_assistant_skills
                && g.output_filename@ == "ASSISTANT.md"@,
            spec_tool_name(r.tools@[1]) == "cline"@,
            r.tools@[1] matches AgentTool::SingleFile(g) && g.output_filename@ == "AGENTS.md"@,
            spec_tool_name(r.tools@[2]) == "cursor"@,
            r.tools@[2] matches AgentTool::Cursor(_),
            spec_tool_name(r.tools@[3]) == "firebender"@,
            r.tools@[3] matches AgentTool::Firebender(_),
            spec_tool_name(r.tools@[4]) == "goose"@,
            r.tools@[4] matches AgentTool::SingleFile(g) && g.output_filename@ == "AGENTS.md"@,
            spec_tool_name(r.tools@[5]) == "amp"@,
            r.tools@[5] matches AgentTool::Amp(_),
            spec_tool_name(r.tools@[6]) == "codex"@,
            r.tools@[6] matches AgentTool::Codex(g) && g.output_filename@ == "AGENTS.md"@,
            spec_tool_name(r.tools@[7]) == "copilot"@,
            r.tools@[7] matches AgentTool::SingleFile(g) && g.output_filename@ == "AGENTS.md"@,
            spec_tool_name(r.tools@[8]) == "gemini"@,
            r.tools@[8] matches AgentTool::Gemini(_),
            spec_tool_name(r.tools@[9]) == "kilocode"@,
            r.tools@[9] matches AgentTool::SingleFile(g) && g.output_filename@ == "AGENTS.md"@,
            spec_tool_name(r.tools@[10]) == "roo"@,
            r.tools@[10] matches AgentTool::Roo(g) && g.inner.output_filename@ == "AGENTS.md"@,
    {
        let mut tools: Vec<AgentTool> = Vec::new();
        tools.push(
            AgentTool::Assistant(AssistantGenerator::new("assistant", "ASSISTANT.md", use_assistant_skills)),
        );
        tools.push(AgentTool::SingleFile(SingleFileBasedGenerator::new("cline", AGENTS_MD_FILENAME)));
        tools.push(AgentTool::Cursor(CursorGenerator));
        tools.push(AgentTool::Firebender(FirebenderGenerator));
        tools.push(AgentTool::SingleFile(SingleFileBasedGenerator::new("goose", AGENTS_MD_FILENAME)));
        tools.push(AgentTool::Amp(AmpGenerator));
        tools.push(AgentTool::Codex(CodexGenerator::new()));
        tools.push(
            AgentTool::SingleFile(SingleFileBasedGenerator::new("copilot", AGENTS_MD_FILENAME)),
        );
        tools.push(AgentTool::Gemini(GeminiGenerator));
        tools.push(
            AgentTool::SingleFile(SingleFileBasedGenerator::new("kilocode", AGENTS_MD_FILENAME)),
        );
        tools.push(AgentTool::Roo(RooGenerator::new()));
        AgentToolRegistry { tools }
    }

    /// The registered agent of the given name, if any.
    pub fn get_tool<'a>(&'a self, name: &str) -> (r: Option<&'a AgentTool>)
        ensures
            match r {
                Some(t) => exists|k: int|
                    0 <= k < self.tools@.len() && spec_tool_name(#[trigger] self.tools@[k])
                        == name@ && *t == self.tools@[k],
                None => forall|k: int|
                    0 <= k < self.tools@.len() ==> spec_tool_name(#[trigger] self.tools@[k])
                        != name@,
            },
    {
        let mut i: usize = 0;
        while i < self.tools.len()
            invariant
                i <= self.tools@.len(),
                forall|k: int|
                    0 <= k < i ==> spec_tool_name(#[trigger] self.tools@[k]) != name@,
            decreases self.tools@.len() - i,
        {
            let n = self.tools[i].name();
            if string_eq_str(&n, name) {
                return Some(&self.tools[i]);
            }
            i += 1;
        }
        None
    }

    /// Every registered agent's name, in registration order.
    pub fn get_all_tool_names(&self) -> (r: Vec<String>)
        ensures
            r@.len() == self.tools@.len(),
            forall|k: int|
                0 <= k < r@.len() ==> (#[trigger] r@[k])@ == spec_tool_name(self.tools@[k]),
    {
        let mut out: Vec<String> = Vec::new();
        let mut i: usize = 0;
        while i < self.tools.len()
            invariant
                i <= self.tools@.len(),
                out@.len() == i,
                forall|k: int|
                    0 <= k < i ==> (#[trigger] out@[k])@ == spec_tool_name(self.tools@[k]),
            decreases self.tools@.len() - i,
        {
            let n = self.tools[i].name();
            out.push(n);
            i += 1;
        }
        out
    }
}

} // verus!
