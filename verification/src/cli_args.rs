//! The command-line surface and how it resolves against the configuration
//! file: command-line options win, then the configuration file, then the
//! defaults.

use vstd::prelude::*;

use crate::source_file::{clone_string_vec, opt_views};

verus! {

/// The per-project configuration file's recognized keys.
pub struct Config {
    pub agents: Option<Vec<String>>,
    pub command_agents: Option<Vec<String>>,
    pub gitignore: Option<bool>,
    pub no_gitignore: Option<bool>,
    pub nested_depth: Option<usize>,
    pub use_assistant_skills: Option<bool>,
}

pub struct InitArgs {
    pub params: Vec<String>,
    pub force: bool,
}

pub struct GenerateArgs {
    pub agents: Option<Vec<String>>,
    pub gitignore: bool,
    pub no_gitignore: bool,
    pub nested_depth: Option<usize>,
}

pub struct NestedDepthArgs {
    pub nested_depth: Option<usize>,
}

pub struct StatusArgs {
    pub agents: Option<Vec<String>>,
    pub nested_depth_args: NestedDepthArgs,
}

pub struct CleanArgs {
    pub nested_depth_args: NestedDepthArgs,
}

/// One invocation's command.
pub enum Commands {
    Init(InitArgs),
    Generate(GenerateArgs),
    Status(StatusArgs),
    Clean(CleanArgs),
    ListAgents,
}

/// The whole parsed command line.
pub struct Cli {
    pub summary: bool,
    pub command: Option<Commands>,
}

pub struct ResolvedGenerateArgs {
    pub agents: Option<Vec<String>>,
    pub command_agents: Option<Vec<String>>,
    pub gitignore: bool,
    pub nested_depth: usize,
}

pub struct ResolvedStatusArgs {
    pub agents: Option<Vec<String>>,
    pub command_agents: Option<Vec<String>>,
    pub nested_depth: usize,
}

/// The agent selection: the command line's, else the configuration file's.
pub open spec fn spec_resolved_agents(
    cli: Option<Vec<String>>,
    config: Option<Config>,
) -> Option<Seq<Seq<char>>> {
    match cli {
        Some(a) => opt_views(Some(a)),
        None => match config {
            Some(c) => opt_views(c.agents),
            None => None,
        },
    }
}

pub fn resolve_agents(agents: Option<Vec<String>>, config: &Option<Config>) -> (r: Option<
    Vec<String>,
>)
    ensures
        opt_views(r) == spec_resolved_agents(
            agents,
            match *config {
                Option::Some(c) => Some(c),
                Option::None => None,
            },
        ),
{
    match agents {
        Some(a) => Some(a),
        None => match config {
            Some(c) => match &c.agents {
                Some(l) => Some(clone_string_vec(l)),
                None => None,
            },
            None => None,
        },
    }
}

/// The nested depth: the command line's, else the configuration file's.
pub open spec fn spec_resolved_depth(cli: Option<usize>, config: Option<Config>) -> Option<usize> {
    match cli {
        Some(d) => Some(d),
        None => match config {
            Some(c) => c.nested_depth,
            None => None,
        },
    }
}

pub fn resolve_nested_depth(nested_depth: Option<usize>, config: &Option<Config>) -> (r: Option<
    usize,
>)
    ensures
        r == spec_resolved_depth(
            nested_depth,
            match *config {
                Option::Some(c) => Some(c),
                Option::None => None,
            },
        ),
{
    match nested_depth {
        Some(d) => Some(d),
        None => match config {
            Some(c) => c.nested_depth,
            None => None,
        },
    }
}

/// How the gitignore switch resolves: the new flag wins, then the retired
/// inverse flag, then the configuration file (new key before retired key),
/// then off.
pub open spec fn spec_resolved_gitignore(
    gitignore: bool,
    no_gitignore: bool,
    config: Option<Config>,
) -> bool {
    if gitignore {
        true
    } else if no_gitignore {
        false
    } else {
        match config {
            Some(c) => match c.gitignore {
                Some(g) => g,
                None => match c.no_gitignore {
                    Some(n) => !n,
                    None => false,
                },
            },
            None => false,
        }
    }
}

impl GenerateArgs {
    /// Resolves the generate options against the configuration file.
    pub fn with_config(self, config: &Option<Config>) -> (r: ResolvedGenerateArgs)
        ensures
            opt_views(r.agents) == spec_resolved_agents(
                self.agents,
                match *config {
                    Option::Some(c) => Some(c),
                    Option::None => None,
                },
            ),
            opt_views(r.command_agents) == match *config {
                Option::Some(c) => opt_views(c.command_agents),
                Option::None => None,
            },
            r.gitignore == spec_resolved_gitignore(
                self.gitignore,
                self.no_gitignore,
                match *config {
                    Option::Some(c) => Some(c),
                    Option::None => None,
                },
            ),
            Some(r.nested_depth) == spec_resolved_depth(
                self.nested_depth,
                match *config {
                    Option::Some(c) => Some(c),
                    Option::None => None,
                },
            ) || (r.nested_depth == 0 && spec_resolved_depth(
                self.nested_depth,
                match *config {
                    Option::Some(c) => Some(c),
                    Option::None => None,
                },
            ) is None),
    {
        let agents = resolve_agents(self.agents, config);
        let nested_depth = match resolve_nested_depth(self.nested_depth, config) {
            Some(d) => d,
            None => 0,
        };
        let gitignore = if self.gitignore {
            true
        } else if self.no_gitignore {
            false
        } else {
            match config {
                Some(c) => match c.gitignore {
                    Some(g) => g,
                    None => match c.no_gitignore {
                        Some(n) => !n,
                        None => false,
                    },
                },
                None => false,
            }
        };
        let command_agents = match config {
            Some(c) => match &c.command_agents {
                Some(l) => Some(clone_string_vec(l)),
                None => None,
            },
            None => None,
        };
        ResolvedGenerateArgs { agents, command_agents, gitignore, nested_depth }
    }
}

impl NestedDepthArgs {
    /// Resolves the depth alone; the default is the current directory only.
    pub fn with_config(self, config: &Option<Config>) -> (r: usize)
        ensures
            Some(r) == spec_resolved_depth(
                self.nested_depth,
                match *config {
                    Option::Some(c) => Some(c),
                    Option::None => None,
                },
            ) || (r == 0 && spec_resolved_depth(
                self.nested_depth,
                match *config {
                    Option::Some(c) => Some(c),
                    Option::None => None,
                },
            ) is None),
    {
        match resolve_nested_depth(self.nested_depth, config) {
            Some(d) => d,
            None => 0,
        }
    }
}

impl StatusArgs {
    /// Resolves the status options against the configuration file.
    pub fn with_config(self, config: &Option<Config>) -> (r: ResolvedStatusArgs)
        ensures
            opt_views(r.agents) == spec_resolved_agents(
                self.agents,
                match *config {
                    Option::Some(c) => Some(c),
                    Option::None => None,
                },
            ),
            opt_views(r.command_agents) == match *config {
                Option::Some(c) => opt_views(c.command_agents),
                Option::None => None,
            },
            Some(r.nested_depth) == spec_resolved_depth(
                self.nested_depth_args.nested_depth,
                match *config {
                    Option::Some(c) => Some(c),
                    Option::None => None,
                },
            ) || (r.nested_depth == 0 && spec_resolved_depth(
                self.nested_depth_args.nested_depth,
                match *config {
                    Option::Some(c) => Some(c),
                    Option::None => None,
                },
            ) is None),
    {
        let agents = resolve_agents(self.agents, config);
        let nested_depth = self.nested_depth_args.with_config(config);
        let command_agents = match config {
            Some(c) => match &c.command_agents {
                Some(l) => Some(clone_string_vec(l)),
                None => None,
            },
            None => None,
        };
        ResolvedStatusArgs { agents, command_agents, nested_depth }
    }
}

} // verus!
