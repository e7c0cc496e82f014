//! The copy-through MCP generator: agents whose MCP configuration is the
//! validated source document written verbatim to their conventional path.

use vstd::prelude::*;

use crate::paths::{join_path, joined};
use crate::text::str_eq;

verus! {

/// Copies the validated MCP source document to one agent's output path.
pub struct ExternalMcpGenerator {
    pub output_path: String,
}

impl ExternalMcpGenerator {
    pub fn new(output_path: &str) -> (r: ExternalMcpGenerator)
        ensures
            r.output_path@ == output_path@,
    {
        ExternalMcpGenerator { output_path: output_path.to_owned() }
    }

    /// The expected artifact: the source content (already newline-closed) at
    /// this agent's path, or nothing when there is no source document.
    pub fn generate_mcp(&self, current_dir: &str, mcp_content: &Option<String>) -> (r: Vec<
        (String, String),
    >)
        ensures
            crate::body_generator::entry_views(r@) == match *mcp_content {
                Option::Some(c) => seq![(joined(current_dir@, self.output_path@), c@)],
                Option::None => Seq::<(Seq<char>, Seq<char>)>::empty(),
            },
    {
        let mut out: Vec<(String, String)> = Vec::new();
        match mcp_content {
            Some(c) => {
                let path = join_path(current_dir, self.output_path.as_str());
                out.push((path, c.clone()));
            },
            None => {},
        }
        proof {
            assert(crate::body_generator::entry_views(out@) =~= match *mcp_content {
                Option::Some(c) => seq![(joined(current_dir@, self.output_path@), c@)],
                Option::None => Seq::<(Seq<char>, Seq<char>)>::empty(),
            });
        }
        out
    }

    /// In sync exactly when the file on disk matches the source content, or
    /// both are absent.
    pub fn check_mcp(&self, mcp_content: &Option<String>, actual: &Option<String>) -> (r: bool)
        ensures
            r == match *mcp_content {
                Option::Some(c) => (*actual) matches Some(a) && a@ == c@,
                Option::None => *actual is None,
            },
    {
        match mcp_content {
            Some(c) => match actual {
                Some(a) => str_eq(a.as_str(), c.as_str()),
                None => false,
            },
            None => actual.is_none(),
        }
    }

    /// The pattern this generator contributes to `.gitignore`.
    pub fn mcp_gitignore_patterns(&self) -> (r: Vec<String>)
        ensures
            r@.len() == 1,
            r@[0]@ == self.output_path@,
    {
        let mut v: Vec<String> = Vec::new();
        v.push(self.output_path.clone());
        v
    }
}

} // verus!
