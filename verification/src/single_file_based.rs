//! Agents whose whole configuration is one aggregated reference file.

use vstd::prelude::*;

use crate::body_generator::{
    entry_views, generate_all_rule_references_for_agent, spec_all_references,
    spec_in_agents_md_group, AGENTS_MD_GROUP_NAME,
};
use crate::paths::{join_path, joined};
use crate::source_file::{rule_views, RuleView, SourceFile};

verus! {

/// The one expected artifact of a single-file agent: nothing for an empty
/// rule set, else its reference document at the conventional location.
pub open spec fn spec_agent_file_contents(
    rules: Seq<RuleView>,
    dir: Seq<char>,
    output_filename: Seq<char>,
    optional_agent: Seq<char>,
) -> Seq<(Seq<char>, Seq<char>)> {
    if rules.len() == 0 {
        Seq::empty()
    } else {
        seq![(joined(dir, output_filename), spec_all_references(rules, optional_agent))]
    }
}

/// Builds a single-file agent's expected artifact set: empty for an empty
/// rule set, else exactly its reference document.
pub fn generate_agent_file_contents(
    source_files: &Vec<SourceFile>,
    current_dir: &str,
    output_filename: &str,
    optional_agent: &str,
) -> (r: Vec<(String, String)>)
    ensures
        entry_views(r@) == spec_agent_file_contents(
            rule_views(source_files@),
            current_dir@,
            output_filename@,
            optional_agent@,
        ),
{
    let mut out: Vec<(String, String)> = Vec::new();
    if source_files.len() > 0 {
        let content = generate_all_rule_references_for_agent(source_files, optional_agent);
        let path = join_path(current_dir, output_filename);
        out.push((path, content));
    }
    proof {
        assert(entry_views(out@) =~= spec_agent_file_contents(
            rule_views(source_files@),
            current_dir@,
            output_filename@,
            optional_agent@,
        ));
    }
    out
}

/// The in-sync condition of a single-file agent: with no rules its output
/// file must be absent; with rules it must be present with exactly the
/// expected reference document.
pub open spec fn spec_single_file_in_sync(
    rules: Seq<RuleView>,
    optional_agent: Seq<char>,
    actual: Option<Seq<char>>,
) -> bool {
    if rules.len() == 0 {
        actual is None
    } else {
        actual matches Some(c) && c == spec_all_references(rules, optional_agent)
    }
}

/// Whether a single-file agent is in sync: with no rules its output file
/// must be absent; with rules it must be present with exactly the expected
/// reference document.
pub fn check_in_sync(
    source_files: &Vec<SourceFile>,
    output_filename: &str,
    optional_agent: &str,
    actual: &Option<String>,
) -> (r: bool)
    ensures
        r == ({
            let rules = rule_views(source_files@);
            if rules.len() == 0 {
                *actual is None
            } else {
                (*actual) matches Some(c) && c@ == spec_all_references(rules, optional_agent@)
            }
        }),
{
    if source_files.len() == 0 {
        return actual.is_none();
    }
    match actual {
        None => false,
        Some(c) => {
            let expected = generate_all_rule_references_for_agent(source_files, optional_agent);
            crate::text::str_eq(c.as_str(), expected.as_str())
        },
    }
}

/// One agent that keeps its whole configuration in a single file.
pub struct SingleFileBasedGenerator {
    pub name: String,
    pub output_filename: String,
    /// The name under which this agent's optional-rules index is filed:
    /// the pooled group name for an `AGENTS.md` agent, else its own name.
    pub optional_agent: String,
}

impl SingleFileBasedGenerator {
    pub fn new(name: &str, output_filename: &str) -> (r: SingleFileBasedGenerator)
        ensures
            r.name@ == name@,
            r.output_filename@ == output_filename@,
            r.optional_agent@ == if spec_in_agents_md_group(name@) {
                AGENTS_MD_GROUP_NAME@
            } else {
                name@
            },
    {
        let optional_agent = if crate::body_generator::in_agents_md_group(name) {
            AGENTS_MD_GROUP_NAME.to_owned()
        } else {
            name.to_owned()
        };
        SingleFileBasedGenerator {
            name: name.to_owned(),
            output_filename: output_filename.to_owned(),
            optional_agent,
        }
    }

    /// This agent's expected artifacts for the given rules.
    pub fn generate_agent_contents(
        &self,
        source_files: &Vec<SourceFile>,
        current_dir: &str,
    ) -> (r: Vec<(String, String)>)
        ensures
            entry_views(r@) == spec_agent_file_contents(
                rule_views(source_files@),
                current_dir@,
                self.output_filename@,
                self.optional_agent@,
            ),
    {
        generate_agent_file_contents(
            source_files,
            current_dir,
            self.output_filename.as_str(),
            self.optional_agent.as_str(),
        )
    }

    /// Whether this agent's output file on disk matches the rules.
    pub fn check_agent_contents(
        &self,
        source_files: &Vec<SourceFile>,
        actual: &Option<String>,
    ) -> (r: bool)
        ensures
            r == ({
                let rules = rule_views(source_files@);
                if rules.len() == 0 {
                    *actual is None
                } else {
                    (*actual) matches Some(c) && c@ == spec_all_references(
                        rules,
                        self.optional_agent@,
                    )
                }
            }),
    {
        check_in_sync(
            source_files,
            self.output_filename.as_str(),
            self.optional_agent.as_str(),
            actual,
        )
    }

    /// The path of this agent's output file, which the cleaner removes and
    /// the symlink mode replaces with a link.
    pub fn output_path(&self, current_dir: &str) -> (r: String)
        ensures
            r@ == joined(current_dir@, self.output_filename@),
    {
        join_path(current_dir, self.output_filename.as_str())
    }

    /// The patterns this agent contributes to `.gitignore`.
    pub fn gitignore_patterns(&self) -> (r: Vec<String>)
        ensures
            r@.len() == 1,
            r@[0]@ == self.output_filename@,
    {
        let mut v: Vec<String> = Vec::new();
        v.push(self.output_filename.clone());
        v
    }
}

} // verus!
