//! The Roo agent: the pooled `AGENTS.md` reference file with MCP support
//! under `.roo`.

use vstd::prelude::*;

use crate::body_generator::spec_all_references;
use crate::constants::{AGENTS_MD_FILENAME, MCP_JSON};
use crate::mcp_generator::ExternalMcpGenerator;
use crate::single_file_based::{spec_agent_file_contents, SingleFileBasedGenerator};
use crate::source_file::{rule_views, SourceFile};

verus! {

pub struct RooGenerator {
    pub inner: SingleFileBasedGenerator,
}

impl RooGenerator {
    pub fn new() -> (r: RooGenerator)
        ensures
            r.inner.name@ == "roo"@,
            r.inner.output_filename@ == AGENTS_MD_FILENAME@,
            r.inner.optional_agent@ == crate::body_generator::AGENTS_MD_GROUP_NAME@,
    {
        let inner = SingleFileBasedGenerator::new("roo", AGENTS_MD_FILENAME);
        proof {
            reveal_strlit("roo");
            reveal_strlit("amp");
            reveal_strlit("cline");
            reveal_strlit("codex");
            reveal_strlit("copilot");
            reveal_strlit("goose");
            reveal_strlit("kilocode");
            assert(crate::body_generator::spec_agents_md_agents()[6] == "roo"@);
            assert(crate::body_generator::spec_in_agents_md_group("roo"@));
        }
        RooGenerator { inner }
    }

    pub fn name(&self) -> (r: &str)
        ensures
            r@ == self.inner.name@,
    {
        self.inner.name.as_str()
    }

    pub fn generate_agent_contents(
        &self,
        source_files: &Vec<SourceFile>,
        current_dir: &str,
    ) -> (r: Vec<(String, String)>)
        ensures
            crate::body_generator::entry_views(r@) == spec_agent_file_contents(
                rule_views(source_files@),
                current_dir@,
                self.inner.output_filename@,
                self.inner.optional_agent@,
            ),
    {
        self.inner.generate_agent_contents(source_files, current_dir)
    }

    pub fn check_agent_contents(&self, source_files: &Vec<SourceFile>, actual: &Option<String>) -> (r:
        bool)
        ensures
            r == ({
                let rules = rule_views(source_files@);
                if rules.len() == 0 {
                    *actual is None
                } else {
                    (*actual) matches Some(c) && c@ == spec_all_references(
                        rules,
                        self.inner.optional_agent@,
                    )
                }
            }),
    {
        self.inner.check_agent_contents(source_files, actual)
    }

    pub fn gitignore_patterns(&self) -> (r: Vec<String>)
        ensures
            r@.len() == 1,
            r@[0]@ == self.inner.output_filename@,
    {
        self.inner.gitignore_patterns()
    }

    pub fn mcp_generator(&self) -> (r: Option<ExternalMcpGenerator>)
        ensures
            r matches Some(g) && g.output_path@ == ".roo"@ + "/"@ + MCP_JSON@,
    {
        let mut p = ".roo".to_owned();
        p.append("/");
        p.append(MCP_JSON);
        Some(ExternalMcpGenerator { output_path: p })
    }
}

} // verus!
