//! The Codex agent: the pooled `AGENTS.md` reference file plus skill links.

use vstd::prelude::*;

use crate::body_generator::{spec_all_references, AGENTS_MD_GROUP_NAME};
use crate::constants::{AGENTS_MD_FILENAME, CODEX_SKILLS_DIR};
use crate::external_skills_generator::ExternalSkillsGenerator;
use crate::single_file_based::spec_agent_file_contents;
use crate::source_file::{rule_views, SourceFile};

verus! {

pub struct CodexGenerator {
    pub name: String,
    pub output_filename: String,
}

impl CodexGenerator {
    pub fn new() -> (r: CodexGenerator)
        ensures
            r.name@ == "codex"@,
            r.output_filename@ == AGENTS_MD_FILENAME@,
    {
        CodexGenerator { name: "codex".to_owned(), output_filename: AGENTS_MD_FILENAME.to_owned() }
    }

    pub fn generate_agent_contents(
        &self,
        source_files: &Vec<SourceFile>,
        current_dir: &str,
    ) -> (r: Vec<(String, String)>)
        ensures
            crate::body_generator::entry_views(r@) == spec_agent_file_contents(
                rule_views(source_files@),
                current_dir@,
                self.output_filename@,
                AGENTS_MD_GROUP_NAME@,
            ),
    {
        crate::single_file_based::generate_agent_file_contents(
            source_files,
            current_dir,
            self.output_filename.as_str(),
            AGENTS_MD_GROUP_NAME,
        )
    }

    pub fn check_agent_contents(&self, source_files: &Vec<SourceFile>, actual: &Option<String>) -> (r:
        bool)
        ensures
            r == ({
                let rules = rule_views(source_files@);
                if rules.len() == 0 {
                    *actual is None
                } else {
                    (*actual) matches Some(c) && c@ == spec_all_references(
                        rules,
                        AGENTS_MD_GROUP_NAME@,
                    )
                }
            }),
    {
        crate::single_file_based::check_in_sync(
            source_files,
            self.output_filename.as_str(),
            AGENTS_MD_GROUP_NAME,
            actual,
        )
    }

    pub fn gitignore_patterns(&self) -> (r: Vec<String>)
        ensures
            r@.len() == 1,
            r@[0]@ == self.output_filename@,
    {
        let mut v: Vec<String> = Vec::new();
        v.push(self.output_filename.clone());
        v
    }

    pub fn skills_generator(&self) -> (r: Option<ExternalSkillsGenerator>)
        ensures
            r matches Some(g) && g.target_dir@ == CODEX_SKILLS_DIR@ && g.marks_directories,
    {
        Some(ExternalSkillsGenerator::new(CODEX_SKILLS_DIR))
    }
}

} // verus!
