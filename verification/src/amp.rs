//! The AMP agent: the pooled `AGENTS.md` reference file plus command files.

use vstd::prelude::*;

use crate::amp_command_generator::AmpCommandGenerator;
use crate::body_generator::{spec_all_references, AGENTS_MD_GROUP_NAME};
use crate::constants::{AGENTS_MD_FILENAME, AMP_SKILLS_DIR};
use crate::external_skills_generator::ExternalSkillsGenerator;
use crate::single_file_based::spec_agent_file_contents;
use crate::source_file::{rule_views, SourceFile};

verus! {

pub struct AmpGenerator;

impl AmpGenerator {
    pub fn name(&self) -> (r: &'static str)
        ensures
            r@ == "amp"@,
    {
        "amp"
    }

    pub fn generate_agent_contents(
        &self,
        source_files: &Vec<SourceFile>,
        current_dir: &str,
    ) -> (r: Vec<(String, String)>)
        ensures
            crate::body_generator::entry_views(r@) == spec_agent_file_contents(
                rule_views(source_files@),
                current_dir@,
                AGENTS_MD_FILENAME@,
                AGENTS_MD_GROUP_NAME@,
            ),
    {
        crate::single_file_based::generate_agent_file_contents(
            source_files,
            current_dir,
            AGENTS_MD_FILENAME,
            AGENTS_MD_GROUP_NAME,
        )
    }

    pub fn check_agent_contents(&self, source_files: &Vec<SourceFile>, actual: &Option<String>) -> (r:
        bool)
        ensures
            r == ({
                let rules = rule_views(source_files@);
                if rules.len() == 0 {
                    *actual is None
                } else {
                    (*actual) matches Some(c) && c@ == spec_all_references(
                        rules,
                        AGENTS_MD_GROUP_NAME@,
                    )
                }
            }),
    {
        crate::single_file_based::check_in_sync(
            source_files,
            AGENTS_MD_FILENAME,
            AGENTS_MD_GROUP_NAME,
            actual,
        )
    }

    pub fn gitignore_patterns(&self) -> (r: Vec<String>)
        ensures
            r@.len() == 1,
            r@[0]@ == AGENTS_MD_FILENAME@,
    {
        let mut v: Vec<String> = Vec::new();
        v.push(AGENTS_MD_FILENAME.to_owned());
        v
    }

    pub fn command_generator(&self) -> (r: Option<AmpCommandGenerator>)
        ensures
            r is Some,
    {
        Some(AmpCommandGenerator)
    }

    pub fn skills_generator(&self) -> (r: Option<ExternalSkillsGenerator>)
        ensures
            r matches Some(g) && g.target_dir@ == AMP_SKILLS_DIR@ && g.marks_directories,
    {
        Some(ExternalSkillsGenerator::new(AMP_SKILLS_DIR))
    }
}

} // verus!
