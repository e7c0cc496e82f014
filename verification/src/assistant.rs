//! The Assistant agent: its reference file, and — in skills mode — one skill
//! bundle per optional rule instead of an optional-index reference.

use vstd::prelude::*;

use crate::body_generator::{
    entry_views, generate_all_rule_references_for_agent, generate_required_rule_references,
    spec_all_references, spec_required_references,
};
use crate::assistant_skills::{generate_skills_for_optional_rules, spec_skill_entries};
use crate::constants::{
    ASSISTANT_COMMANDS_DIR, ASSISTANT_MCP_JSON, ASSISTANT_SKILLS_DIR, GENERATED_COMMANDS_SUBDIR,
    GENERATED_FILE_PREFIX,
};
use crate::external_commands_generator::ExternalCommandsGenerator;
use crate::external_skills_generator::ExternalSkillsGenerator;
use crate::mcp_generator::ExternalMcpGenerator;
use crate::paths::{join_path, joined};
use crate::source_file::{rule_views, RuleView, SourceFile};

verus! {

pub struct AssistantGenerator {
    pub name: String,
    pub output_filename: String,
    /// In skills mode the reference file lists only the required rules;
    /// optional rules become skill bundles.
    pub skills_mode: bool,
}

/// Assistant's expected artifacts: nothing for an empty rule set; else its
/// reference file (required-only in skills mode, full otherwise), and in
/// skills mode one skill manifest per optional rule.
pub open spec fn spec_assistant_contents(
    rules: Seq<RuleView>,
    dir: Seq<char>,
    output_filename: Seq<char>,
    skills_mode: bool,
) -> Seq<(Seq<char>, Seq<char>)> {
    if rules.len() == 0 {
        Seq::empty()
    } else {
        let content = if skills_mode {
            spec_required_references(rules)
        } else {
            spec_all_references(rules, "assistant"@)
        };
        seq![(joined(dir, output_filename), content)] + if skills_mode {
            spec_skill_entries(rules, dir)
        } else {
            Seq::empty()
        }
    }
}

impl AssistantGenerator {
    pub fn new(name: &str, output_filename: &str, skills_mode: bool) -> (r: AssistantGenerator)
        ensures
            r.name@ == name@,
            r.output_filename@ == output_filename@,
            r.skills_mode == skills_mode,
    {
        AssistantGenerator {
            name: name.to_owned(),
            output_filename: output_filename.to_owned(),
            skills_mode,
        }
    }

    pub fn generate_agent_contents(
        &self,
        source_files: &Vec<SourceFile>,
        current_dir: &str,
    ) -> (r: Vec<(String, String)>)
        ensures
            entry_views(r@) == spec_assistant_contents(
                rule_views(source_files@),
                current_dir@,
                self.output_filename@,
                self.skills_mode,
            ),
    {
        let mut out: Vec<(String, String)> = Vec::new();
        if source_files.len() == 0 {
            proof {
                assert(entry_views(out@) =~= Seq::<(Seq<char>, Seq<char>)>::empty());
            }
            return out;
        }
        let content = if self.skills_mode {
            generate_required_rule_references(source_files)
        } else {
            generate_all_rule_references_for_agent(source_files, "assistant")
        };
        let path = join_path(current_dir, self.output_filename.as_str());
        out.push((path, content));
        if self.skills_mode {
            let mut skills = generate_skills_for_optional_rules(source_files, current_dir);
            let ghost head = out@;
            let mut i: usize = 0;
            proof {
                assert(entry_views(out@) =~= entry_views(head) + entry_views(
                    skills@.subrange(0, 0),
                ));
            }
            while i < skills.len()
                invariant
                    i <= skills@.len(),
                    entry_views(out@) == entry_views(head) + entry_views(
                        skills@.subrange(0, i as int),
                    ),
                decreases skills@.len() - i,
            {
                let ghost prev = out@;
                let entry = (skills[i].0.clone(), skills[i].1.clone());
                out.push(entry);
                proof {
                    assert(out@.drop_last() =~= prev);
                    assert(skills@.subrange(0, i + 1) =~= skills@.subrange(0, i as int).push(
                        skills@[i as int],
                    ));
                    assert(entry_views(out@) =~= entry_views(prev).push(
                        (out@.last().0@, out@.last().1@),
                    ));
                    assert(entry_views(skills@.subrange(0, i + 1)) =~= entry_views(
                        skills@.subrange(0, i as int),
                    ).push((skills@[i as int].0@, skills@[i as int].1@)));
                }
                i += 1;
            }
            proof {
                assert(skills@.subrange(0, skills@.len() as int) =~= skills@);
                assert(entry_views(out@) =~= spec_assistant_contents(
                    rule_views(source_files@),
                    current_dir@,
                    self.output_filename@,
                    self.skills_mode,
                ));
            }
        } else {
            proof {
                assert(entry_views(out@) =~= spec_assistant_contents(
                    rule_views(source_files@),
                    current_dir@,
                    self.output_filename@,
                    self.skills_mode,
                ));
            }
        }
        out
    }

    /// Whether Assistant's reference file and — in skills mode — its skill
    /// bundles are in sync.
    pub fn check_agent_contents(
        &self,
        source_files: &Vec<SourceFile>,
        current_dir: &str,
        actual_output: &Option<String>,
        generated_skill_dir_count: usize,
        skill_files: &Vec<(String, String)>,
    ) -> (r: bool)
        ensures
            r == ({
                let rules = rule_views(source_files@);
                let content_ok = if rules.len() == 0 {
                    *actual_output is None
                } else {
                    (*actual_output) matches Some(c) && c@ == (if self.skills_mode {
                        spec_required_references(rules)
                    } else {
                        spec_all_references(rules, "assistant"@)
                    })
                };
                let skills_ok = if self.skills_mode {
                    ({
                        let expected = spec_skill_entries(rules, current_dir@);
                        if expected.len() == 0 {
                            generated_skill_dir_count == 0
                        } else if generated_skill_dir_count == 0 {
                            false
                        } else {
                            generated_skill_dir_count == expected.len()
                                && crate::file_utils::all_expected_present(
                                expected,
                                entry_views(skill_files@),
                            )
                        }
                    })
                } else {
                    true
                };
                content_ok && skills_ok
            }),
    {
        let content_ok = if source_files.len() == 0 {
            actual_output.is_none()
        } else {
            match actual_output {
                None => false,
                Some(c) => {
                    let expected = if self.skills_mode {
                        generate_required_rule_references(source_files)
                    } else {
                        generate_all_rule_references_for_agent(source_files, "assistant")
                    };
                    crate::text::str_eq(c.as_str(), expected.as_str())
                },
            }
        };
        if !content_ok {
            return false;
        }
        if self.skills_mode {
            crate::assistant_skills::check_skills_in_sync(
                source_files,
                current_dir,
                generated_skill_dir_count,
                skill_files,
            )
        } else {
            true
        }
    }

    pub fn gitignore_patterns(&self) -> (r: Vec<String>)
        ensures
            r@.len() == if self.skills_mode {
                2int
            } else {
                1int
            },
            r@[0]@ == self.output_filename@,
            self.skills_mode ==> r@[1]@ == ASSISTANT_SKILLS_DIR@ + "/"@ + GENERATED_FILE_PREFIX@
                + "*/"@,
    {
        let mut v: Vec<String> = Vec::new();
        v.push(self.output_filename.clone());
        if self.skills_mode {
            let mut p = ASSISTANT_SKILLS_DIR.to_owned();
            p.append("/");
            p.append(GENERATED_FILE_PREFIX);
            p.append("*/");
            v.push(p);
        }
        v
    }

    pub fn mcp_generator(&self) -> (r: Option<ExternalMcpGenerator>)
        ensures
            r matches Some(g) && g.output_path@ == ASSISTANT_MCP_JSON@,
    {
        Some(ExternalMcpGenerator::new(ASSISTANT_MCP_JSON))
    }

    pub fn command_generator(&self) -> (r: Option<ExternalCommandsGenerator>)
        ensures
            r matches Some(g) && g.target_dir@ == ASSISTANT_COMMANDS_DIR@
                && crate::markdown_based::opt_view(g.subdir) == Some(GENERATED_COMMANDS_SUBDIR@),
    {
        Some(ExternalCommandsGenerator::with_subdir(ASSISTANT_COMMANDS_DIR, GENERATED_COMMANDS_SUBDIR))
    }

    pub fn skills_generator(&self) -> (r: Option<ExternalSkillsGenerator>)
        ensures
            r matches Some(g) && g.target_dir@ == ASSISTANT_SKILLS_DIR@ && g.marks_directories,
    {
        Some(ExternalSkillsGenerator::new(ASSISTANT_SKILLS_DIR))
    }
}

} // verus!
