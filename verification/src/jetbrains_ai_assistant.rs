//! The JetBrains AI Assistant agent: one generated markdown file per rule
//! (whatever its apply mode) under `.aiassistant/rules`.

use vstd::prelude::*;

use crate::body_generator::entry_views;
use crate::constants::GENERATED_FILE_PREFIX;
use crate::file_utils::{all_expected_present, check_directory_exact_match, distinct_paths};
use crate::paths::{join_path, joined};
use crate::source_file::{rule_views, RuleView, SourceFile};
use crate::text::{ensure_trailing_newline, with_trailing_newline};

verus! {

pub open spec fn spec_jetbrains_rules_dir(dir: Seq<char>) -> Seq<char> {
    joined(joined(dir, ".aiassistant"@), "rules"@)
}

/// JetBrains' expected artifacts: every rule's body, required or optional,
/// in order, each with the guaranteed trailing newline.
pub open spec fn spec_jetbrains_contents(rules: Seq<RuleView>, dir: Seq<char>) -> Seq<
    (Seq<char>, Seq<char>),
> {
    rules.map_values(
        |rv: RuleView|
            (
                joined(
                    spec_jetbrains_rules_dir(dir),
                    GENERATED_FILE_PREFIX@ + rv.base_file_name + ".md"@,
                ),
                with_trailing_newline(rv.body),
            ),
    )
}

pub fn get_rules_dir(current_dir: &str) -> (r: String)
    ensures
        r@ == spec_jetbrains_rules_dir(current_dir@),
{
    let base = join_path(current_dir, ".aiassistant");
    join_path(base.as_str(), "rules")
}

pub struct JetbrainsAiAssistantGenerator;

impl JetbrainsAiAssistantGenerator {
    pub fn generate_agent_contents(
        &self,
        source_files: &Vec<SourceFile>,
        current_dir: &str,
    ) -> (r: Vec<(String, String)>)
        ensures
            entry_views(r@) == spec_jetbrains_contents(rule_views(source_files@), current_dir@),
    {
        let ghost views = rule_views(source_files@);
        let rules_dir = get_rules_dir(current_dir);
        let mut out: Vec<(String, String)> = Vec::new();
        let mut i: usize = 0;
        proof {
            assert(views.subrange(0, 0) =~= Seq::<RuleView>::empty());
            assert(entry_views(out@) =~= spec_jetbrains_contents(
                views.subrange(0, 0),
                current_dir@,
            ));
        }
        while i < source_files.len()
            invariant
                i <= source_files@.len(),
                views == rule_views(source_files@),
                rules_dir@ == spec_jetbrains_rules_dir(current_dir@),
                entry_views(out@) == spec_jetbrains_contents(
                    views.subrange(0, i as int),
                    current_dir@,
                ),
            decreases source_files@.len() - i,
        {
            proof {
                assert(views[i as int] == source_files@[i as int]@);
            }
            let mut name = GENERATED_FILE_PREFIX.to_owned();
            name.append(source_files[i].base_file_name.as_str());
            name.append(".md");
            let path = join_path(rules_dir.as_str(), name.as_str());
            let content = ensure_trailing_newline(source_files[i].body.clone());
            let ghost prev = out@;
            out.push((path, content));
            proof {
                assert(out@.drop_last() =~= prev);
                assert(views.subrange(0, i + 1) =~= views.subrange(0, i as int).push(
                    views[i as int],
                ));
                assert(entry_views(out@) =~= entry_views(prev).push(
                    (out@.last().0@, out@.last().1@),
                ));
                assert(spec_jetbrains_contents(
                    views.subrange(0, i as int).push(views[i as int]),
                    current_dir@,
                ) =~= spec_jetbrains_contents(views.subrange(0, i as int), current_dir@).push(
                    spec_jetbrains_contents(views.subrange(0, i + 1), current_dir@).last(),
                ));
            }
            i += 1;
        }
        proof {
            assert(views.subrange(0, views.len() as int) =~= views);
        }
        out
    }

    pub fn check_agent_contents(
        &self,
        source_files: &Vec<SourceFile>,
        current_dir: &str,
        actual: &Option<Vec<(String, String)>>,
    ) -> (r: bool)
        requires
            (*actual) matches Some(l) ==> distinct_paths(entry_views(l@)),
        ensures
            r == ({
                let expected = spec_jetbrains_contents(rule_views(source_files@), current_dir@);
                if rule_views(source_files@).len() == 0 {
                    *actual is None
                } else {
                    match *actual {
                        Option::None => false,
                        Option::Some(l) => entry_views(l@).len() == expected.len()
                            && all_expected_present(expected, entry_views(l@)),
                    }
                }
            }),
    {
        if source_files.len() == 0 {
            return actual.is_none();
        }
        let expected = self.generate_agent_contents(source_files, current_dir);
        check_directory_exact_match(&expected, actual)
    }

    pub fn gitignore_patterns(&self) -> (r: Vec<String>)
        ensures
            r@.len() == 1,
            r@[0]@ == ".aiassistant/rules/"@,
    {
        let mut v: Vec<String> = Vec::new();
        v.push(".aiassistant/rules/".to_owned());
        v
    }
}

} // verus!
