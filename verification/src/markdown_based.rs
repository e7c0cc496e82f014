//! Agents that keep a directory of generated markdown files: one per
//! required rule plus one optional-rules index.

use vstd::prelude::*;

use crate::body_generator::entry_views;
use crate::constants::{GENERATED_FILE_PREFIX, OPTIONAL_RULES_FILENAME};
use crate::file_utils::{all_expected_present, check_directory_exact_match, distinct_paths};
use crate::optional_rules::{generate_optional_rules_content, spec_optional_index};
use crate::paths::{join_path, joined};
use crate::source_file::{rule_views, RuleView, SourceFile};
use crate::text::{ensure_trailing_newline, with_trailing_newline};
use vstd::string::StrSliceExecFns;

verus! {

/// The rules directory of a markdown-based agent: its agent directory,
/// optionally with a rules subdirectory below it.
pub open spec fn spec_rules_dir(
    dir: Seq<char>,
    agent_dir: Seq<char>,
    rules_subdir: Option<Seq<char>>,
) -> Seq<char> {
    match rules_subdir {
        Some(sub) => joined(joined(dir, agent_dir), sub),
        None => joined(dir, agent_dir),
    }
}

pub open spec fn opt_view(v: Option<String>) -> Option<Seq<char>> {
    match v {
        Some(s) => Some(s@),
        None => None,
    }
}

pub fn get_rules_dir_path(current_dir: &str, agent_dir: &str, rules_subdir: &Option<String>) -> (r:
    String)
    ensures
        r@ == spec_rules_dir(current_dir@, agent_dir@, opt_view(*rules_subdir)),
{
    match rules_subdir {
        Some(sub) => {
            let base = join_path(current_dir, agent_dir);
            join_path(base.as_str(), sub.as_str())
        },
        None => join_path(current_dir, agent_dir),
    }
}

/// The generated markdown file name of one rule.
pub open spec fn spec_markdown_file_name(rv: RuleView) -> Seq<char> {
    GENERATED_FILE_PREFIX@ + rv.base_file_name + ".md"@
}

/// The per-rule files of a markdown-based agent: one body file per required
/// rule, in order.
pub open spec fn spec_markdown_rule_files(rules: Seq<RuleView>, rules_dir: Seq<char>) -> Seq<
    (Seq<char>, Seq<char>),
>
    decreases rules.len(),
{
    if rules.len() == 0 {
        Seq::empty()
    } else {
        let rest = spec_markdown_rule_files(rules.drop_last(), rules_dir);
        if rules.last().front_matter.always_apply {
            rest.push(
                (
                    joined(rules_dir, spec_markdown_file_name(rules.last())),
                    with_trailing_newline(rules.last().body),
                ),
            )
        } else {
            rest
        }
    }
}

/// The whole expected artifact set of a markdown-based agent: nothing for an
/// empty rule set; else the per-rule files, then the optional-rules index
/// when any rule is optional.
pub open spec fn spec_markdown_agent_contents(
    rules: Seq<RuleView>,
    dir: Seq<char>,
    agent_dir: Seq<char>,
    rules_subdir: Option<Seq<char>>,
) -> Seq<(Seq<char>, Seq<char>)> {
    let rules_dir = spec_rules_dir(dir, agent_dir, rules_subdir);
    if rules.len() == 0 {
        Seq::empty()
    } else {
        spec_markdown_rule_files(rules, rules_dir) + if spec_optional_index(rules).len() > 0 {
            seq![(joined(rules_dir, OPTIONAL_RULES_FILENAME@), spec_optional_index(rules))]
        } else {
            Seq::empty()
        }
    }
}

/// Builds a markdown-based agent's expected artifacts.
pub fn generate_markdown_agent_contents(
    source_files: &Vec<SourceFile>,
    current_dir: &str,
    agent_dir: &str,
    rules_subdir: &Option<String>,
) -> (r: Vec<(String, String)>)
    ensures
        entry_views(r@) == spec_markdown_agent_contents(
            rule_views(source_files@),
            current_dir@,
            agent_dir@,
            opt_view(*rules_subdir),
        ),
{
    let ghost views = rule_views(source_files@);
    let mut out: Vec<(String, String)> = Vec::new();
    if source_files.len() == 0 {
        proof {
            assert(entry_views(out@) =~= Seq::<(Seq<char>, Seq<char>)>::empty());
        }
        return out;
    }
    let rules_dir = get_rules_dir_path(current_dir, agent_dir, rules_subdir);

    let mut i: usize = 0;
    proof {
        assert(views.subrange(0, 0) =~= Seq::<RuleView>::empty());
        assert(entry_views(out@) =~= spec_markdown_rule_files(views.subrange(0, 0), rules_dir@));
    }
    while i < source_files.len()
        invariant
            i <= source_files@.len(),
            views == rule_views(source_files@),
            rules_dir@ == spec_rules_dir(current_dir@, agent_dir@, opt_view(*rules_subdir)),
            entry_views(out@) == spec_markdown_rule_files(views.subrange(0, i as int), rules_dir@),
        decreases source_files@.len() - i,
    {
        proof {
            assert(views.subrange(0, i + 1).drop_last() =~= views.subrange(0, i as int));
            assert(views.subrange(0, i + 1).last() == views[i as int]);
            assert(views[i as int] == source_files@[i as int]@);
        }
        if source_files[i].front_matter.always_apply {
            let mut name = GENERATED_FILE_PREFIX.to_owned();
            name.append(source_files[i].base_file_name.as_str());
            name.append(".md");
            let path = join_path(rules_dir.as_str(), name.as_str());
            let content = ensure_trailing_newline(source_files[i].body.clone());
            let ghost prev = out@;
            out.push((path, content));
            proof {
                assert(out@.drop_last() =~= prev);
                assert(entry_views(out@) =~= entry_views(prev).push(
                    (out@.last().0@, out@.last().1@),
                ));
            }
        }
        i += 1;
    }
    proof {
        assert(views.subrange(0, views.len() as int) =~= views);
    }

    let optional_content = generate_optional_rules_content(source_files);
    if optional_content.as_str().unicode_len() > 0 {
        let path = join_path(rules_dir.as_str(), OPTIONAL_RULES_FILENAME);
        let ghost prev = out@;
        out.push((path, optional_content));
        proof {
            assert(out@.drop_last() =~= prev);
            assert(entry_views(out@) =~= entry_views(prev).push(
                (out@.last().0@, out@.last().1@),
            ));
            assert(entry_views(out@) =~= spec_markdown_agent_contents(
                views,
                current_dir@,
                agent_dir@,
                opt_view(*rules_subdir),
            ));
        }
    } else {
        proof {
            assert(entry_views(out@) + Seq::<(Seq<char>, Seq<char>)>::empty() =~= entry_views(
                out@,
            ));
        }
    }
    out
}

/// Whether a markdown-based agent's rules directory is in sync: with no
/// rules it must be absent; else it must hold exactly the expected files.
pub fn check_markdown_agent_sync(
    source_files: &Vec<SourceFile>,
    current_dir: &str,
    agent_dir: &str,
    rules_subdir: &Option<String>,
    actual: &Option<Vec<(String, String)>>,
) -> (r: bool)
    requires
        (*actual) matches Some(l) ==> distinct_paths(entry_views(l@)),
    ensures
        r == ({
            let expected = spec_markdown_agent_contents(
                rule_views(source_files@),
                current_dir@,
                agent_dir@,
                opt_view(*rules_subdir),
            );
            if rule_views(source_files@).len() == 0 {
                *actual is None
            } else {
                match *actual {
                    Option::None => false,
                    Option::Some(l) => entry_views(l@).len() == expected.len()
                        && all_expected_present(expected, entry_views(l@)),
                }
            }
        }),
{
    if source_files.len() == 0 {
        return actual.is_none();
    }
    let expected = generate_markdown_agent_contents(
        source_files,
        current_dir,
        agent_dir,
        rules_subdir,
    );
    check_directory_exact_match(&expected, actual)
}

/// The gitignore pattern of a markdown-based agent: its rules directory.
pub fn markdown_agent_gitignore_patterns(agent_dir: &str, rules_subdir: &Option<String>) -> (r: Vec<
    String,
>)
    ensures
        r@.len() == 1,
        r@[0]@ == spec_rules_dir(Seq::<char>::empty(), agent_dir@, opt_view(*rules_subdir))
            + "/"@,
{
    proof {
        reveal_strlit("");
        assert(""@ =~= Seq::<char>::empty());
    }
    let mut pattern = get_rules_dir_path("", agent_dir, rules_subdir);
    pattern.append("/");
    let mut v: Vec<String> = Vec::new();
    v.push(pattern);
    v
}

/// One agent that keeps a directory of generated markdown files.
pub struct MarkdownBasedGenerator {
    pub name: String,
    pub agent_dir: String,
    pub rules_subdir: Option<String>,
}

impl MarkdownBasedGenerator {
    /// An agent with the conventional `rules` subdirectory.
    pub fn new(name: &str, agent_dir: &str) -> (r: MarkdownBasedGenerator)
        ensures
            r.name@ == name@,
            r.agent_dir@ == agent_dir@,
            opt_view(r.rules_subdir) == Some("rules"@),
    {
        MarkdownBasedGenerator {
            name: name.to_owned(),
            agent_dir: agent_dir.to_owned(),
            rules_subdir: Some("rules".to_owned()),
        }
    }

    /// An agent with an explicit (or no) rules subdirectory.
    pub fn new_with_rules_subdir(name: &str, agent_dir: &str, rules_subdir: Option<String>) -> (r:
        MarkdownBasedGenerator)
        ensures
            r.name@ == name@,
            r.agent_dir@ == agent_dir@,
            opt_view(r.rules_subdir) == opt_view(rules_subdir),
    {
        MarkdownBasedGenerator { name: name.to_owned(), agent_dir: agent_dir.to_owned(), rules_subdir }
    }

    pub fn generate_agent_contents(
        &self,
        source_files: &Vec<SourceFile>,
        current_dir: &str,
    ) -> (r: Vec<(String, String)>)
        ensures
            entry_views(r@) == spec_markdown_agent_contents(
                rule_views(source_files@),
                current_dir@,
                self.agent_dir@,
                opt_view(self.rules_subdir),
            ),
    {
        generate_markdown_agent_contents(
            source_files,
            current_dir,
            self.agent_dir.as_str(),
            &self.rules_subdir,
        )
    }

    pub fn check_agent_contents(
        &self,
        source_files: &Vec<SourceFile>,
        current_dir: &str,
        actual: &Option<Vec<(String, String)>>,
    ) -> (r: bool)
        requires
            (*actual) matches Some(l) ==> distinct_paths(entry_views(l@)),
        ensures
            r == ({
                let expected = spec_markdown_agent_contents(
                    rule_views(source_files@),
                    current_dir@,
                    self.agent_dir@,
                    opt_view(self.rules_subdir),
                );
                if rule_views(source_files@).len() == 0 {
                    *actual is None
                } else {
                    match *actual {
                        Option::None => false,
                        Option::Some(l) => entry_views(l@).len() == expected.len()
                            && all_expected_present(expected, entry_views(l@)),
                    }
                }
            }),
    {
        check_markdown_agent_sync(
            source_files,
            current_dir,
            self.agent_dir.as_str(),
            &self.rules_subdir,
            actual,
        )
    }

    /// The rules directory the cleaner removes wholesale.
    pub fn rules_dir(&self, current_dir: &str) -> (r: String)
        ensures
            r@ == spec_rules_dir(current_dir@, self.agent_dir@, opt_view(self.rules_subdir)),
    {
        get_rules_dir_path(current_dir, self.agent_dir.as_str(), &self.rules_subdir)
    }

    pub fn gitignore_patterns(&self) -> (r: Vec<String>)
        ensures
            r@.len() == 1,
            r@[0]@ == spec_rules_dir(
                Seq::<char>::empty(),
                self.agent_dir@,
                opt_view(self.rules_subdir),
            ) + "/"@,
    {
        markdown_agent_gitignore_patterns(self.agent_dir.as_str(), &self.rules_subdir)
    }
}

} // verus!
