//! The Cursor agent: one `.mdc` rule file per source rule, each carrying a
//! rewritten frontmatter block above the original body.

use vstd::prelude::*;

use crate::body_generator::entry_views;
use crate::constants::GENERATED_FILE_PREFIX;
use crate::file_utils::{all_expected_present, check_directory_exact_match, distinct_paths};
use crate::paths::{join_path, joined};
use crate::source_file::{rule_views, RuleView, SourceFile};
use crate::text::{ensure_trailing_newline, with_trailing_newline};

verus! {

/// The patterns joined with `, `, as the `globs:` line shows them.
pub open spec fn spec_join_comma(ps: Seq<Seq<char>>) -> Seq<char>
    decreases ps.len(),
{
    if ps.len() == 0 {
        Seq::empty()
    } else if ps.len() == 1 {
        ps[0]
    } else {
        spec_join_comma(ps.drop_last()) + ", "@ + ps.last()
    }
}

fn join_comma(ps: &Vec<String>) -> (r: String)
    ensures
        r@ == spec_join_comma(ps@.map_values(|s: String| s@)),
{
    let ghost views = ps@.map_values(|s: String| s@);
    let mut out = String::new();
    let mut i: usize = 0;
    proof {
        assert(views.subrange(0, 0) =~= Seq::<Seq<char>>::empty());
        assert(out@ =~= spec_join_comma(views.subrange(0, 0)));
    }
    while i < ps.len()
        invariant
            i <= ps@.len(),
            views == ps@.map_values(|s: String| s@),
            out@ == spec_join_comma(views.subrange(0, i as int)),
        decreases ps@.len() - i,
    {
        proof {
            assert(views.subrange(0, i + 1).drop_last() =~= views.subrange(0, i as int));
            assert(views.subrange(0, i + 1).last() == views[i as int]);
            assert(views[i as int] == ps@[i as int]@);
        }
        if i > 0 {
            out.append(", ");
        }
        out.append(ps[i].as_str());
        proof {
            if i == 0 {
                assert(out@ =~= spec_join_comma(views.subrange(0, 1)));
            }
        }
        i += 1;
    }
    proof {
        assert(views.subrange(0, views.len() as int) =~= views);
    }
    out
}

pub open spec fn spec_bool_text(b: bool) -> Seq<char> {
    if b {
        "true"@
    } else {
        "false"@
    }
}

/// The `globs:` line of a rule's rewritten frontmatter: present only when
/// the rule carries patterns.
pub open spec fn spec_globs_section(rv: RuleView) -> Seq<char> {
    match rv.front_matter.file_matching_patterns {
        Some(ps) => if ps.len() > 0 {
            "globs: "@ + spec_join_comma(ps) + "\n"@
        } else {
            Seq::empty()
        },
        None => Seq::empty(),
    }
}

/// A rule's frontmatter as Cursor expects it: the description, the optional
/// `globs:` line, and the apply mode, closed by a blank line.
pub open spec fn spec_cursor_frontmatter(rv: RuleView) -> Seq<char> {
    "---\ndescription: "@ + rv.front_matter.description + "\n"@ + spec_globs_section(rv)
        + "alwaysApply: "@ + spec_bool_text(rv.front_matter.always_apply) + "\n---\n\n"@
}

/// Builds the rewritten frontmatter block for one rule.
pub fn create_cursor_frontmatter(source_file: &SourceFile) -> (r: String)
    ensures
        r@ == spec_cursor_frontmatter(source_file@),
{
    let mut out = "---\ndescription: ".to_owned();
    out.append(source_file.front_matter.description.as_str());
    out.append("\n");
    match &source_file.front_matter.file_matching_patterns {
        Some(ps) => {
            if ps.len() > 0 {
                out.append("globs: ");
                out.append(join_comma(ps).as_str());
                out.append("\n");
            }
        },
        None => {},
    }
    out.append("alwaysApply: ");
    if source_file.front_matter.always_apply {
        out.append("true");
    } else {
        out.append("false");
    }
    out.append("\n---\n\n");
    out
}

/// One whole `.mdc` file: the rewritten frontmatter, the body, and the
/// guaranteed trailing newline.
pub open spec fn spec_rule_file_content(rv: RuleView) -> Seq<char> {
    with_trailing_newline(spec_cursor_frontmatter(rv) + rv.body)
}

/// Builds the `.mdc` content for one rule.
pub fn generate_rule_file_content(source_file: &SourceFile) -> (r: String)
    ensures
        r@ == spec_rule_file_content(source_file@),
{
    let mut content = create_cursor_frontmatter(source_file);
    content.append(source_file.body.as_str());
    ensure_trailing_newline(content)
}

/// Cursor's expected artifacts: one `.mdc` file per rule (whatever its apply
/// mode), in order, under `.cursor/rules`.
pub open spec fn spec_cursor_contents(rules: Seq<RuleView>, dir: Seq<char>) -> Seq<
    (Seq<char>, Seq<char>),
> {
    rules.map_values(
        |rv: RuleView|
            (
                joined(
                    joined(joined(dir, ".cursor"@), "rules"@),
                    GENERATED_FILE_PREFIX@ + rv.base_file_name + ".mdc"@,
                ),
                spec_rule_file_content(rv),
            ),
    )
}

/// The Cursor agent.
pub struct CursorGenerator;

pub fn get_cursor_rules_dir(current_dir: &str) -> (r: String)
    ensures
        r@ == joined(joined(current_dir@, ".cursor"@), "rules"@),
{
    let base = join_path(current_dir, ".cursor");
    join_path(base.as_str(), "rules")
}

impl CursorGenerator {
    pub fn generate_agent_contents(
        &self,
        source_files: &Vec<SourceFile>,
        current_dir: &str,
    ) -> (r: Vec<(String, String)>)
        ensures
            entry_views(r@) == spec_cursor_contents(rule_views(source_files@), current_dir@),
    {
        let ghost views = rule_views(source_files@);
        let rules_dir = get_cursor_rules_dir(current_dir);
        let mut out: Vec<(String, String)> = Vec::new();
        let mut i: usize = 0;
        proof {
            assert(views.subrange(0, 0) =~= Seq::<RuleView>::empty());
            assert(entry_views(out@) =~= spec_cursor_contents(
                views.subrange(0, 0),
                current_dir@,
            ));
        }
        while i < source_files.len()
            invariant
                i <= source_files@.len(),
                views == rule_views(source_files@),
                rules_dir@ == joined(joined(current_dir@, ".cursor"@), "rules"@),
                entry_views(out@) == spec_cursor_contents(
                    views.subrange(0, i as int),
                    current_dir@,
                ),
            decreases source_files@.len() - i,
        {
            proof {
                assert(views[i as int] == source_files@[i as int]@);
            }
            let mut name = GENERATED_FILE_PREFIX.to_owned();
            name.append(source_files[i].base_file_name.as_str());
            name.append(".mdc");
            let path = join_path(rules_dir.as_str(), name.as_str());
            let content = generate_rule_file_content(&source_files[i]);
            let ghost prev = out@;
            out.push((path, content));
            proof {
                assert(out@.drop_last() =~= prev);
                assert(views.subrange(0, i + 1) =~= views.subrange(0, i as int).push(
                    views[i as int],
                ));
                assert(entry_views(out@) =~= entry_views(prev).push(
                    (out@.last().0@, out@.last().1@),
                ));
                assert(spec_cursor_contents(
                    views.subrange(0, i as int).push(views[i as int]),
                    current_dir@,
                ) =~= spec_cursor_contents(views.subrange(0, i as int), current_dir@).push(
                    spec_cursor_contents(views.subrange(0, i + 1), current_dir@).last(),
                ));
            }
            i += 1;
        }
        proof {
            assert(views.subrange(0, views.len() as int) =~= views);
        }
        out
    }

    /// Whether Cursor's rules directory is in sync: absent for an empty rule
    /// set, else holding exactly the expected `.mdc` files.
    pub fn check_agent_contents(
        &self,
        source_files: &Vec<SourceFile>,
        current_dir: &str,
        actual: &Option<Vec<(String, String)>>,
    ) -> (r: bool)
        requires
            (*actual) matches Some(l) ==> distinct_paths(entry_views(l@)),
        ensures
            r == ({
                let expected = spec_cursor_contents(rule_views(source_files@), current_dir@);
                if rule_views(source_files@).len() == 0 {
                    *actual is None
                } else {
                    match *actual {
                        Option::None => false,
                        Option::Some(l) => entry_views(l@).len() == expected.len()
                            && all_expected_present(expected, entry_views(l@)),
                    }
                }
            }),
    {
        if source_files.len() == 0 {
            return actual.is_none();
        }
        let expected = self.generate_agent_contents(source_files, current_dir);
        check_directory_exact_match(&expected, actual)
    }

    pub fn gitignore_patterns(&self) -> (r: Vec<String>)
        ensures
            r@.len() == 1,
            r@[0]@ == ".cursor/rules/"@,
    {
        let mut v: Vec<String> = Vec::new();
        v.push(".cursor/rules/".to_owned());
        v
    }
}

} // verus!
