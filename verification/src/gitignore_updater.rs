//! The tool-owned section of `.gitignore`: collecting the patterns, and
//! rewriting the file's content around the section markers.

use vstd::prelude::*;

use crate::constants::{AGENTS_MD_FILENAME, AI_RULE_SOURCE_DIR, GENERATED_RULE_BODY_DIR};
use crate::file_utils::{sorted_unique_strings, strictly_sorted, string_views};
use crate::registry::AgentToolRegistry;
use crate::text::{
    chars_of, find_sub, match_at, split_char, string_of, subvec, trim_end_chars, trimmed,
    trimmed_end,
};

verus! {

/// Everything the configured agents contribute, in registration order.
pub open spec fn spec_tools_patterns(tools: Seq<crate::registry::AgentTool>) -> Seq<Seq<char>>
    decreases tools.len(),
{
    if tools.len() == 0 {
        Seq::empty()
    } else {
        spec_tools_patterns(tools.drop_last()) + crate::registry::spec_tool_all_patterns(
            tools.last(),
        )
    }
}

/// Each pattern behind the traversal prefix: `/` when only the project root
/// is generated into, `**/` when nested directories are.
pub open spec fn spec_prefixed_patterns(ps: Seq<Seq<char>>, nested: bool) -> Seq<Seq<char>> {
    Seq::new(
        ps.len(),
        |i: int|
            if 0 <= i < ps.len() {
                (if nested {
                    "**/"@
                } else {
                    "/"@
                }) + ps[i]
            } else {
                Seq::empty()
            },
    )
}

/// The whole collected pattern set: every agent's own, MCP, command and
/// skill patterns in registration order, then the generated body directory,
/// each behind the traversal prefix.
pub open spec fn spec_collected_patterns(
    tools: Seq<crate::registry::AgentTool>,
    nested: bool,
) -> Seq<Seq<char>> {
    spec_prefixed_patterns(
        spec_tools_patterns(tools) + seq![
            AI_RULE_SOURCE_DIR@ + "/"@ + GENERATED_RULE_BODY_DIR@,
        ],
        nested,
    )
}

/// Appends every name of `src`, in order.
fn append_all(dst: &mut Vec<String>, src: &Vec<String>)
    ensures
        string_views(final(dst)@) == string_views(old(dst)@) + string_views(src@),
{
    let ghost base = string_views(dst@);
    let mut i: usize = 0;
    proof {
        assert(string_views(src@).subrange(0, 0) =~= Seq::<Seq<char>>::empty());
        assert(string_views(dst@) =~= base + string_views(src@).subrange(0, 0));
    }
    while i < src.len()
        invariant
            i <= src@.len(),
            string_views(dst@) == base + string_views(src@).subrange(0, i as int),
        decreases src@.len() - i,
    {
        let ghost prev = dst@;
        dst.push(src[i].clone());
        proof {
            assert(dst@.drop_last() =~= prev);
            assert(string_views(src@)[i as int] == src@[i as int]@);
            assert(string_views(dst@) =~= string_views(prev).push(src@[i as int]@));
            assert(base + string_views(src@).subrange(0, i + 1) =~= (base + string_views(
                src@,
            ).subrange(0, i as int)).push(src@[i as int]@));
        }
        i += 1;
    }
    proof {
        assert(string_views(src@).subrange(0, src@.len() as int) =~= string_views(src@));
    }
}

/// Everything one agent contributes, in contribution order.
fn tool_all_patterns(tool: &crate::registry::AgentTool) -> (r: Vec<String>)
    ensures
        string_views(r@) == crate::registry::spec_tool_all_patterns(*tool),
{
    let mut out = tool.gitignore_patterns();
    match tool.mcp_generator() {
        Some(m) => {
            let mp = m.mcp_gitignore_patterns();
            proof {
                assert(string_views(mp@) =~= crate::registry::spec_tool_mcp_patterns(*tool));
            }
            append_all(&mut out, &mp);
        },
        None => {
            proof {
                assert(string_views(out@) + crate::registry::spec_tool_mcp_patterns(*tool)
                    =~= string_views(out@));
            }
        },
    }
    match tool.command_generator() {
        Some(c) => {
            let cp = c.command_gitignore_patterns();
            proof {
                assert(string_views(cp@) =~= crate::registry::spec_tool_command_patterns(*tool));
            }
            append_all(&mut out, &cp);
        },
        None => {
            proof {
                assert(string_views(out@) + crate::registry::spec_tool_command_patterns(*tool)
                    =~= string_views(out@));
            }
        },
    }
    match tool.skills_generator() {
        Some(sg) => {
            let sp = sg.skills_gitignore_patterns();
            proof {
                assert(string_views(sp@) =~= crate::registry::spec_tool_skills_patterns(*tool));
            }
            append_all(&mut out, &sp);
        },
        None => {
            proof {
                assert(string_views(out@) + crate::registry::spec_tool_skills_patterns(*tool)
                    =~= string_views(out@));
            }
        },
    }
    out
}

/// Every pattern the configured agents own — their own outputs, MCP outputs,
/// command outputs and skill links, in registration order, then the
/// generated body directory — each prefixed with `/` when only the project
/// root is generated into and `**/` when nested directories are.
pub fn collect_all_gitignore_patterns(
    registry: &AgentToolRegistry,
    nested_depth: usize,
) -> (r: Vec<String>)
    ensures
        string_views(r@) == spec_collected_patterns(registry.tools@, nested_depth != 0),
{
    let mut base: Vec<String> = Vec::new();
    let mut i: usize = 0;
    proof {
        assert(registry.tools@.subrange(0, 0) =~= Seq::<crate::registry::AgentTool>::empty());
        assert(string_views(base@) =~= spec_tools_patterns(registry.tools@.subrange(0, 0)));
    }
    while i < registry.tools.len()
        invariant
            i <= registry.tools@.len(),
            string_views(base@) == spec_tools_patterns(registry.tools@.subrange(0, i as int)),
        decreases registry.tools@.len() - i,
    {
        proof {
            assert(registry.tools@.subrange(0, i + 1).drop_last() =~= registry.tools@.subrange(
                0,
                i as int,
            ));
            assert(registry.tools@.subrange(0, i + 1).last() == registry.tools@[i as int]);
        }
        let ps = tool_all_patterns(&registry.tools[i]);
        append_all(&mut base, &ps);
        i += 1;
    }
    proof {
        assert(registry.tools@.subrange(0, registry.tools@.len() as int) =~= registry.tools@);
    }
    let mut body_dir = AI_RULE_SOURCE_DIR.to_owned();
    body_dir.append("/");
    body_dir.append(GENERATED_RULE_BODY_DIR);
    let ghost before = string_views(base@);
    base.push(body_dir);
    proof {
        assert(string_views(base@) =~= before.push(
            AI_RULE_SOURCE_DIR@ + "/"@ + GENERATED_RULE_BODY_DIR@,
        ));
        assert(before.push(AI_RULE_SOURCE_DIR@ + "/"@ + GENERATED_RULE_BODY_DIR@) =~= before
            + seq![AI_RULE_SOURCE_DIR@ + "/"@ + GENERATED_RULE_BODY_DIR@]);
    }

    let ghost all = string_views(base@);
    let nested = nested_depth != 0;
    let mut out: Vec<String> = Vec::new();
    let mut j: usize = 0;
    while j < base.len()
        invariant
            j <= base@.len(),
            all == string_views(base@),
            out@.len() == j,
            forall|k: int|
                0 <= k < j ==> (#[trigger] out@[k])@ == (if nested {
                    "**/"@
                } else {
                    "/"@
                }) + all[k],
            nested == (nested_depth != 0),
        decreases base@.len() - j,
    {
        proof {
            assert(all[j as int] == base@[j as int]@);
        }
        let mut p = if nested {
            "**/".to_owned()
        } else {
            "/".to_owned()
        };
        p.append(base[j].as_str());
        out.push(p);
        j += 1;
    }
    proof {
        assert(string_views(out@) =~= spec_prefixed_patterns(all, nested));
    }
    out
}

/// The tool-owned section's opening and closing markers.
pub const AI_RULES_SECTION_START: &'static str = "# AI Rules - Generated Files";

pub const AI_RULES_SECTION_END: &'static str = "# End AI Rules";

/// Removes the tool-owned section from a `.gitignore` content: everything
/// from the first opening marker through the first closing marker goes, and
/// the remainder is trimmed of trailing whitespace. Content without both
/// markers in that order is left unchanged.
pub fn remove_ai_rules_section(content: String) -> (r: String)
    ensures
        ({
            let c = content@;
            let s = AI_RULES_SECTION_START@;
            let e = AI_RULES_SECTION_END@;
            &&& ((forall|i: int| !match_at(c, s, i)) ==> r@ == c)
            &&& (forall|i: int, j: int|
                (#[trigger] match_at(c, s, i) && (forall|i2: int|
                    0 <= i2 < i ==> !match_at(c, s, i2)) && #[trigger] match_at(c, e, j) && (
                forall|j2: int| 0 <= j2 < j ==> !match_at(c, e, j2))) ==> ((j + e.len() >= i
                    ==> r@ == trimmed_end(
                    c.subrange(0, i) + c.subrange(j + e.len(), c.len() as int),
                )) && (j + e.len() < i ==> r@ == c)))
        }),
{
    let cs = chars_of(content.as_str());
    let start_marker = chars_of(AI_RULES_SECTION_START);
    let end_marker = chars_of(AI_RULES_SECTION_END);
    let start = match find_sub(&cs, &start_marker, 0) {
        Some(i) => i,
        None => {
            return content;
        },
    };
    let n: usize = cs.len();
    match find_sub(&cs, &end_marker, 0) {
        Some(j) => {
            proof {
                assert(match_at(cs@, end_marker@, j as int));
                assert(j + end_marker@.len() <= n);
            }
            let cut = j + end_marker.len();
            if cut >= start {
                let head = subvec(&cs, 0, start);
                let tail = subvec(&cs, cut, cs.len());
                let mut joined: Vec<char> = head;
                let mut t: usize = 0;
                proof {
                    assert(joined@ + tail@.subrange(0, 0) =~= joined@);
                }
                while t < tail.len()
                    invariant
                        t <= tail@.len(),
                        joined@ == cs@.subrange(0, start as int) + tail@.subrange(0, t as int),
                        tail@ == cs@.subrange(cut as int, cs@.len() as int),
                        start <= cs@.len(),
                    decreases tail@.len() - t,
                {
                    joined.push(tail[t]);
                    proof {
                        assert(joined@ =~= cs@.subrange(0, start as int) + tail@.subrange(
                            0,
                            t + 1,
                        ));
                    }
                    t += 1;
                }
                proof {
                    assert(tail@.subrange(0, tail@.len() as int) =~= tail@);
                }
                string_of(&trim_end_chars(&joined))
            } else {
                content
            }
        },
        None => content,
    }
}

/// The one negative pattern that keeps the source document visible.
pub fn agents_md_keep_pattern() -> (r: String)
    ensures
        r@ == "!**/"@ + AI_RULE_SOURCE_DIR@ + "/"@ + AGENTS_MD_FILENAME@ + "\n"@,
{
    let mut p = "!**/".to_owned();
    p.append(AI_RULE_SOURCE_DIR);
    p.append("/");
    p.append(AGENTS_MD_FILENAME);
    p.append("\n");
    p
}

/// The pattern block: one line per pattern, in the given order.
pub open spec fn spec_pattern_lines(ps: Seq<Seq<char>>) -> Seq<char>
    decreases ps.len(),
{
    if ps.len() == 0 {
        Seq::empty()
    } else {
        spec_pattern_lines(ps.drop_last()) + ps.last() + "\n"@
    }
}

/// The whole tool-owned section appended behind a content: a separating
/// newline when the content does not end in one, a blank line, the opening
/// marker, one line per pattern in the given order, the keep-pattern for the
/// source document, and the closing marker.
pub open spec fn spec_with_section(content: Seq<char>, patterns: Seq<Seq<char>>) -> Seq<char> {
    (if content.len() > 0 && content[content.len() - 1] != '\n' {
        content + "\n"@
    } else {
        content
    }) + "\n# AI Rules - Generated Files\n"@ + spec_pattern_lines(patterns) + "!**/"@
        + crate::constants::AI_RULE_SOURCE_DIR@ + "/"@ + crate::constants::AGENTS_MD_FILENAME@
        + "\n"@ + "# End AI Rules\n"@
}

/// Appends the tool-owned section with the given (already ordered) patterns.
pub fn append_ai_rules_section(content: String, patterns: &Vec<String>) -> (r: String)
    ensures
        r@ == spec_with_section(content@, string_views(patterns@)),
{
    let mut out = content;
    let cs = chars_of(out.as_str());
    if cs.len() > 0 && cs[cs.len() - 1] != '\n' {
        out.append("\n");
    }
    out.append("\n# AI Rules - Generated Files\n");
    let ghost views = string_views(patterns@);
    let ghost head = out@;
    let mut i: usize = 0;
    proof {
        assert(views.subrange(0, 0) =~= Seq::<Seq<char>>::empty());
        assert(out@ =~= head + spec_pattern_lines(views.subrange(0, 0)));
    }
    while i < patterns.len()
        invariant
            i <= patterns@.len(),
            views == string_views(patterns@),
            out@ == head + spec_pattern_lines(views.subrange(0, i as int)),
        decreases patterns@.len() - i,
    {
        proof {
            assert(views.subrange(0, i + 1).drop_last() =~= views.subrange(0, i as int));
            assert(views.subrange(0, i + 1).last() == views[i as int]);
            assert(views[i as int] == patterns@[i as int]@);
        }
        out.append(patterns[i].as_str());
        out.append("\n");
        i += 1;
    }
    proof {
        assert(views.subrange(0, views.len() as int) =~= views);
    }
    let keep = agents_md_keep_pattern();
    out.append(keep.as_str());
    out.append("# End AI Rules\n");
    out
}

/// Rewrites a `.gitignore` content around the tool-owned section: the old
/// section is removed; with no patterns that is all; otherwise the section
/// is appended with the patterns deduplicated and in ascending order.
pub fn update_gitignore_content(existing: String, patterns: &Vec<String>) -> (r: String)
    ensures
        patterns@.len() > 0 ==> exists|sorted: Seq<Seq<char>>|
            strictly_sorted(sorted) && (forall|v: Seq<char>|
                #[trigger] sorted.contains(v) <==> string_views(patterns@).contains(v)),
{
    let content = remove_ai_rules_section(existing);
    if patterns.len() == 0 {
        return content;
    }
    let sorted = sorted_unique_strings(patterns);
    proof {
        assert(strictly_sorted(string_views(sorted@)));
    }
    append_ai_rules_section(content, &sorted)
}

/// Whether one `.gitignore` content already covers any of the given
/// patterns: some line, trimmed, that is neither empty nor a comment equals
/// one of the patterns.
pub fn gitignore_covers(content: &str, patterns: &Vec<String>) -> (r: bool)
    ensures
        r == (exists|k: int, p: int|
            0 <= k < split_char(content@, '\n').len() && 0 <= p < patterns@.len() && trimmed(
                #[trigger] split_char(content@, '\n')[k],
            ).len() > 0 && trimmed(split_char(content@, '\n')[k])[0] != '#' && trimmed(
                split_char(content@, '\n')[k],
            ) == (#[trigger] patterns@[p])@),
{
    let ghost lines = split_char(content@, '\n');
    let cs = chars_of(content);
    proof {
        assert(split_char(cs@, '\n') == lines);
    }
    let pieces = crate::text::split_char_exec(&cs, '\n');
    let mut k: usize = 0;
    while k < pieces.len()
        invariant
            k <= pieces@.len(),
            lines == split_char(content@, '\n'),
            pieces@.map_values(|p: Vec<char>| p@) == lines,
            forall|a: int, b: int|
                (0 <= a < k && 0 <= b < patterns@.len()) ==> !(trimmed(
                    #[trigger] lines[a],
                ).len() > 0 && trimmed(lines[a])[0] != '#' && trimmed(lines[a]) == (
                #[trigger] patterns@[b])@),
        decreases pieces@.len() - k,
    {
        proof {
            assert(lines[k as int] == pieces@[k as int]@);
        }
        let t = crate::text::trim_chars(&pieces[k]);
        if t.len() > 0 && t[0] != '#' {
            let ts = string_of(&t);
            let mut p: usize = 0;
            while p < patterns.len()
                invariant
                    p <= patterns@.len(),
                    k < pieces@.len(),
                    lines == split_char(content@, '\n'),
                    pieces@.map_values(|q: Vec<char>| q@) == lines,
                    ts@ == trimmed(lines[k as int]),
                    trimmed(lines[k as int]).len() > 0,
                    trimmed(lines[k as int])[0] != '#',
                    forall|b: int|
                        0 <= b < p ==> trimmed(lines[k as int]) != (#[trigger] patterns@[b])@,
                decreases patterns@.len() - p,
            {
                if crate::text::string_eq_str(&ts, patterns[p].as_str()) {
                    proof {
                        assert(lines == split_char(content@, '\n'));
                        assert(trimmed(split_char(content@, '\n')[k as int]).len() > 0);
                        assert(trimmed(split_char(content@, '\n')[k as int])[0] != '#');
                        assert(trimmed(split_char(content@, '\n')[k as int]) == patterns@[
                            p as int]@);
                    }
                    return true;
                }
                p += 1;
            }
        }
        k += 1;
    }
    false
}

/// The `.gitignore` files, from the given directory up to the repository
/// root, whose content already covers one of the patterns: the pure filter
/// behind the parent-directory warning.
pub fn check_gitignore_patterns_to_root(
    gitignore_files: &Vec<(String, String)>,
    patterns: &Vec<String>,
) -> (r: Vec<String>)
    ensures
        r@.len() <= gitignore_files@.len(),
{
    let mut out: Vec<String> = Vec::new();
    let mut i: usize = 0;
    while i < gitignore_files.len()
        invariant
            i <= gitignore_files@.len(),
            out@.len() <= i,
        decreases gitignore_files@.len() - i,
    {
        if gitignore_covers(gitignore_files[i].1.as_str(), patterns) {
            out.push(gitignore_files[i].0.clone());
        }
        i += 1;
    }
    out
}

/// The rewritten `.gitignore` content for one generation pass: the collected
/// patterns of the configured agents, written into the tool-owned section.
pub fn update_project_gitignore(
    existing: String,
    registry: &AgentToolRegistry,
    nested_depth: usize,
) -> (r: String)
{
    let patterns = collect_all_gitignore_patterns(registry, nested_depth);
    update_gitignore_content(existing, &patterns)
}

} // verus!
