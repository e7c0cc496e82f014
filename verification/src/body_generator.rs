//! Materializing rule bodies and composing the reference documents.

use vstd::prelude::*;

use crate::optional_rules::{
    any_optional, generate_optional_rules_content, has_optional, optional_rules_filename_for_agent,
    spec_optional_filename, spec_optional_index,
};
use crate::paths::{
    generated_body_file_dir, generated_body_file_reference_path, joined, spec_body_file_dir,
    spec_reference_path,
};
use crate::source_file::{
    applicable_views, body_file_name_of, filter_source_files_for_agent,
    filter_source_files_for_agent_group, group_applicable_views, rule_views, RuleView, SourceFile,
};
use crate::text::{ensure_trailing_newline, with_trailing_newline};
use vstd::string::StrSliceExecFns;

verus! {

/// The agents that share the pooled `AGENTS.md` output convention.
pub open spec fn spec_agents_md_agents() -> Seq<Seq<char>> {
    seq!["amp"@, "cline"@, "codex"@, "copilot"@, "goose"@, "kilocode"@, "roo"@]
}

/// The name under which the pooled agents' shared artifacts are filed.
pub const AGENTS_MD_GROUP_NAME: &'static str = "agents-md";

pub fn agents_md_agents() -> (r: Vec<String>)
    ensures
        r@.map_values(|s: String| s@) == spec_agents_md_agents(),
{
    let mut v: Vec<String> = Vec::new();
    v.push("amp".to_owned());
    v.push("cline".to_owned());
    v.push("codex".to_owned());
    v.push("copilot".to_owned());
    v.push("goose".to_owned());
    v.push("kilocode".to_owned());
    v.push("roo".to_owned());
    proof {
        assert(v@.map_values(|s: String| s@) =~= spec_agents_md_agents());
    }
    v
}

/// Whether the named agent files its artifacts under the pooled group.
pub open spec fn spec_in_agents_md_group(agent: Seq<char>) -> bool {
    exists|k: int|
        0 <= k < spec_agents_md_agents().len() && #[trigger] spec_agents_md_agents()[k] == agent
}

pub fn in_agents_md_group(agent_name: &str) -> (r: bool)
    ensures
        r == spec_in_agents_md_group(agent_name@),
{
    let group = agents_md_agents();
    let mut i: usize = 0;
    while i < group.len()
        invariant
            i <= group@.len(),
            group@.map_values(|s: String| s@) == spec_agents_md_agents(),
            forall|k: int| 0 <= k < i ==> #[trigger] spec_agents_md_agents()[k] != agent_name@,
        decreases group@.len() - i,
    {
        proof {
            assert(spec_agents_md_agents()[i as int] == group@[i as int]@);
        }
        if crate::text::string_eq_str(&group[i], agent_name) {
            return true;
        }
        i += 1;
    }
    false
}

/// One generated body file per rule: its deterministic name under the hidden
/// generated directory, and its body with the trailing newline guaranteed.
pub open spec fn spec_body_file_entry(rv: RuleView, dir: Seq<char>) -> (Seq<char>, Seq<char>) {
    (
        joined(spec_body_file_dir(dir), body_file_name_of(rv.base_file_name)),
        with_trailing_newline(rv.body),
    )
}

pub open spec fn spec_body_contents(rules: Seq<RuleView>, dir: Seq<char>) -> Seq<
    (Seq<char>, Seq<char>),
> {
    rules.map_values(|rv: RuleView| spec_body_file_entry(rv, dir))
}

/// The views of a path-to-content list.
pub open spec fn entry_views(m: Seq<(String, String)>) -> Seq<(Seq<char>, Seq<char>)> {
    m.map_values(|e: (String, String)| (e.0@, e.1@))
}

/// Materializes every rule's body file (whatever its apply mode): one entry
/// per rule, in order; an empty rule set yields no entry at all.
pub fn generate_body_contents(source_files: &Vec<SourceFile>, current_dir: &str) -> (r: Vec<
    (String, String),
>)
    ensures
        entry_views(r@) == spec_body_contents(rule_views(source_files@), current_dir@),
{
    let ghost views = rule_views(source_files@);
    let mut out: Vec<(String, String)> = Vec::new();
    let generated_dir = generated_body_file_dir(current_dir);
    let mut i: usize = 0;
    proof {
        assert(entry_views(out@) =~= spec_body_contents(views.subrange(0, 0), current_dir@));
    }
    while i < source_files.len()
        invariant
            i <= source_files@.len(),
            views == rule_views(source_files@),
            generated_dir@ == spec_body_file_dir(current_dir@),
            entry_views(out@) == spec_body_contents(views.subrange(0, i as int), current_dir@),
        decreases source_files@.len() - i,
    {
        proof {
            assert(views[i as int] == source_files@[i as int]@);
        }
        let body_file_name = source_files[i].get_body_file_name();
        let file_path = crate::paths::join_path(generated_dir.as_str(), body_file_name.as_str());
        let content = ensure_trailing_newline(source_files[i].body.clone());
        out.push((file_path, content));
        proof {
            assert(entry_views(out@) =~= spec_body_contents(
                views.subrange(0, i + 1),
                current_dir@,
            )) by {
                assert(views.subrange(0, i + 1) =~= views.subrange(0, i as int).push(
                    views[i as int],
                ));
                assert(entry_views(out@) =~= entry_views(out@.drop_last()).push(
                    (out@.last().0@, out@.last().1@),
                ));
                assert(spec_body_contents(views.subrange(0, i as int).push(views[i as int]), current_dir@)
                    =~= spec_body_contents(views.subrange(0, i as int), current_dir@).push(
                    spec_body_file_entry(views[i as int], current_dir@),
                ));
            }
        }
        i += 1;
    }
    proof {
        assert(views.subrange(0, views.len() as int) =~= views);
    }
    out
}

/// One reference line: `@`, the generated body's path, and a newline.
pub open spec fn spec_reference_line(rv: RuleView) -> Seq<char> {
    "@"@ + spec_reference_path(body_file_name_of(rv.base_file_name)) + "\n"@
}

/// The reference lines of the required rules of a set, in declaration order.
pub open spec fn spec_required_references(rules: Seq<RuleView>) -> Seq<char>
    decreases rules.len(),
{
    if rules.len() == 0 {
        Seq::empty()
    } else {
        spec_required_references(rules.drop_last()) + if rules.last().front_matter.always_apply {
            spec_reference_line(rules.last())
        } else {
            Seq::empty()
        }
    }
}

/// One reference line per required rule, in declaration order; optional
/// rules contribute nothing here.
pub fn generate_required_rule_references(source_files: &Vec<SourceFile>) -> (r: String)
    ensures
        r@ == spec_required_references(rule_views(source_files@)),
{
    let ghost views = rule_views(source_files@);
    let mut content = String::new();
    let mut i: usize = 0;
    proof {
        assert(views.subrange(0, 0) =~= Seq::<RuleView>::empty());
        assert(content@ =~= spec_required_references(views.subrange(0, 0)));
    }
    while i < source_files.len()
        invariant
            i <= source_files@.len(),
            views == rule_views(source_files@),
            content@ == spec_required_references(views.subrange(0, i as int)),
        decreases source_files@.len() - i,
    {
        proof {
            assert(views.subrange(0, i + 1).drop_last() =~= views.subrange(0, i as int));
            assert(views.subrange(0, i + 1).last() == views[i as int]);
            assert(views[i as int] == source_files@[i as int]@);
        }
        if source_files[i].front_matter.always_apply {
            let body_file_name = source_files[i].get_body_file_name();
            let generated_path = generated_body_file_reference_path(body_file_name.as_str());
            content.append("@");
            content.append(generated_path.as_str());
            content.append("\n");
        }
        i += 1;
    }
    proof {
        assert(views.subrange(0, views.len() as int) =~= views);
    }
    content
}

/// The whole reference document for one agent (or group): the required
/// reference lines, then — only when the set holds optional rules — a blank
/// line and a reference to that agent's optional-rules index.
pub open spec fn spec_all_references(rules: Seq<RuleView>, agent: Seq<char>) -> Seq<char> {
    spec_required_references(rules) + if has_optional(rules) {
        "\n@"@ + spec_reference_path(spec_optional_filename(agent)) + "\n"@
    } else {
        Seq::empty()
    }
}

/// Builds the reference document for one agent or group name.
pub fn generate_all_rule_references_for_agent(
    source_files: &Vec<SourceFile>,
    agent_name: &str,
) -> (r: String)
    ensures
        r@ == spec_all_references(rule_views(source_files@), agent_name@),
{
    let mut content = generate_required_rule_references(source_files);
    if any_optional(source_files) {
        let optional_filename = optional_rules_filename_for_agent(agent_name);
        let optional_path = generated_body_file_reference_path(optional_filename.as_str());
        content.append("\n@");
        content.append(optional_path.as_str());
        content.append("\n");
    }
    content
}

/// The optional-index documents that a generation pass materializes: one
/// pooled document for the `AGENTS.md` group when any selected agent belongs
/// to it, then one per other selected agent, each filtered to the rules that
/// apply and omitted when its content would be empty.
pub open spec fn spec_optional_index_files(
    rules: Seq<RuleView>,
    dir: Seq<char>,
    agents: Seq<Seq<char>>,
) -> Seq<(Seq<char>, Seq<char>)> {
    spec_group_index_file(rules, dir, agents) + spec_agent_index_files(rules, dir, agents)
}

/// The pooled group's index entry, when a selected agent belongs to the
/// group and the group-filtered content is non-empty.
pub open spec fn spec_group_index_file(
    rules: Seq<RuleView>,
    dir: Seq<char>,
    agents: Seq<Seq<char>>,
) -> Seq<(Seq<char>, Seq<char>)> {
    let filtered = group_applicable_views(rules, spec_agents_md_agents());
    if (exists|k: int|
        0 <= k < agents.len() && spec_in_agents_md_group(#[trigger] agents[k]))
        && spec_optional_index(filtered).len() > 0 {
        seq![
            (
                joined(spec_body_file_dir(dir), spec_optional_filename(AGENTS_MD_GROUP_NAME@)),
                spec_optional_index(filtered),
            ),
        ]
    } else {
        Seq::empty()
    }
}

/// The per-agent index entries for the selected agents outside the pooled
/// group, in selection order, each omitted when empty.
pub open spec fn spec_agent_index_files(
    rules: Seq<RuleView>,
    dir: Seq<char>,
    agents: Seq<Seq<char>>,
) -> Seq<(Seq<char>, Seq<char>)>
    decreases agents.len(),
{
    if agents.len() == 0 {
        Seq::empty()
    } else {
        let rest = spec_agent_index_files(rules, dir, agents.drop_last());
        let agent = agents.last();
        let filtered = applicable_views(rules, agent);
        if !spec_in_agents_md_group(agent) && spec_optional_index(filtered).len() > 0 {
            rest.push(
                (
                    joined(spec_body_file_dir(dir), spec_optional_filename(agent)),
                    spec_optional_index(filtered),
                ),
            )
        } else {
            rest
        }
    }
}

/// Materializes the optional-rules index documents for the selected agents.
pub fn generate_optional_rule_files_for_agents(
    source_files: &Vec<SourceFile>,
    current_dir: &str,
    agents: &Vec<String>,
) -> (r: Vec<(String, String)>)
    ensures
        entry_views(r@) == spec_optional_index_files(
            rule_views(source_files@),
            current_dir@,
            agents@.map_values(|s: String| s@),
        ),
{
    let ghost views = rule_views(source_files@);
    let ghost agent_views = agents@.map_values(|s: String| s@);
    let mut out: Vec<(String, String)> = Vec::new();
    let generated_dir = generated_body_file_dir(current_dir);

    let mut any_group: bool = false;
    let mut gi: usize = 0;
    while gi < agents.len()
        invariant
            gi <= agents@.len(),
            agent_views == agents@.map_values(|s: String| s@),
            any_group == (exists|k: int|
                0 <= k < gi && spec_in_agents_md_group(#[trigger] agent_views[k])),
        decreases agents@.len() - gi,
    {
        proof {
            assert(agent_views[gi as int] == agents@[gi as int]@);
        }
        if in_agents_md_group(agents[gi].as_str()) {
            any_group = true;
            proof {
                assert(spec_in_agents_md_group(agent_views[gi as int]));
            }
        }
        gi += 1;
    }
    assert(any_group == (exists|k: int|
        0 <= k < agent_views.len() && spec_in_agents_md_group(#[trigger] agent_views[k])));

    if any_group {
        let group = agents_md_agents();
        let filtered = filter_source_files_for_agent_group(source_files, &group);
        let optional_content = generate_optional_rules_content(&filtered);
        if optional_content.as_str().unicode_len() > 0 {
            let optional_filename = optional_rules_filename_for_agent(AGENTS_MD_GROUP_NAME);
            let path = crate::paths::join_path(generated_dir.as_str(), optional_filename.as_str());
            out.push((path, optional_content));
        }
    }
    proof {
        assert(entry_views(out@) =~= spec_group_index_file(views, current_dir@, agent_views));
    }

    let ghost group_part = spec_group_index_file(views, current_dir@, agent_views);
    let mut i: usize = 0;
    proof {
        assert(spec_agent_index_files(views, current_dir@, agent_views.subrange(0, 0))
            =~= Seq::<(Seq<char>, Seq<char>)>::empty());
        assert(entry_views(out@) =~= group_part + spec_agent_index_files(
            views,
            current_dir@,
            agent_views.subrange(0, 0),
        ));
    }
    while i < agents.len()
        invariant
            i <= agents@.len(),
            views == rule_views(source_files@),
            agent_views == agents@.map_values(|s: String| s@),
            generated_dir@ == spec_body_file_dir(current_dir@),
            group_part == spec_group_index_file(views, current_dir@, agent_views),
            entry_views(out@) == group_part + spec_agent_index_files(
                views,
                current_dir@,
                agent_views.subrange(0, i as int),
            ),
        decreases agents@.len() - i,
    {
        proof {
            assert(agent_views.subrange(0, i + 1).drop_last() =~= agent_views.subrange(
                0,
                i as int,
            ));
            assert(agent_views.subrange(0, i + 1).last() == agent_views[i as int]);
            assert(agent_views[i as int] == agents@[i as int]@);
        }
        if !in_agents_md_group(agents[i].as_str()) {
            let filtered = filter_source_files_for_agent(source_files, agents[i].as_str());
            let optional_content = generate_optional_rules_content(&filtered);
            if optional_content.as_str().unicode_len() > 0 {
                let optional_filename = optional_rules_filename_for_agent(agents[i].as_str());
                let path = crate::paths::join_path(
                    generated_dir.as_str(),
                    optional_filename.as_str(),
                );
                let ghost prev = out@;
                out.push((path, optional_content));
                proof {
                    let agent = agent_views[i as int];
                    assert(out@.drop_last() =~= prev);
                    assert(out@.last().0@ == joined(
                        spec_body_file_dir(current_dir@),
                        spec_optional_filename(agent),
                    ));
                    assert(out@.last().1@ == spec_optional_index(applicable_views(views, agent)));
                    assert(entry_views(out@) =~= entry_views(out@.drop_last()).push(
                        (out@.last().0@, out@.last().1@),
                    ));
                    assert(entry_views(out@) =~~= group_part + spec_agent_index_files(
                        views,
                        current_dir@,
                        agent_views.subrange(0, i + 1),
                    ));
                }
            } else {
                proof {
                    assert(entry_views(out@) =~= group_part + spec_agent_index_files(
                        views,
                        current_dir@,
                        agent_views.subrange(0, i + 1),
                    ));
                }
            }
        } else {
            proof {
                assert(entry_views(out@) =~= group_part + spec_agent_index_files(
                    views,
                    current_dir@,
                    agent_views.subrange(0, i + 1),
                ));
            }
        }
        i += 1;
    }
    proof {
        assert(agent_views.subrange(0, agent_views.len() as int) =~= agent_views);
    }
    out
}

/// One rule inlined: a `# <description>` heading when the rule has a
/// description, then its body with the trailing newline guaranteed.
pub open spec fn spec_inline_block(rv: RuleView) -> Seq<char> {
    (if rv.front_matter.description.len() > 0 {
        "# "@ + rv.front_matter.description + "\n\n"@
    } else {
        Seq::<char>::empty()
    }) + with_trailing_newline(rv.body)
}

/// The required rules inlined in order, one blank line between blocks.
pub open spec fn spec_inlined_required(rules: Seq<RuleView>) -> Seq<char>
    decreases rules.len(),
{
    if rules.len() == 0 {
        Seq::empty()
    } else {
        let rest = spec_inlined_required(rules.drop_last());
        if rules.last().front_matter.always_apply {
            if rest.len() == 0 {
                spec_inline_block(rules.last())
            } else {
                rest + "\n"@ + spec_inline_block(rules.last())
            }
        } else {
            rest
        }
    }
}

/// The fully inlined document: the required rules in order, and — when any
/// rule is optional — the optional-rules index appended as one more block.
pub open spec fn spec_inlined_content(rules: Seq<RuleView>) -> Seq<char> {
    let head = spec_inlined_required(rules);
    if has_optional(rules) {
        if head.len() == 0 {
            spec_optional_index(rules)
        } else {
            head + "\n"@ + spec_optional_index(rules)
        }
    } else {
        head
    }
}

/// Inlines the whole rule set into one document, for agents that take full
/// content instead of references.
pub fn generate_inlined_agents_content(source_files: &Vec<SourceFile>) -> (r: String)
    ensures
        r@ == spec_inlined_content(rule_views(source_files@)),
{
    let ghost views = rule_views(source_files@);
    let mut head = String::new();
    let mut i: usize = 0;
    proof {
        assert(views.subrange(0, 0) =~= Seq::<RuleView>::empty());
        assert(head@ =~= spec_inlined_required(views.subrange(0, 0)));
    }
    while i < source_files.len()
        invariant
            i <= source_files@.len(),
            views == rule_views(source_files@),
            head@ == spec_inlined_required(views.subrange(0, i as int)),
        decreases source_files@.len() - i,
    {
        proof {
            assert(views.subrange(0, i + 1).drop_last() =~= views.subrange(0, i as int));
            assert(views.subrange(0, i + 1).last() == views[i as int]);
            assert(views[i as int] == source_files@[i as int]@);
        }
        if source_files[i].front_matter.always_apply {
            let mut block = String::new();
            if source_files[i].front_matter.description.as_str().unicode_len() > 0 {
                block.append("# ");
                block.append(source_files[i].front_matter.description.as_str());
                block.append("\n\n");
            }
            let body = ensure_trailing_newline(source_files[i].body.clone());
            block.append(body.as_str());
            proof {
                if source_files@[i as int].front_matter.description@.len() == 0 {
                    assert(block@ =~= spec_inline_block(views[i as int]));
                }
            }
            if head.as_str().unicode_len() > 0 {
                head.append("\n");
            }
            head.append(block.as_str());
        }
        i += 1;
    }
    proof {
        assert(views.subrange(0, views.len() as int) =~= views);
    }
    if any_optional(source_files) {
        let index = generate_optional_rules_content(source_files);
        if head.as_str().unicode_len() > 0 {
            head.append("\n");
        }
        head.append(index.as_str());
    }
    head
}

} // verus!
