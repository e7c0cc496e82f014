//! The optional-rules index: one document per agent (or agent group) listing
//! every optional rule, in declaration order.

use vstd::prelude::*;

use crate::constants::OPTIONAL_RULES_HEADER;
use crate::paths::{generated_body_file_reference_path, spec_reference_path};
use crate::source_file::{body_file_name_of, rule_views, RuleView, SourceFile};

verus! {

/// A rule set holds at least one optional rule.
pub open spec fn has_optional(rules: Seq<RuleView>) -> bool {
    exists|k: int| 0 <= k < rules.len() && !(#[trigger] rules[k]).front_matter.always_apply
}

/// The name of the optional-rules index document for one agent or group.
pub open spec fn spec_optional_filename(agent: Seq<char>) -> Seq<char> {
    "ai-rules-generated-optional-"@ + agent + ".md"@
}

pub fn optional_rules_filename_for_agent(agent_name: &str) -> (r: String)
    ensures
        r@ == spec_optional_filename(agent_name@),
{
    let mut out = "ai-rules-generated-optional-".to_owned();
    out.append(agent_name);
    out.append(".md");
    out
}

/// One index entry: the rule's description, a colon, and the path of its
/// generated body, closed by a blank line.
pub open spec fn spec_optional_entry(rv: RuleView) -> Seq<char> {
    rv.front_matter.description + ": "@ + spec_reference_path(
        body_file_name_of(rv.base_file_name),
    ) + "\n\n"@
}

/// The index entries of the optional rules of a set, in declaration order.
pub open spec fn spec_optional_entries(rules: Seq<RuleView>) -> Seq<char>
    decreases rules.len(),
{
    if rules.len() == 0 {
        Seq::empty()
    } else {
        spec_optional_entries(rules.drop_last()) + if !rules.last().front_matter.always_apply {
            spec_optional_entry(rules.last())
        } else {
            Seq::empty()
        }
    }
}

/// The whole index document: empty when the set has no optional rule, else
/// the shared header followed by the entries.
pub open spec fn spec_optional_index(rules: Seq<RuleView>) -> Seq<char> {
    if has_optional(rules) {
        OPTIONAL_RULES_HEADER@ + spec_optional_entries(rules)
    } else {
        Seq::empty()
    }
}

/// Whether any rule of the set is optional.
pub fn any_optional(source_files: &Vec<SourceFile>) -> (r: bool)
    ensures
        r == has_optional(rule_views(source_files@)),
{
    let ghost views = rule_views(source_files@);
    let mut i: usize = 0;
    while i < source_files.len()
        invariant
            i <= source_files@.len(),
            views == rule_views(source_files@),
            forall|k: int| 0 <= k < i ==> (#[trigger] views[k]).front_matter.always_apply,
        decreases source_files@.len() - i,
    {
        if !source_files[i].front_matter.always_apply {
            assert(views[i as int] == source_files@[i as int]@);
            return true;
        }
        proof {
            assert(views[i as int] == source_files@[i as int]@);
        }
        i += 1;
    }
    false
}

/// Builds the optional-rules index for a rule set: empty when no rule is
/// optional, otherwise the shared header followed by one entry per optional
/// rule, in the set's order, each entry followed by a blank line. A rule
/// with an empty description still gets its entry.
pub fn generate_optional_rules_content(source_files: &Vec<SourceFile>) -> (r: String)
    ensures
        r@ == spec_optional_index(rule_views(source_files@)),
{
    let ghost views = rule_views(source_files@);
    if !any_optional(source_files) {
        return String::new();
    }

    let mut entries = String::new();
    let mut i: usize = 0;
    proof {
        assert(views.subrange(0, 0) =~= Seq::<RuleView>::empty());
        assert(entries@ =~= spec_optional_entries(views.subrange(0, 0)));
    }
    while i < source_files.len()
        invariant
            i <= source_files@.len(),
            views == rule_views(source_files@),
            entries@ == spec_optional_entries(views.subrange(0, i as int)),
        decreases source_files@.len() - i,
    {
        proof {
            assert(views.subrange(0, i + 1).drop_last() =~= views.subrange(0, i as int));
            assert(views.subrange(0, i + 1).last() == views[i as int]);
            assert(views[i as int] == source_files@[i as int]@);
        }
        if !source_files[i].front_matter.always_apply {
            let body_file_name = source_files[i].get_body_file_name();
            let generated_path = generated_body_file_reference_path(body_file_name.as_str());
            entries.append(source_files[i].front_matter.description.as_str());
            entries.append(": ");
            entries.append(generated_path.as_str());
            entries.append("\n\n");
        }
        i += 1;
    }
    proof {
        assert(views.subrange(0, views.len() as int) =~= views);
    }
    let mut out = OPTIONAL_RULES_HEADER.to_owned();
    out.append(entries.as_str());
    out
}

} // verus!
