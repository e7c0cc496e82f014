//! The properties the artifact pipeline promises, stated and proved on
//! their own: what a reader should be able to rely on without re-deriving
//! it from the generators' contracts.

use vstd::prelude::*;

use crate::body_generator::{
    entry_views, spec_all_references, spec_body_contents, spec_reference_line,
    spec_required_references,
};
use crate::cleaner::spec_prefixed;
use crate::constants::GENERATED_FILE_PREFIX;
use crate::file_utils::{all_expected_present, listing_has};
use crate::frontmatter::fm_delim;
use crate::markdown_based::spec_markdown_agent_contents;
use crate::optional_rules::{spec_optional_entries, spec_optional_entry};
use crate::source_file::RuleView;
use crate::source_reader::spec_symlink_mode;
use crate::text::{starts_with, with_trailing_newline};

verus! {

/// Generating is deterministic: two runs over the same rules produce
/// byte-identical artifact sets, because every generator's output is pinned
/// to one spec-level artifact set.
pub proof fn lemma_generation_deterministic(
    r1: Seq<(String, String)>,
    r2: Seq<(String, String)>,
    rules: Seq<RuleView>,
    dir: Seq<char>,
)
    requires
        entry_views(r1) == spec_body_contents(rules, dir),
        entry_views(r2) == spec_body_contents(rules, dir),
    ensures
        entry_views(r1) == entry_views(r2),
{
}

/// A freshly generated artifact set matches itself: every expected file is
/// present with identical content in a listing that holds exactly the
/// generated files. With the exact-match check this is what makes `check`
/// report in-sync immediately after `generate`, for every directory-shaped
/// generator.
pub proof fn lemma_listing_matches_itself(expected: Seq<(Seq<char>, Seq<char>)>)
    ensures
        all_expected_present(expected, expected),
{
    assert forall|k: int| 0 <= k < expected.len() implies listing_has(
        expected,
        (#[trigger] expected[k]).0,
        expected[k].1,
    ) by {
        assert(expected[k].0 == expected[k].0 && expected[k].1 == expected[k].1);
    }
}

/// Check-after-generate for a single-file agent: with rules present, the
/// output file holding exactly the generated reference document reports
/// in-sync; with no rules, the absent file reports in-sync.
pub proof fn lemma_single_file_in_sync_after_generate(rules: Seq<RuleView>, agent: Seq<char>)
    ensures
        crate::single_file_based::spec_single_file_in_sync(
            rules,
            agent,
            if rules.len() == 0 {
                None
            } else {
                Some(spec_all_references(rules, agent))
            },
        ),
{
}

/// Check-after-generate for a directory-shaped agent: a directory holding
/// exactly the generated markdown artifact set reports in-sync.
pub proof fn lemma_markdown_in_sync_after_generate(
    rules: Seq<RuleView>,
    dir: Seq<char>,
    agent_dir: Seq<char>,
    rules_subdir: Option<Seq<char>>,
)
    ensures
        ({
            let e = spec_markdown_agent_contents(rules, dir, agent_dir, rules_subdir);
            all_expected_present(e, e)
        }),
{
    lemma_listing_matches_itself(spec_markdown_agent_contents(rules, dir, agent_dir, rules_subdir));
}

/// Prefix safety: a file whose name lacks the reserved generated-file
/// prefix is never selected for deletion, even when it sits beside
/// generated files in the same directory.
pub proof fn lemma_clean_prefix_safety(names: Seq<Seq<char>>, name: Seq<char>)
    requires
        !starts_with(name, GENERATED_FILE_PREFIX@),
    ensures
        !spec_prefixed(names, GENERATED_FILE_PREFIX@).contains(name),
{
    crate::cleaner::lemma_prefix_safety(names, name);
}

/// Round trip for a required rule: its generated body file holds exactly the
/// rule's body with one trailing newline, and the reference document can be
/// split around exactly its reference line.
pub proof fn lemma_round_trip(rules: Seq<RuleView>, dir: Seq<char>, k: int)
    requires
        0 <= k < rules.len(),
        rules[k].front_matter.always_apply,
    ensures
        spec_body_contents(rules, dir)[k].1 == with_trailing_newline(rules[k].body),
        exists|a: Seq<char>, b: Seq<char>|
            spec_required_references(rules) == #[trigger] (a + (spec_reference_line(rules[k]) + b)),
{
    lemma_required_references_split(rules, k);
}

proof fn lemma_required_references_split(rules: Seq<RuleView>, k: int)
    requires
        0 <= k < rules.len(),
        rules[k].front_matter.always_apply,
    ensures
        exists|a: Seq<char>, b: Seq<char>|
            spec_required_references(rules) == #[trigger] (a + (spec_reference_line(rules[k]) + b)),
    decreases rules.len(),
{
    if k == rules.len() - 1 {
        let a = spec_required_references(rules.drop_last());
        let b = Seq::<char>::empty();
        assert(rules.last() == rules[k]);
        assert(spec_reference_line(rules[k]) + b =~= spec_reference_line(rules[k]));
        assert(spec_required_references(rules) == a + (spec_reference_line(rules[k]) + b));
    } else {
        lemma_required_references_split(rules.drop_last(), k);
        let (a, b0): (Seq<char>, Seq<char>) = choose|a: Seq<char>, b0: Seq<char>|
            spec_required_references(rules.drop_last()) == #[trigger] (a + (spec_reference_line(
                rules.drop_last()[k],
            ) + b0));
        assert(rules.drop_last()[k] == rules[k]);
        let tail = if rules.last().front_matter.always_apply {
            spec_reference_line(rules.last())
        } else {
            Seq::<char>::empty()
        };
        let b = b0 + tail;
        assert(spec_required_references(rules) == a + (spec_reference_line(rules[k]) + b)) by {
            assert(spec_required_references(rules) == (a + (spec_reference_line(rules[k]) + b0))
                + tail);
            assert((a + (spec_reference_line(rules[k]) + b0)) + tail =~= a + (spec_reference_line(
                rules[k],
            ) + (b0 + tail)));
        }
    }
}

/// The models of the optional rules of a set, in declaration order.
pub open spec fn optional_rule_views(rules: Seq<RuleView>) -> Seq<RuleView> {
    rules.filter(|rv: RuleView| !rv.front_matter.always_apply)
}

/// The concatenated index entries of every rule of a set, in order.
pub open spec fn spec_all_entries(rules: Seq<RuleView>) -> Seq<char>
    decreases rules.len(),
{
    if rules.len() == 0 {
        Seq::empty()
    } else {
        spec_all_entries(rules.drop_last()) + spec_optional_entry(rules.last())
    }
}

/// Optional aggregation order: the optional-rules index lists exactly the
/// optional rules, each exactly once, in declaration order — it is the
/// entry-by-entry rendering of the optional rules in their given order, and
/// holds no entry for any always-apply rule.
pub proof fn lemma_optional_index_order(rules: Seq<RuleView>)
    ensures
        spec_optional_entries(rules) == spec_all_entries(optional_rule_views(rules)),
    decreases rules.len(),
{
    reveal(Seq::filter);
    if rules.len() == 0 {
        assert(optional_rule_views(rules) =~= Seq::<RuleView>::empty());
    } else {
        lemma_optional_index_order(rules.drop_last());
        assert(rules.drop_last() =~= rules.drop_last());
        if !rules.last().front_matter.always_apply {
            assert(optional_rule_views(rules) == optional_rule_views(rules.drop_last()).push(
                rules.last(),
            ));
            assert(spec_all_entries(optional_rule_views(rules.drop_last()).push(rules.last()))
                == spec_all_entries(optional_rule_views(rules.drop_last())) + spec_optional_entry(
                rules.last(),
            )) by {
                assert(optional_rule_views(rules.drop_last()).push(rules.last()).drop_last()
                    =~= optional_rule_views(rules.drop_last()));
            }
        } else {
            assert(optional_rule_views(rules) == optional_rule_views(rules.drop_last()));
        }
    }
}

/// Symlink-mode exclusivity, one direction: with more than one rule document
/// the mode is off for every agent, whatever any file holds.
pub proof fn lemma_symlink_mode_needs_single_file(
    names: Seq<Seq<char>>,
    content: Option<Seq<char>>,
)
    requires
        names.len() != 1,
    ensures
        !spec_symlink_mode(names, content),
{
}

/// Symlink-mode exclusivity, the other direction: a frontmatter block in the
/// single document switches the mode off.
pub proof fn lemma_symlink_mode_needs_pure_markdown(names: Seq<Seq<char>>, content: Seq<char>)
    requires
        starts_with(crate::text::trimmed_start(content), fm_delim()),
    ensures
        !spec_symlink_mode(names, Some(content)),
{
}

/// Base names are collision-free: two rules with different (segment-free)
/// base names get different generated body files, so one rule root never
/// maps two rules onto one artifact.
pub proof fn lemma_body_file_names_collision_free(a: Seq<char>, b: Seq<char>)
    requires
        a != b,
        forall|i: int| 0 <= i < a.len() ==> a[i] != '/',
        forall|i: int| 0 <= i < b.len() ==> b[i] != '/',
    ensures
        crate::source_file::body_file_name_of(a) != crate::source_file::body_file_name_of(b),
{
    assert(!(exists|i: int| 0 <= i < a.len() && a[i] == '/'));
    assert(!(exists|i: int| 0 <= i < b.len() && b[i] == '/'));
    assert(crate::text::path_file_name(a) == a);
    assert(crate::text::path_file_name(b) == b);
    let p = GENERATED_FILE_PREFIX@;
    let s = ".md"@;
    let na = p + a + s;
    let nb = p + b + s;
    if na == nb {
        assert(na.len() == p.len() + a.len() + s.len());
        assert(nb.len() == p.len() + b.len() + s.len());
        assert(a.len() == b.len());
        assert(a =~= b) by {
            assert forall|i: int| 0 <= i < a.len() implies a[i] == b[i] by {
                assert(na[p.len() + i] == a[i]);
                assert(nb[p.len() + i] == b[i]);
            }
        }
    }
}

/// The settings rewrite touches nothing but its own member: every other key
/// of the settings document keeps its binding, whatever the rewrite puts
/// under `mcpServers`.
pub proof fn lemma_settings_update_preserves_unrelated_keys(
    base: Seq<(Seq<char>, crate::json::JsonView)>,
    servers: crate::json::JsonView,
    other: Seq<char>,
)
    requires
        other != "mcpServers"@,
    ensures
        crate::json::spec_get(
            crate::json::spec_upsert(base, "mcpServers"@, servers),
            other,
        ) == crate::json::spec_get(base, other),
{
    crate::json::lemma_upsert_preserves_other_keys(base, "mcpServers"@, servers, other);
}

/// Applying one overlay document twice is the same as applying it once, for
/// any overlay in which no object binds a key twice (as no parsed JSON
/// document does; an overlay with a duplicated key can reorder the
/// duplicate's bindings on the second pass and is left out).
pub proof fn lemma_overlay_merge_idempotent(
    base: crate::json::JsonView,
    overlay: crate::json::JsonView,
)
    requires
        crate::json::spec_unique_json_keys(overlay),
    ensures
        crate::json::spec_merge(crate::json::spec_merge(base, overlay), overlay)
            == crate::json::spec_merge(base, overlay),
{
    crate::json::lemma_merge_idempotent(base, overlay);
}

} // verus!
