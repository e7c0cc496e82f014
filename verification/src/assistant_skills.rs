//! Skill bundles for optional rules: one directory per optional rule, each
//! holding a small manifest that points at the rule's generated body.

use vstd::prelude::*;

use crate::body_generator::entry_views;
use crate::constants::{ASSISTANT_SKILLS_DIR, GENERATED_FILE_PREFIX, SKILL_FILENAME};
use crate::file_utils::all_expected_present;
use crate::paths::{generated_body_file_reference_path, join_path, joined, spec_reference_path};
use crate::source_file::{body_file_name_of, lower_char, lower_seq, rule_views, RuleView, SourceFile};
use crate::text::{chars_of, string_of, subvec};

verus! {

/// The characters a skill name may hold: lowercase letters, digits, hyphens.
pub open spec fn is_skill_char(c: char) -> bool {
    ('a' <= c && c <= 'z') || ('0' <= c && c <= '9') || c == '-'
}

/// Every disallowed character replaced by a hyphen.
pub open spec fn hyphened(s: Seq<char>) -> Seq<char> {
    s.map_values(
        |c: char|
            if is_skill_char(c) {
                c
            } else {
                '-'
            },
    )
}

/// Runs of hyphens collapsed to a single hyphen.
pub open spec fn collapsed(s: Seq<char>) -> Seq<char>
    decreases s.len(),
{
    if s.len() == 0 {
        Seq::empty()
    } else {
        let p = collapsed(s.drop_last());
        if s.last() == '-' && p.len() > 0 && p.last() == '-' {
            p
        } else {
            p.push(s.last())
        }
    }
}

pub open spec fn trim_hyphens_start(s: Seq<char>) -> Seq<char>
    decreases s.len(),
{
    if s.len() > 0 && s[0] == '-' {
        trim_hyphens_start(s.drop_first())
    } else {
        s
    }
}

pub open spec fn trim_hyphens_end(s: Seq<char>) -> Seq<char>
    decreases s.len(),
{
    if s.len() > 0 && s[s.len() - 1] == '-' {
        trim_hyphens_end(s.drop_last())
    } else {
        s
    }
}

pub open spec fn truncated64(s: Seq<char>) -> Seq<char> {
    if s.len() > 64 {
        s.subrange(0, 64)
    } else {
        s
    }
}

/// A description turned into a legal skill name: lowercased, disallowed
/// characters collapsed to single hyphens, trimmed of hyphens, cut to 64
/// characters, and trimmed of any hyphen the cut exposed.
pub open spec fn spec_sanitized(s: Seq<char>) -> Seq<char> {
    trim_hyphens_end(
        truncated64(trim_hyphens_end(trim_hyphens_start(collapsed(hyphened(lower_seq(s)))))),
    )
}

proof fn lemma_trim_hyphens_start_step(s: Seq<char>, i: int)
    requires
        0 <= i <= s.len(),
        forall|k: int| 0 <= k < i ==> s[k] == '-',
    ensures
        trim_hyphens_start(s) == trim_hyphens_start(s.subrange(i, s.len() as int)),
    decreases i,
{
    if i > 0 {
        assert(s[0] == '-');
        assert(s.drop_first() =~= s.subrange(1, s.len() as int));
        let t = s.subrange(1, s.len() as int);
        lemma_trim_hyphens_start_step(t, i - 1);
        assert(t.subrange(i - 1, t.len() as int) =~= s.subrange(i, s.len() as int));
    } else {
        assert(s.subrange(0, s.len() as int) =~= s);
    }
}

proof fn lemma_trim_hyphens_end_step(s: Seq<char>, i: int)
    requires
        0 <= i <= s.len(),
        forall|k: int| i <= k < s.len() ==> s[k] == '-',
    ensures
        trim_hyphens_end(s) == trim_hyphens_end(s.subrange(0, i)),
    decreases s.len() - i,
{
    if i < s.len() {
        assert(s[s.len() - 1] == '-');
        assert(s.drop_last() =~= s.subrange(0, s.len() - 1));
        let t = s.subrange(0, s.len() - 1);
        lemma_trim_hyphens_end_step(t, i);
        assert(t.subrange(0, i) =~= s.subrange(0, i));
    } else {
        assert(s.subrange(0, i) =~= s);
    }
}

fn trim_hyphens_start_chars(s: &Vec<char>) -> (r: Vec<char>)
    ensures
        r@ == trim_hyphens_start(s@),
{
    let mut i: usize = 0;
    while i < s.len() && s[i] == '-'
        invariant
            i <= s@.len(),
            forall|k: int| 0 <= k < i ==> s@[k] == '-',
        decreases s@.len() - i,
    {
        i += 1;
    }
    proof {
        lemma_trim_hyphens_start_step(s@, i as int);
        let t = s@.subrange(i as int, s@.len() as int);
        assert(t.len() == 0 || t[0] != '-');
        assert(trim_hyphens_start(t) == t);
    }
    subvec(s, i, s.len())
}

fn trim_hyphens_end_chars(s: &Vec<char>) -> (r: Vec<char>)
    ensures
        r@ == trim_hyphens_end(s@),
{
    let mut i: usize = s.len();
    while i > 0 && s[i - 1] == '-'
        invariant
            i <= s@.len(),
            forall|k: int| i <= k < s@.len() ==> s@[k] == '-',
        decreases i,
    {
        i -= 1;
    }
    proof {
        lemma_trim_hyphens_end_step(s@, i as int);
        let t = s@.subrange(0, i as int);
        assert(t.len() == 0 || t[t.len() - 1] != '-');
        assert(trim_hyphens_end(t) == t);
    }
    subvec(s, 0, i)
}

/// Sanitizes a skill name to the convention's requirements: lowercase
/// letters, digits and hyphens only, single hyphens, no hyphen at either
/// end, at most 64 characters.
pub fn sanitize_skill_name(name: &str) -> (r: String)
    ensures
        r@ == spec_sanitized(name@),
{
    let cs = chars_of(name);

    let mut h: Vec<char> = Vec::new();
    let mut i: usize = 0;
    proof {
        assert(h@ =~= hyphened(lower_seq(cs@.subrange(0, 0))));
    }
    while i < cs.len()
        invariant
            i <= cs@.len(),
            cs@ == name@,
            h@ == hyphened(lower_seq(cs@.subrange(0, i as int))),
        decreases cs@.len() - i,
    {
        let c = cs[i];
        let lc = if 'A' <= c && c <= 'Z' {
            ((c as u8) + 32) as char
        } else {
            c
        };
        let out_c = if ('a' <= lc && lc <= 'z') || ('0' <= lc && lc <= '9') || lc == '-' {
            lc
        } else {
            '-'
        };
        h.push(out_c);
        proof {
            assert(h@ =~= hyphened(lower_seq(cs@.subrange(0, i + 1)))) by {
                assert(cs@.subrange(0, i + 1) =~= cs@.subrange(0, i as int).push(cs@[i as int]));
                assert(lower_seq(cs@.subrange(0, i as int).push(cs@[i as int]))
                    =~= lower_seq(cs@.subrange(0, i as int)).push(lower_char(cs@[i as int])));
                assert(hyphened(lower_seq(cs@.subrange(0, i as int)).push(lower_char(cs@[i as int])))
                    =~= hyphened(lower_seq(cs@.subrange(0, i as int))).push(
                    if is_skill_char(lower_char(cs@[i as int])) {
                        lower_char(cs@[i as int])
                    } else {
                        '-'
                    },
                ));
            }
        }
        i += 1;
    }
    proof {
        assert(cs@.subrange(0, cs@.len() as int) =~= cs@);
    }

    let mut col: Vec<char> = Vec::new();
    let mut j: usize = 0;
    proof {
        assert(col@ =~= collapsed(h@.subrange(0, 0)));
    }
    while j < h.len()
        invariant
            j <= h@.len(),
            h@ == hyphened(lower_seq(name@)),
            col@ == collapsed(h@.subrange(0, j as int)),
        decreases h@.len() - j,
    {
        proof {
            assert(h@.subrange(0, j + 1).drop_last() =~= h@.subrange(0, j as int));
            assert(h@.subrange(0, j + 1).last() == h@[j as int]);
        }
        let c = h[j];
        if c == '-' && col.len() > 0 && col[col.len() - 1] == '-' {
        } else {
            col.push(c);
        }
        j += 1;
    }
    proof {
        assert(h@.subrange(0, h@.len() as int) =~= h@);
    }

    let trimmed_front = trim_hyphens_start_chars(&col);
    let trimmed_both = trim_hyphens_end_chars(&trimmed_front);
    let cut = if trimmed_both.len() > 64 {
        subvec(&trimmed_both, 0, 64)
    } else {
        subvec(&trimmed_both, 0, trimmed_both.len())
    };
    proof {
        assert(cut@ =~= truncated64(trimmed_both@));
    }
    let final_chars = trim_hyphens_end_chars(&cut);
    string_of(&final_chars)
}

/// The label a skill shows: the rule's description, or its base name when
/// the description is empty.
pub open spec fn spec_skill_label(rv: RuleView) -> Seq<char> {
    if rv.front_matter.description.len() == 0 {
        rv.base_file_name
    } else {
        rv.front_matter.description
    }
}

/// One skill manifest: its path under the skills directory and its content,
/// a frontmatter with the sanitized name and the label, then one reference
/// line to the rule's generated body.
pub open spec fn spec_skill_entry(rv: RuleView, root: Seq<char>) -> (Seq<char>, Seq<char>) {
    (
        joined(
            joined(joined(root, ASSISTANT_SKILLS_DIR@), GENERATED_FILE_PREFIX@ + rv.base_file_name),
            SKILL_FILENAME@,
        ),
        "---\nname: "@ + spec_sanitized(spec_skill_label(rv)) + "\ndescription: "@
            + spec_skill_label(rv) + "\n---\n\n@"@ + spec_reference_path(
            body_file_name_of(rv.base_file_name),
        ),
    )
}

/// The skill manifests of the optional rules of a set, in order.
pub open spec fn spec_skill_entries(rules: Seq<RuleView>, root: Seq<char>) -> Seq<
    (Seq<char>, Seq<char>),
>
    decreases rules.len(),
{
    if rules.len() == 0 {
        Seq::empty()
    } else {
        let rest = spec_skill_entries(rules.drop_last(), root);
        if !rules.last().front_matter.always_apply {
            rest.push(spec_skill_entry(rules.last(), root))
        } else {
            rest
        }
    }
}

/// Builds the manifest of one skill.
pub fn generate_skill_file_content(rule: &SourceFile, project_root: &str) -> (r: (String, String))
    ensures
        (r.0@, r.1@) == spec_skill_entry(rule@, project_root@),
{
    let mut folder = GENERATED_FILE_PREFIX.to_owned();
    folder.append(rule.base_file_name.as_str());
    let skills_dir = join_path(project_root, ASSISTANT_SKILLS_DIR);
    let folder_path = join_path(skills_dir.as_str(), folder.as_str());
    let path = join_path(folder_path.as_str(), SKILL_FILENAME);

    let label = if rule.front_matter.description.as_str().is_empty() {
        rule.base_file_name.clone()
    } else {
        rule.front_matter.description.clone()
    };
    let skill_name = sanitize_skill_name(label.as_str());
    let body_file_name = rule.get_body_file_name();
    let generated_path = generated_body_file_reference_path(body_file_name.as_str());

    let mut content = "---\nname: ".to_owned();
    content.append(skill_name.as_str());
    content.append("\ndescription: ");
    content.append(label.as_str());
    content.append("\n---\n\n@");
    content.append(generated_path.as_str());
    (path, content)
}

/// Materializes one skill bundle per optional rule.
pub fn generate_skills_for_optional_rules(
    source_files: &Vec<SourceFile>,
    project_root: &str,
) -> (r: Vec<(String, String)>)
    ensures
        entry_views(r@) == spec_skill_entries(rule_views(source_files@), project_root@),
{
    let ghost views = rule_views(source_files@);
    let mut out: Vec<(String, String)> = Vec::new();
    let mut i: usize = 0;
    proof {
        assert(views.subrange(0, 0) =~= Seq::<RuleView>::empty());
        assert(entry_views(out@) =~= spec_skill_entries(views.subrange(0, 0), project_root@));
    }
    while i < source_files.len()
        invariant
            i <= source_files@.len(),
            views == rule_views(source_files@),
            entry_views(out@) == spec_skill_entries(views.subrange(0, i as int), project_root@),
        decreases source_files@.len() - i,
    {
        proof {
            assert(views.subrange(0, i + 1).drop_last() =~= views.subrange(0, i as int));
            assert(views.subrange(0, i + 1).last() == views[i as int]);
            assert(views[i as int] == source_files@[i as int]@);
        }
        if !source_files[i].front_matter.always_apply {
            let entry = generate_skill_file_content(&source_files[i], project_root);
            let ghost prev = out@;
            out.push(entry);
            proof {
                assert(out@.drop_last() =~= prev);
                assert(entry_views(out@) =~= entry_views(prev).push(
                    (out@.last().0@, out@.last().1@),
                ));
            }
        }
        i += 1;
    }
    proof {
        assert(views.subrange(0, views.len() as int) =~= views);
    }
    out
}

/// Whether the generated skill bundles are in sync: the number of
/// tool-owned skill directories (those carrying the reserved prefix) must
/// equal the number of expected skills, and each expected manifest must be
/// on disk with identical content. A rule set with no optional rules is in
/// sync exactly when no tool-owned skill directory exists; user-created
/// skill directories never count.
pub fn check_skills_in_sync(
    source_files: &Vec<SourceFile>,
    project_root: &str,
    generated_skill_dir_count: usize,
    skill_files: &Vec<(String, String)>,
) -> (r: bool)
    ensures
        r == ({
            let expected = spec_skill_entries(rule_views(source_files@), project_root@);
            if expected.len() == 0 {
                generated_skill_dir_count == 0
            } else if generated_skill_dir_count == 0 {
                false
            } else {
                generated_skill_dir_count == expected.len() && all_expected_present(
                    expected,
                    entry_views(skill_files@),
                )
            }
        }),
{
    let expected = generate_skills_for_optional_rules(source_files, project_root);
    if expected.len() == 0 {
        return generated_skill_dir_count == 0;
    }
    if generated_skill_dir_count == 0 {
        return false;
    }
    if generated_skill_dir_count != expected.len() {
        return false;
    }
    let ghost le = entry_views(expected@);
    let mut i: usize = 0;
    while i < expected.len()
        invariant
            i <= expected@.len(),
            le == entry_views(expected@),
            le == spec_skill_entries(rule_views(source_files@), project_root@),
            forall|k: int|
                0 <= k < i ==> crate::file_utils::listing_has(
                    entry_views(skill_files@),
                    (#[trigger] le[k]).0,
                    le[k].1,
                ),
        decreases expected@.len() - i,
    {
        proof {
            assert(le[i as int] == (expected@[i as int].0@, expected@[i as int].1@));
        }
        let mut found: bool = false;
        let mut k: usize = 0;
        while k < skill_files.len()
            invariant
                k <= skill_files@.len(),
                i < expected@.len(),
                le == entry_views(expected@),
                found == (exists|m: int|
                    0 <= m < k && (#[trigger] entry_views(skill_files@)[m]).0 == le[i as int].0
                        && entry_views(skill_files@)[m].1 == le[i as int].1),
            decreases skill_files@.len() - k,
        {
            proof {
                assert(entry_views(skill_files@)[k as int] == (
                    skill_files@[k as int].0@,
                    skill_files@[k as int].1@,
                ));
            }
            if crate::text::str_eq(skill_files[k].0.as_str(), expected[i].0.as_str())
                && crate::text::str_eq(skill_files[k].1.as_str(), expected[i].1.as_str()) {
                found = true;
            }
            k += 1;
        }
        if !found {
            proof {
                assert(!crate::file_utils::listing_has(
                    entry_views(skill_files@),
                    le[i as int].0,
                    le[i as int].1,
                ));
                assert(!all_expected_present(le, entry_views(skill_files@)));
            }
            return false;
        }
        i += 1;
    }
    true
}

} // verus!
