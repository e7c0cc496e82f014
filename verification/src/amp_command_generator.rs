//! The AMP command generator: one generated file per authored command, its
//! frontmatter stripped, under `.agents/commands`.

use vstd::prelude::*;

use crate::body_generator::entry_views;
use crate::constants::{AMP_COMMANDS_DIR, GENERATED_FILE_PREFIX};
use crate::paths::{join_path, joined};

verus! {

pub struct AmpCommandGenerator;

/// The expected command files: for each authored command (its name and its
/// already-stripped body), one generated file named with the reserved
/// prefix.
pub open spec fn spec_amp_command_files(
    docs: Seq<(Seq<char>, Seq<char>)>,
    dir: Seq<char>,
) -> Seq<(Seq<char>, Seq<char>)> {
    docs.map_values(
        |d: (Seq<char>, Seq<char>)|
            (
                joined(joined(dir, AMP_COMMANDS_DIR@), GENERATED_FILE_PREFIX@ + d.0 + ".md"@),
                d.1,
            ),
    )
}

impl AmpCommandGenerator {
    /// Builds the expected command files from the authored commands' names
    /// and stripped bodies.
    pub fn generate_commands(&self, current_dir: &str, command_docs: &Vec<(String, String)>) -> (r:
        Vec<(String, String)>)
        ensures
            entry_views(r@) == spec_amp_command_files(entry_views(command_docs@), current_dir@),
    {
        let ghost views = entry_views(command_docs@);
        let base = join_path(current_dir, AMP_COMMANDS_DIR);
        let mut out: Vec<(String, String)> = Vec::new();
        let mut i: usize = 0;
        proof {
            assert(entry_views(out@) =~= spec_amp_command_files(
                views.subrange(0, 0),
                current_dir@,
            ));
        }
        while i < command_docs.len()
            invariant
                i <= command_docs@.len(),
                views == entry_views(command_docs@),
                base@ == joined(current_dir@, AMP_COMMANDS_DIR@),
                entry_views(out@) == spec_amp_command_files(
                    views.subrange(0, i as int),
                    current_dir@,
                ),
            decreases command_docs@.len() - i,
        {
            proof {
                assert(views[i as int] == (command_docs@[i as int].0@, command_docs@[i as int].1@));
            }
            let mut name = GENERATED_FILE_PREFIX.to_owned();
            name.append(command_docs[i].0.as_str());
            name.append(".md");
            let path = join_path(base.as_str(), name.as_str());
            let ghost prev = out@;
            out.push((path, command_docs[i].1.clone()));
            proof {
                assert(out@.drop_last() =~= prev);
                assert(views.subrange(0, i + 1) =~= views.subrange(0, i as int).push(
                    views[i as int],
                ));
                assert(entry_views(out@) =~= entry_views(prev).push(
                    (out@.last().0@, out@.last().1@),
                ));
                assert(spec_amp_command_files(
                    views.subrange(0, i as int).push(views[i as int]),
                    current_dir@,
                ) =~= spec_amp_command_files(views.subrange(0, i as int), current_dir@).push(
                    spec_amp_command_files(views.subrange(0, i + 1), current_dir@).last(),
                ));
            }
            i += 1;
        }
        proof {
            assert(views.subrange(0, views.len() as int) =~= views);
        }
        out
    }

    /// What the cleaner removes from the commands directory: exactly the
    /// names carrying the reserved prefix.
    pub fn clean_commands(&self, file_names: &Vec<String>) -> (r: Vec<String>)
        ensures
            crate::file_utils::string_views(r@) == crate::cleaner::spec_prefixed(
                crate::file_utils::string_views(file_names@),
                GENERATED_FILE_PREFIX@,
            ),
    {
        crate::cleaner::select_generated_names(file_names)
    }

    pub fn command_gitignore_patterns(&self) -> (r: Vec<String>)
        ensures
            r@.len() == 1,
            r@[0]@ == AMP_COMMANDS_DIR@ + "/"@ + GENERATED_FILE_PREFIX@ + "*.md"@,
    {
        crate::command_reader::get_command_gitignore_patterns(AMP_COMMANDS_DIR)
    }
}

/// The in-sync condition of the generated command files: with no authored
/// command, no tool-owned (prefix-named) file may exist; otherwise every
/// expected file is present with identical content and every tool-owned file
/// is one of the expected ones.
pub open spec fn spec_amp_commands_in_sync(
    expected: Seq<(Seq<char>, Seq<char>)>,
    l: Seq<(Seq<char>, Seq<char>)>,
) -> bool {
    if expected.len() == 0 {
        forall|k: int|
            0 <= k < l.len() ==> !crate::text::starts_with(
                crate::text::path_file_name((#[trigger] l[k]).0),
                GENERATED_FILE_PREFIX@,
            )
    } else {
        &&& crate::file_utils::all_expected_present(expected, l)
        &&& (forall|k: int|
            0 <= k < l.len() ==> (crate::text::starts_with(
                crate::text::path_file_name((#[trigger] l[k]).0),
                GENERATED_FILE_PREFIX@,
            ) ==> crate::file_utils::listing_has_path(expected, l[k].0)))
    }
}

impl AmpCommandGenerator {
    /// Whether the commands directory is in sync: judged against the files
    /// expected from the authored commands' names and stripped bodies; an
    /// absent directory is in sync exactly when nothing is expected.
    pub fn check_commands(
        &self,
        current_dir: &str,
        command_docs: &Vec<(String, String)>,
        actual: &Option<Vec<(String, String)>>,
    ) -> (r: bool)
        requires
            (*actual) matches Some(l) ==> crate::file_utils::distinct_paths(entry_views(l@)),
        ensures
            r == ({
                let expected = spec_amp_command_files(entry_views(command_docs@), current_dir@);
                match *actual {
                    Option::None => expected.len() == 0,
                    Option::Some(l) => spec_amp_commands_in_sync(expected, entry_views(l@)),
                }
            }),
    {
        let expected = self.generate_commands(current_dir, command_docs);
        let l = match actual {
            None => {
                return expected.len() == 0;
            },
            Some(l) => l,
        };
        let ghost le = entry_views(expected@);
        let ghost lv = entry_views(l@);
        if expected.len() == 0 {
            let mut k: usize = 0;
            while k < l.len()
                invariant
                    *actual == Some(*l),
                    k <= l@.len(),
                    lv == entry_views(l@),
                    spec_amp_command_files(entry_views(command_docs@), current_dir@).len() == 0,
                    forall|m: int|
                        0 <= m < k ==> !crate::text::starts_with(
                            crate::text::path_file_name((#[trigger] lv[m]).0),
                            GENERATED_FILE_PREFIX@,
                        ),
                decreases l@.len() - k,
            {
                proof {
                    assert(lv[k as int] == (l@[k as int].0@, l@[k as int].1@));
                }
                let name = crate::text::file_name_chars(&crate::text::chars_of(l[k].0.as_str()));
                let prefix = crate::text::chars_of(GENERATED_FILE_PREFIX);
                if crate::text::starts_with_chars(&name, &prefix) {
                    return false;
                }
                k += 1;
            }
            return true;
        }

        let mut i: usize = 0;
        while i < expected.len()
            invariant
                *actual == Some(*l),
                i <= expected@.len(),
                le == entry_views(expected@),
                le == spec_amp_command_files(entry_views(command_docs@), current_dir@),
                lv == entry_views(l@),
                crate::file_utils::distinct_paths(lv),
                forall|k: int|
                    0 <= k < i ==> crate::file_utils::listing_has(
                        lv,
                        (#[trigger] le[k]).0,
                        le[k].1,
                    ),
            decreases expected@.len() - i,
        {
            proof {
                assert(le[i as int] == (expected@[i as int].0@, expected@[i as int].1@));
            }
            let mut found: bool = false;
            let mut k: usize = 0;
            while k < l.len()
                invariant
                    k <= l@.len(),
                    i < expected@.len(),
                    le == entry_views(expected@),
                    lv == entry_views(l@),
                    found == (exists|m: int|
                        0 <= m < k && (#[trigger] lv[m]).0 == le[i as int].0 && lv[m].1 == le[
                            i as int].1),
                decreases l@.len() - k,
            {
                proof {
                    assert(lv[k as int] == (l@[k as int].0@, l@[k as int].1@));
                }
                if crate::text::str_eq(l[k].0.as_str(), expected[i].0.as_str())
                    && crate::text::str_eq(l[k].1.as_str(), expected[i].1.as_str()) {
                    found = true;
                }
                k += 1;
            }
            if !found {
                proof {
                    assert(!crate::file_utils::listing_has(lv, le[i as int].0, le[i as int].1));
                    assert(!crate::file_utils::all_expected_present(le, lv));
                }
                return false;
            }
            i += 1;
        }

        let mut j: usize = 0;
        while j < l.len()
            invariant
                *actual == Some(*l),
                j <= l@.len(),
                le == entry_views(expected@),
                le == spec_amp_command_files(entry_views(command_docs@), current_dir@),
                lv == entry_views(l@),
                le.len() > 0,
                crate::file_utils::all_expected_present(le, lv),
                forall|k: int|
                    0 <= k < j ==> (crate::text::starts_with(
                        crate::text::path_file_name((#[trigger] lv[k]).0),
                        GENERATED_FILE_PREFIX@,
                    ) ==> crate::file_utils::listing_has_path(le, lv[k].0)),
            decreases l@.len() - j,
        {
            proof {
                assert(lv[j as int] == (l@[j as int].0@, l@[j as int].1@));
            }
            let name = crate::text::file_name_chars(&crate::text::chars_of(l[j].0.as_str()));
            let prefix = crate::text::chars_of(GENERATED_FILE_PREFIX);
            if crate::text::starts_with_chars(&name, &prefix) {
                let mut owned: bool = false;
                let mut m: usize = 0;
                while m < expected.len()
                    invariant
                        m <= expected@.len(),
                        j < l@.len(),
                        le == entry_views(expected@),
                        lv == entry_views(l@),
                        owned == (exists|w: int|
                            0 <= w < m && (#[trigger] le[w]).0 == lv[j as int].0),
                    decreases expected@.len() - m,
                {
                    proof {
                        assert(le[m as int] == (expected@[m as int].0@, expected@[m as int].1@));
                    }
                    if crate::text::str_eq(expected[m].0.as_str(), l[j].0.as_str()) {
                        owned = true;
                    }
                    m += 1;
                }
                if !owned {
                    proof {
                        assert(!crate::file_utils::listing_has_path(le, lv[j as int].0)) by {
                            if crate::file_utils::listing_has_path(le, lv[j as int].0) {
                                let w = choose|w: int|
                                    0 <= w < le.len() && (#[trigger] le[w]).0 == lv[j as int].0;
                            }
                        }
                    }
                    return false;
                }
            }
            j += 1;
        }
        true
    }
}

} // verus!
