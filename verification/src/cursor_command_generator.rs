//! The Cursor command generator: one plain-named generated file per authored
//! command, its frontmatter stripped, under the generated subdirectory of
//! `.cursor/commands`.

use vstd::prelude::*;

use crate::body_generator::entry_views;
use crate::constants::{CURSOR_COMMANDS_DIR, GENERATED_COMMANDS_SUBDIR};
use crate::paths::{join_path, joined};

verus! {

pub struct CursorCommandGenerator;

pub open spec fn spec_cursor_commands_dir(dir: Seq<char>) -> Seq<char> {
    joined(joined(dir, CURSOR_COMMANDS_DIR@), GENERATED_COMMANDS_SUBDIR@)
}

/// The expected command files: for each authored command (its name and its
/// already-stripped body), one file under the generated subdirectory.
pub open spec fn spec_cursor_command_files(
    docs: Seq<(Seq<char>, Seq<char>)>,
    dir: Seq<char>,
) -> Seq<(Seq<char>, Seq<char>)> {
    docs.map_values(
        |d: (Seq<char>, Seq<char>)| (joined(spec_cursor_commands_dir(dir), d.0 + ".md"@), d.1),
    )
}

impl CursorCommandGenerator {
    pub fn generate_commands(&self, current_dir: &str, command_docs: &Vec<(String, String)>) -> (r:
        Vec<(String, String)>)
        ensures
            entry_views(r@) == spec_cursor_command_files(entry_views(command_docs@), current_dir@),
    {
        let ghost views = entry_views(command_docs@);
        let base0 = join_path(current_dir, CURSOR_COMMANDS_DIR);
        let base = join_path(base0.as_str(), GENERATED_COMMANDS_SUBDIR);
        let mut out: Vec<(String, String)> = Vec::new();
        let mut i: usize = 0;
        proof {
            assert(entry_views(out@) =~= spec_cursor_command_files(
                views.subrange(0, 0),
                current_dir@,
            ));
        }
        while i < command_docs.len()
            invariant
                i <= command_docs@.len(),
                views == entry_views(command_docs@),
                base@ == spec_cursor_commands_dir(current_dir@),
                entry_views(out@) == spec_cursor_command_files(
                    views.subrange(0, i as int),
                    current_dir@,
                ),
            decreases command_docs@.len() - i,
        {
            proof {
                assert(views[i as int] == (command_docs@[i as int].0@, command_docs@[i as int].1@));
            }
            let mut name = command_docs[i].0.clone();
            name.append(".md");
            let path = join_path(base.as_str(), name.as_str());
            let ghost prev = out@;
            out.push((path, command_docs[i].1.clone()));
            proof {
                assert(out@.drop_last() =~= prev);
                assert(views.subrange(0, i + 1) =~= views.subrange(0, i as int).push(
                    views[i as int],
                ));
                assert(entry_views(out@) =~= entry_views(prev).push(
                    (out@.last().0@, out@.last().1@),
                ));
                assert(spec_cursor_command_files(
                    views.subrange(0, i as int).push(views[i as int]),
                    current_dir@,
                ) =~= spec_cursor_command_files(views.subrange(0, i as int), current_dir@).push(
                    spec_cursor_command_files(views.subrange(0, i + 1), current_dir@).last(),
                ));
            }
            i += 1;
        }
        proof {
            assert(views.subrange(0, views.len() as int) =~= views);
        }
        out
    }

    /// The generated subdirectory the cleaner removes wholesale.
    pub fn clean_dir(&self, current_dir: &str) -> (r: String)
        ensures
            r@ == spec_cursor_commands_dir(current_dir@),
    {
        let base0 = join_path(current_dir, CURSOR_COMMANDS_DIR);
        join_path(base0.as_str(), GENERATED_COMMANDS_SUBDIR)
    }

    /// Whether the generated subdirectory is in sync: absent when no command
    /// is authored, else holding exactly the expected files.
    pub fn check_commands(
        &self,
        current_dir: &str,
        command_docs: &Vec<(String, String)>,
        actual: &Option<Vec<(String, String)>>,
    ) -> (r: bool)
        requires
            (*actual) matches Some(l) ==> crate::file_utils::distinct_paths(entry_views(l@)),
        ensures
            r == ({
                let expected = spec_cursor_command_files(entry_views(command_docs@), current_dir@);
                if expected.len() == 0 {
                    *actual is None
                } else {
                    match *actual {
                        Option::None => false,
                        Option::Some(l) => entry_views(l@).len() == expected.len()
                            && crate::file_utils::all_expected_present(expected, entry_views(l@)),
                    }
                }
            }),
    {
        let expected = self.generate_commands(current_dir, command_docs);
        if expected.len() == 0 {
            return actual.is_none();
        }
        crate::file_utils::check_directory_exact_match(&expected, actual)
    }

    pub fn command_gitignore_patterns(&self) -> (r: Vec<String>)
        ensures
            r@.len() == 1,
            r@[0]@ == CURSOR_COMMANDS_DIR@ + "/"@ + GENERATED_COMMANDS_SUBDIR@ + "/"@,
    {
        let mut p = CURSOR_COMMANDS_DIR.to_owned();
        p.append("/");
        p.append(GENERATED_COMMANDS_SUBDIR);
        p.append("/");
        let mut v: Vec<String> = Vec::new();
        v.push(p);
        v
    }
}

} // verus!
