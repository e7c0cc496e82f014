//! Authored command documents under the rule source directory, and the
//! symlinks the agents get for them.

use vstd::prelude::*;

use crate::constants::{AI_RULE_SOURCE_DIR, COMMANDS_DIR, GENERATED_FILE_PREFIX};
use crate::file_utils::{spec_relative_path, calculate_relative_path};
use crate::frontmatter::split_frontmatter;
use crate::paths::{join_path, joined};
use crate::text::{ensure_trailing_newline, path_file_stem, with_trailing_newline, trimmed_start, starts_with, match_at};

verus! {

/// One authored command document.
pub struct CommandFile {
    /// The document's file stem.
    pub name: String,
    /// Its path relative to the project directory.
    pub relative_path: String,
    /// Its path under the given project directory.
    pub full_path: String,
}

/// The model of one command file derived from its file name.
pub ghost struct CommandFileView {
    pub name: Seq<char>,
    pub relative_path: Seq<char>,
    pub full_path: Seq<char>,
}

impl View for CommandFile {
    type V = CommandFileView;

    open spec fn view(&self) -> CommandFileView {
        CommandFileView {
            name: self.name@,
            relative_path: self.relative_path@,
            full_path: self.full_path@,
        }
    }
}

/// The relative commands directory, `ai-rules/commands`.
pub open spec fn spec_commands_dir_rel() -> Seq<char> {
    AI_RULE_SOURCE_DIR@ + "/"@ + COMMANDS_DIR@
}

/// The command file derived from one enumerated file name.
pub open spec fn spec_command_file(dir: Seq<char>, file_name: Seq<char>) -> CommandFileView {
    let rel = spec_commands_dir_rel() + "/"@ + file_name;
    CommandFileView { name: path_file_stem(file_name), relative_path: rel, full_path: joined(dir, rel) }
}

/// Builds the command list from the markdown file names the caller
/// enumerated (sorted) in `ai-rules/commands`.
pub fn find_command_files(current_dir: &str, md_file_names: &Vec<String>) -> (r: Vec<CommandFile>)
    ensures
        r@.len() == md_file_names@.len(),
        forall|k: int|
            0 <= k < r@.len() ==> (#[trigger] r@[k])@ == spec_command_file(
                current_dir@,
                md_file_names@[k]@,
            ),
{
    let mut out: Vec<CommandFile> = Vec::new();
    let mut i: usize = 0;
    while i < md_file_names.len()
        invariant
            i <= md_file_names@.len(),
            out@.len() == i,
            forall|k: int|
                0 <= k < i ==> (#[trigger] out@[k])@ == spec_command_file(
                    current_dir@,
                    md_file_names@[k]@,
                ),
        decreases md_file_names@.len() - i,
    {
        let name = crate::source_file::base_name_from_path(md_file_names[i].as_str());
        let mut rel = AI_RULE_SOURCE_DIR.to_owned();
        rel.append("/");
        rel.append(COMMANDS_DIR);
        rel.append("/");
        rel.append(md_file_names[i].as_str());
        let full = join_path(current_dir, rel.as_str());
        out.push(CommandFile { name, relative_path: rel, full_path: full });
        i += 1;
    }
    out
}

/// A command document's body: the content behind its frontmatter block (the
/// whole document when it has none), with the trailing newline guaranteed.
pub fn get_command_body_content(content: &str) -> (r: String)
    ensures
        ({
            let t = trimmed_start(content@);
            let d = crate::frontmatter::fm_delim();
            &&& (!starts_with(t, d) ==> r@ == with_trailing_newline(content@))
            &&& (starts_with(t, d) && (forall|j: int| 3 <= j ==> !match_at(t, d, j)) ==> r@
                == with_trailing_newline(content@))
            &&& (starts_with(t, d) ==> (forall|i: int|
                (3 <= i && #[trigger] match_at(t, d, i) && (forall|j: int|
                    3 <= j < i ==> !match_at(t, d, j))) ==> r@ == with_trailing_newline(
                    trimmed_start(t.subrange(i + 3, t.len() as int)),
                )))
        }),
{
    let (_, body) = split_frontmatter(content);
    ensure_trailing_newline(body)
}

/// The symlinks a flat command layout gets: one link per command, named
/// with the reserved generated-file prefix, pointing back to the authored
/// document.
pub open spec fn spec_flat_command_links(
    commands: Seq<CommandFileView>,
    target_dir: Seq<char>,
) -> Seq<(Seq<char>, Seq<char>)> {
    commands.map_values(
        |c: CommandFileView|
            {
                let link_rel = target_dir + "/"@ + GENERATED_FILE_PREFIX@ + c.name + ".md"@;
                (link_rel, spec_relative_path(link_rel, c.relative_path))
            },
    )
}

/// Plans the flat command symlinks: each pair is the link's path relative to
/// the project directory and the link target relative to the link's own
/// directory.
pub fn create_command_symlinks(commands: &Vec<CommandFile>, target_dir: &str) -> (r: Vec<
    (String, String),
>)
    ensures
        crate::body_generator::entry_views(r@) == spec_flat_command_links(
            commands@.map_values(|c: CommandFile| c@),
            target_dir@,
        ),
{
    let ghost views = commands@.map_values(|c: CommandFile| c@);
    let mut out: Vec<(String, String)> = Vec::new();
    let mut i: usize = 0;
    proof {
        assert(crate::body_generator::entry_views(out@) =~= spec_flat_command_links(
            views.subrange(0, 0),
            target_dir@,
        ));
    }
    while i < commands.len()
        invariant
            i <= commands@.len(),
            views == commands@.map_values(|c: CommandFile| c@),
            crate::body_generator::entry_views(out@) == spec_flat_command_links(
                views.subrange(0, i as int),
                target_dir@,
            ),
        decreases commands@.len() - i,
    {
        proof {
            assert(views[i as int] == commands@[i as int]@);
        }
        let mut link = target_dir.to_owned();
        link.append("/");
        link.append(GENERATED_FILE_PREFIX);
        link.append(commands[i].name.as_str());
        link.append(".md");
        let target = calculate_relative_path(link.as_str(), commands[i].relative_path.as_str());
        let ghost prev = out@;
        out.push((link, target));
        proof {
            assert(out@.drop_last() =~= prev);
            assert(views.subrange(0, i + 1) =~= views.subrange(0, i as int).push(views[i as int]));
            assert(crate::body_generator::entry_views(out@) =~= crate::body_generator::entry_views(
                prev,
            ).push((out@.last().0@, out@.last().1@)));
            assert(spec_flat_command_links(
                views.subrange(0, i as int).push(views[i as int]),
                target_dir@,
            ) =~= spec_flat_command_links(views.subrange(0, i as int), target_dir@).push(
                spec_flat_command_links(views.subrange(0, i + 1), target_dir@).last(),
            ));
        }
        i += 1;
    }
    proof {
        assert(views.subrange(0, views.len() as int) =~= views);
    }
    out
}

/// A command owns the link of this name in the flat layout.
pub open spec fn spec_flat_link_owned(commands: Seq<CommandFileView>, link_name: Seq<char>) -> bool {
    exists|m: int|
        0 <= m < commands.len() && GENERATED_FILE_PREFIX@ + (#[trigger] commands[m]).name
            + ".md"@ == link_name
}

/// The in-sync condition of the flat command links: with no authored
/// command, no tool-owned link may exist; otherwise every command's
/// prefix-named link resolves to its authored document, and every tool-owned
/// link belongs to a command.
pub open spec fn spec_command_links_in_sync(
    commands: Seq<CommandFileView>,
    links: Seq<(Seq<char>, Seq<char>)>,
) -> bool {
    if commands.len() == 0 {
        links.len() == 0
    } else {
        &&& (forall|k: int|
            0 <= k < commands.len() ==> crate::file_utils::listing_has(
                links,
                GENERATED_FILE_PREFIX@ + (#[trigger] commands[k]).name + ".md"@,
                commands[k].full_path,
            ))
        &&& (forall|k: int|
            0 <= k < links.len() ==> spec_flat_link_owned(commands, (#[trigger] links[k]).0))
    }
}

/// Decides the flat command-link sync condition over the enumerated
/// tool-owned links, each given with its resolved target.
pub fn check_command_symlinks_in_sync(
    commands: &Vec<CommandFile>,
    prefixed_links: &Vec<(String, String)>,
) -> (r: bool)
    ensures
        r == spec_command_links_in_sync(
            commands@.map_values(|c: CommandFile| c@),
            crate::body_generator::entry_views(prefixed_links@),
        ),
{
    let ghost cv = commands@.map_values(|c: CommandFile| c@);
    let ghost lv = crate::body_generator::entry_views(prefixed_links@);
    if commands.len() == 0 {
        return prefixed_links.len() == 0;
    }
    let mut i: usize = 0;
    while i < commands.len()
        invariant
            i <= commands@.len(),
            cv == commands@.map_values(|c: CommandFile| c@),
            lv == crate::body_generator::entry_views(prefixed_links@),
            cv.len() > 0,
            forall|k: int|
                0 <= k < i ==> crate::file_utils::listing_has(
                    lv,
                    GENERATED_FILE_PREFIX@ + (#[trigger] cv[k]).name + ".md"@,
                    cv[k].full_path,
                ),
        decreases commands@.len() - i,
    {
        proof {
            assert(cv[i as int] == commands@[i as int]@);
        }
        let mut link_name = GENERATED_FILE_PREFIX.to_owned();
        link_name.append(commands[i].name.as_str());
        link_name.append(".md");
        let mut found: bool = false;
        let mut k: usize = 0;
        while k < prefixed_links.len()
            invariant
                k <= prefixed_links@.len(),
                i < commands@.len(),
                cv == commands@.map_values(|c: CommandFile| c@),
                lv == crate::body_generator::entry_views(prefixed_links@),
                link_name@ == GENERATED_FILE_PREFIX@ + cv[i as int].name + ".md"@,
                found == (exists|m: int|
                    0 <= m < k && (#[trigger] lv[m]).0 == link_name@ && lv[m].1 == cv[
                        i as int].full_path),
            decreases prefixed_links@.len() - k,
        {
            proof {
                assert(lv[k as int] == (prefixed_links@[k as int].0@, prefixed_links@[
                    k as int].1@));
            }
            if crate::text::str_eq(prefixed_links[k].0.as_str(), link_name.as_str())
                && crate::text::str_eq(
                prefixed_links[k].1.as_str(),
                commands[i].full_path.as_str(),
            ) {
                found = true;
            }
            k += 1;
        }
        if !found {
            proof {
                assert(!crate::file_utils::listing_has(
                    lv,
                    GENERATED_FILE_PREFIX@ + cv[i as int].name + ".md"@,
                    cv[i as int].full_path,
                ));
            }
            return false;
        }
        i += 1;
    }
    let mut j: usize = 0;
    while j < prefixed_links.len()
        invariant
            j <= prefixed_links@.len(),
            cv == commands@.map_values(|c: CommandFile| c@),
            lv == crate::body_generator::entry_views(prefixed_links@),
            cv.len() > 0,
            forall|k: int|
                0 <= k < cv.len() ==> crate::file_utils::listing_has(
                    lv,
                    GENERATED_FILE_PREFIX@ + (#[trigger] cv[k]).name + ".md"@,
                    cv[k].full_path,
                ),
            forall|k: int| 0 <= k < j ==> spec_flat_link_owned(cv, (#[trigger] lv[k]).0),
        decreases prefixed_links@.len() - j,
    {
        proof {
            assert(lv[j as int] == (prefixed_links@[j as int].0@, prefixed_links@[j as int].1@));
        }
        let mut matched: bool = false;
        let mut m: usize = 0;
        while m < commands.len()
            invariant
                m <= commands@.len(),
                j < prefixed_links@.len(),
                cv == commands@.map_values(|c: CommandFile| c@),
                lv == crate::body_generator::entry_views(prefixed_links@),
                matched == (exists|w: int|
                    0 <= w < m && GENERATED_FILE_PREFIX@ + (#[trigger] cv[w]).name + ".md"@ == lv[
                        j as int].0),
            decreases commands@.len() - m,
        {
            proof {
                assert(cv[m as int] == commands@[m as int]@);
            }
            let mut link_name = GENERATED_FILE_PREFIX.to_owned();
            link_name.append(commands[m].name.as_str());
            link_name.append(".md");
            if crate::text::str_eq(prefixed_links[j].0.as_str(), link_name.as_str()) {
                matched = true;
            }
            m += 1;
        }
        if !matched {
            proof {
                assert(!spec_flat_link_owned(cv, lv[j as int].0));
                assert(!spec_command_links_in_sync(cv, lv));
            }
            return false;
        }
        proof {
            assert(spec_flat_link_owned(cv, lv[j as int].0));
        }
        j += 1;
    }
    proof {
        assert(spec_command_links_in_sync(cv, lv));
    }
    true
}

/// A command owns the link of this name in the subdirectory layout.
pub open spec fn spec_subdir_link_owned(commands: Seq<CommandFileView>, link_name: Seq<char>) -> bool {
    exists|m: int| 0 <= m < commands.len() && (#[trigger] commands[m]).name + ".md"@ == link_name
}

/// The in-sync condition of the subdirectory command links: the generated
/// subdirectory is wholly tool-owned, so with no authored command it must
/// hold nothing; otherwise every command's plain-named link resolves to its
/// authored document, and every entry belongs to a command.
pub open spec fn spec_subdir_command_links_in_sync(
    commands: Seq<CommandFileView>,
    links: Seq<(Seq<char>, Seq<char>)>,
) -> bool {
    if commands.len() == 0 {
        links.len() == 0
    } else {
        &&& (forall|k: int|
            0 <= k < commands.len() ==> crate::file_utils::listing_has(
                links,
                (#[trigger] commands[k]).name + ".md"@,
                commands[k].full_path,
            ))
        &&& (forall|k: int|
            0 <= k < links.len() ==> spec_subdir_link_owned(commands, (#[trigger] links[k]).0))
    }
}

/// Decides the subdirectory command-link sync condition over the generated
/// subdirectory's entries, each given with its resolved target.
pub fn check_command_symlinks_in_subdir_in_sync(
    commands: &Vec<CommandFile>,
    links: &Vec<(String, String)>,
) -> (r: bool)
    ensures
        r == spec_subdir_command_links_in_sync(
            commands@.map_values(|c: CommandFile| c@),
            crate::body_generator::entry_views(links@),
        ),
{
    let ghost cv = commands@.map_values(|c: CommandFile| c@);
    let ghost lv = crate::body_generator::entry_views(links@);
    if commands.len() == 0 {
        return links.len() == 0;
    }
    let mut i: usize = 0;
    while i < commands.len()
        invariant
            i <= commands@.len(),
            cv == commands@.map_values(|c: CommandFile| c@),
            lv == crate::body_generator::entry_views(links@),
            cv.len() > 0,
            forall|k: int|
                0 <= k < i ==> crate::file_utils::listing_has(
                    lv,
                    (#[trigger] cv[k]).name + ".md"@,
                    cv[k].full_path,
                ),
        decreases commands@.len() - i,
    {
        proof {
            assert(cv[i as int] == commands@[i as int]@);
        }
        let mut link_name = commands[i].name.clone();
        link_name.append(".md");
        let mut found: bool = false;
        let mut k: usize = 0;
        while k < links.len()
            invariant
                k <= links@.len(),
                i < commands@.len(),
                cv == commands@.map_values(|c: CommandFile| c@),
                lv == crate::body_generator::entry_views(links@),
                link_name@ == cv[i as int].name + ".md"@,
                found == (exists|m: int|
                    0 <= m < k && (#[trigger] lv[m]).0 == link_name@ && lv[m].1 == cv[
                        i as int].full_path),
            decreases links@.len() - k,
        {
            proof {
                assert(lv[k as int] == (links@[k as int].0@, links@[k as int].1@));
            }
            if crate::text::str_eq(links[k].0.as_str(), link_name.as_str()) && crate::text::str_eq(
                links[k].1.as_str(),
                commands[i].full_path.as_str(),
            ) {
                found = true;
            }
            k += 1;
        }
        if !found {
            proof {
                assert(!crate::file_utils::listing_has(
                    lv,
                    cv[i as int].name + ".md"@,
                    cv[i as int].full_path,
                ));
            }
            return false;
        }
        i += 1;
    }
    let mut j: usize = 0;
    while j < links.len()
        invariant
            j <= links@.len(),
            cv == commands@.map_values(|c: CommandFile| c@),
            lv == crate::body_generator::entry_views(links@),
            cv.len() > 0,
            forall|k: int|
                0 <= k < cv.len() ==> crate::file_utils::listing_has(
                    lv,
                    (#[trigger] cv[k]).name + ".md"@,
                    cv[k].full_path,
                ),
            forall|k: int| 0 <= k < j ==> spec_subdir_link_owned(cv, (#[trigger] lv[k]).0),
        decreases links@.len() - j,
    {
        proof {
            assert(lv[j as int] == (links@[j as int].0@, links@[j as int].1@));
        }
        let mut matched: bool = false;
        let mut m: usize = 0;
        while m < commands.len()
            invariant
                m <= commands@.len(),
                j < links@.len(),
                cv == commands@.map_values(|c: CommandFile| c@),
                lv == crate::body_generator::entry_views(links@),
                matched == (exists|w: int|
                    0 <= w < m && (#[trigger] cv[w]).name + ".md"@ == lv[j as int].0),
            decreases commands@.len() - m,
        {
            proof {
                assert(cv[m as int] == commands@[m as int]@);
            }
            let mut link_name = commands[m].name.clone();
            link_name.append(".md");
            if crate::text::str_eq(links[j].0.as_str(), link_name.as_str()) {
                matched = true;
            }
            m += 1;
        }
        if !matched {
            proof {
                assert(!spec_subdir_link_owned(cv, lv[j as int].0));
                assert(!spec_subdir_command_links_in_sync(cv, lv));
            }
            return false;
        }
        proof {
            assert(spec_subdir_link_owned(cv, lv[j as int].0));
        }
        j += 1;
    }
    proof {
        assert(spec_subdir_command_links_in_sync(cv, lv));
    }
    true
}

/// The symlinks a subdirectory command layout gets: one link per command,
/// under the generated subdirectory, keeping the command's own name.
pub open spec fn spec_subdir_command_links(
    commands: Seq<CommandFileView>,
    target_dir: Seq<char>,
    subdir: Seq<char>,
) -> Seq<(Seq<char>, Seq<char>)> {
    commands.map_values(
        |c: CommandFileView|
            {
                let link_rel = target_dir + "/"@ + subdir + "/"@ + c.name + ".md"@;
                (link_rel, spec_relative_path(link_rel, c.relative_path))
            },
    )
}

/// Plans the subdirectory command symlinks.
pub fn create_command_symlinks_in_subdir(
    commands: &Vec<CommandFile>,
    target_dir: &str,
    subdir: &str,
) -> (r: Vec<(String, String)>)
    ensures
        crate::body_generator::entry_views(r@) == spec_subdir_command_links(
            commands@.map_values(|c: CommandFile| c@),
            target_dir@,
            subdir@,
        ),
{
    let ghost views = commands@.map_values(|c: CommandFile| c@);
    let mut out: Vec<(String, String)> = Vec::new();
    let mut i: usize = 0;
    proof {
        assert(crate::body_generator::entry_views(out@) =~= spec_subdir_command_links(
            views.subrange(0, 0),
            target_dir@,
            subdir@,
        ));
    }
    while i < commands.len()
        invariant
            i <= commands@.len(),
            views == commands@.map_values(|c: CommandFile| c@),
            crate::body_generator::entry_views(out@) == spec_subdir_command_links(
                views.subrange(0, i as int),
                target_dir@,
                subdir@,
            ),
        decreases commands@.len() - i,
    {
        proof {
            assert(views[i as int] == commands@[i as int]@);
        }
        let mut link = target_dir.to_owned();
        link.append("/");
        link.append(subdir);
        link.append("/");
        link.append(commands[i].name.as_str());
        link.append(".md");
        let target = calculate_relative_path(link.as_str(), commands[i].relative_path.as_str());
        let ghost prev = out@;
        out.push((link, target));
        proof {
            assert(out@.drop_last() =~= prev);
            assert(views.subrange(0, i + 1) =~= views.subrange(0, i as int).push(views[i as int]));
            assert(crate::body_generator::entry_views(out@) =~= crate::body_generator::entry_views(
                prev,
            ).push((out@.last().0@, out@.last().1@)));
            assert(spec_subdir_command_links(
                views.subrange(0, i as int).push(views[i as int]),
                target_dir@,
                subdir@,
            ) =~= spec_subdir_command_links(views.subrange(0, i as int), target_dir@, subdir@).push(
                spec_subdir_command_links(views.subrange(0, i + 1), target_dir@, subdir@).last(),
            ));
        }
        i += 1;
    }
    proof {
        assert(views.subrange(0, views.len() as int) =~= views);
    }
    out
}

/// The gitignore pattern of the flat command layout.
pub fn get_command_gitignore_patterns(target_dir: &str) -> (r: Vec<String>)
    ensures
        r@.len() == 1,
        r@[0]@ == target_dir@ + "/"@ + GENERATED_FILE_PREFIX@ + "*.md"@,
{
    let mut p = target_dir.to_owned();
    p.append("/");
    p.append(GENERATED_FILE_PREFIX);
    p.append("*.md");
    let mut v: Vec<String> = Vec::new();
    v.push(p);
    v
}

} // verus!
