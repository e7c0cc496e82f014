//! User-authored skill bundles under the rule source directory, and the
//! symlinks the agents get for them.

use vstd::prelude::*;

use crate::constants::{AI_RULE_SOURCE_DIR, GENERATED_FILE_PREFIX, SKILLS_DIR};
use crate::file_utils::{calculate_relative_path, spec_relative_path};
use crate::paths::{join_path, joined};

verus! {

/// One authored skill folder (one that holds the skill manifest).
pub struct SkillFolder {
    pub name: String,
    /// Its path relative to the project directory.
    pub relative_path: String,
    /// Its path under the given project directory.
    pub full_path: String,
}

pub ghost struct SkillFolderView {
    pub name: Seq<char>,
    pub relative_path: Seq<char>,
    pub full_path: Seq<char>,
}

impl View for SkillFolder {
    type V = SkillFolderView;

    open spec fn view(&self) -> SkillFolderView {
        SkillFolderView {
            name: self.name@,
            relative_path: self.relative_path@,
            full_path: self.full_path@,
        }
    }
}

/// The relative skills directory, `ai-rules/skills`.
pub open spec fn spec_skills_dir_rel() -> Seq<char> {
    AI_RULE_SOURCE_DIR@ + "/"@ + SKILLS_DIR@
}

pub open spec fn spec_skill_folder(dir: Seq<char>, folder_name: Seq<char>) -> SkillFolderView {
    let rel = spec_skills_dir_rel() + "/"@ + folder_name;
    SkillFolderView { name: folder_name, relative_path: rel, full_path: joined(dir, rel) }
}

/// Builds the skill list from the folder names the caller enumerated (those
/// that hold a skill manifest).
pub fn find_skill_folders(current_dir: &str, folder_names: &Vec<String>) -> (r: Vec<SkillFolder>)
    ensures
        r@.len() == folder_names@.len(),
        forall|k: int|
            0 <= k < r@.len() ==> (#[trigger] r@[k])@ == spec_skill_folder(
                current_dir@,
                folder_names@[k]@,
            ),
{
    let mut out: Vec<SkillFolder> = Vec::new();
    let mut i: usize = 0;
    while i < folder_names.len()
        invariant
            i <= folder_names@.len(),
            out@.len() == i,
            forall|k: int|
                0 <= k < i ==> (#[trigger] out@[k])@ == spec_skill_folder(
                    current_dir@,
                    folder_names@[k]@,
                ),
        decreases folder_names@.len() - i,
    {
        let mut rel = AI_RULE_SOURCE_DIR.to_owned();
        rel.append("/");
        rel.append(SKILLS_DIR);
        rel.append("/");
        rel.append(folder_names[i].as_str());
        let full = join_path(current_dir, rel.as_str());
        out.push(SkillFolder { name: folder_names[i].clone(), relative_path: rel, full_path: full });
        i += 1;
    }
    out
}

/// The skill symlinks: one link per authored skill, named with the reserved
/// prefix, pointing back to the authored folder.
pub open spec fn spec_skill_links(skills: Seq<SkillFolderView>, target_dir: Seq<char>) -> Seq<
    (Seq<char>, Seq<char>),
> {
    skills.map_values(
        |s: SkillFolderView|
            {
                let link_rel = target_dir + "/"@ + GENERATED_FILE_PREFIX@ + s.name;
                (link_rel, spec_relative_path(link_rel, s.relative_path))
            },
    )
}

/// Plans the skill symlinks: each pair is the link's path relative to the
/// project directory and the link target relative to the link's directory.
pub fn create_skill_symlinks(skills: &Vec<SkillFolder>, target_dir: &str) -> (r: Vec<
    (String, String),
>)
    ensures
        crate::body_generator::entry_views(r@) == spec_skill_links(
            skills@.map_values(|s: SkillFolder| s@),
            target_dir@,
        ),
{
    let ghost views = skills@.map_values(|s: SkillFolder| s@);
    let mut out: Vec<(String, String)> = Vec::new();
    let mut i: usize = 0;
    proof {
        assert(crate::body_generator::entry_views(out@) =~= spec_skill_links(
            views.subrange(0, 0),
            target_dir@,
        ));
    }
    while i < skills.len()
        invariant
            i <= skills@.len(),
            views == skills@.map_values(|s: SkillFolder| s@),
            crate::body_generator::entry_views(out@) == spec_skill_links(
                views.subrange(0, i as int),
                target_dir@,
            ),
        decreases skills@.len() - i,
    {
        proof {
            assert(views[i as int] == skills@[i as int]@);
        }
        let mut link = target_dir.to_owned();
        link.append("/");
        link.append(GENERATED_FILE_PREFIX);
        link.append(skills[i].name.as_str());
        let target = calculate_relative_path(link.as_str(), skills[i].relative_path.as_str());
        let ghost prev = out@;
        out.push((link, target));
        proof {
            assert(out@.drop_last() =~= prev);
            assert(views.subrange(0, i + 1) =~= views.subrange(0, i as int).push(views[i as int]));
            assert(crate::body_generator::entry_views(out@) =~= crate::body_generator::entry_views(
                prev,
            ).push((out@.last().0@, out@.last().1@)));
            assert(spec_skill_links(
                views.subrange(0, i as int).push(views[i as int]),
                target_dir@,
            ) =~= spec_skill_links(views.subrange(0, i as int), target_dir@).push(
                spec_skill_links(views.subrange(0, i + 1), target_dir@).last(),
            ));
        }
        i += 1;
    }
    proof {
        assert(views.subrange(0, views.len() as int) =~= views);
    }
    out
}

/// Picks, out of the enumerated link names, those to remove: exactly the
/// ones carrying the reserved prefix.
pub fn remove_generated_skill_symlinks(link_names: &Vec<String>) -> (r: Vec<String>)
    ensures
        crate::file_utils::string_views(r@) == crate::cleaner::spec_prefixed(
            crate::file_utils::string_views(link_names@),
            GENERATED_FILE_PREFIX@,
        ),
{
    crate::cleaner::select_generated_names(link_names)
}

/// The gitignore pattern of the skill symlinks.
pub fn get_skill_gitignore_patterns(target_dir: &str) -> (r: Vec<String>)
    ensures
        r@.len() == 1,
        r@[0]@ == target_dir@ + "/"@ + GENERATED_FILE_PREFIX@ + "*"@,
{
    let mut p = target_dir.to_owned();
    p.append("/");
    p.append(GENERATED_FILE_PREFIX);
    p.append("*");
    let mut v: Vec<String> = Vec::new();
    v.push(p);
    v
}

} // verus!
