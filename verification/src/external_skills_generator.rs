//! The shared skills generator: symlinks from an agent's skills directory
//! back to the authored skill bundles.

use vstd::prelude::*;

use crate::constants::GENERATED_FILE_PREFIX;
use crate::file_utils::string_views;
use crate::skills_reader::{
    get_skill_gitignore_patterns, create_skill_symlinks, spec_skill_links, SkillFolder,
};
use crate::text::str_eq;

verus! {

/// Creates one symlink per authored skill under one agent's skills
/// directory. `marks_directories` selects whether its gitignore pattern
/// carries a trailing slash (the skill links point at directories for most
/// agents).
pub struct ExternalSkillsGenerator {
    pub target_dir: String,
    pub marks_directories: bool,
}

impl ExternalSkillsGenerator {
    pub fn new(target_dir: &str) -> (r: ExternalSkillsGenerator)
        ensures
            r.target_dir@ == target_dir@,
            r.marks_directories,
    {
        ExternalSkillsGenerator { target_dir: target_dir.to_owned(), marks_directories: true }
    }

    pub fn skills_target_dir(&self) -> (r: &str)
        ensures
            r@ == self.target_dir@,
    {
        self.target_dir.as_str()
    }

    /// The planned symlinks for the authored skills.
    pub fn generate_skills(&self, skills: &Vec<SkillFolder>) -> (r: Vec<(String, String)>)
        ensures
            crate::body_generator::entry_views(r@) == spec_skill_links(
                skills@.map_values(|s: SkillFolder| s@),
                self.target_dir@,
            ),
    {
        create_skill_symlinks(skills, self.target_dir.as_str())
    }

    /// The link names to delete: exactly those carrying the reserved prefix.
    pub fn clean_skills(&self, link_names: &Vec<String>) -> (r: Vec<String>)
        ensures
            string_views(r@) == crate::cleaner::spec_prefixed(
                string_views(link_names@),
                GENERATED_FILE_PREFIX@,
            ),
    {
        crate::skills_reader::remove_generated_skill_symlinks(link_names)
    }

    /// Whether the skill links are in sync: with no authored skill, no
    /// tool-owned link may exist; otherwise every authored skill must have
    /// its link resolving to the authored folder, and every tool-owned link
    /// must belong to an authored skill.
    pub fn check_skills(&self, skills: &Vec<SkillFolder>, prefixed_links: &Vec<(String, String)>) -> (r:
        bool)
        ensures
            r == spec_skill_links_in_sync(
                skills@.map_values(|s: SkillFolder| s@),
                crate::body_generator::entry_views(prefixed_links@),
                self.target_dir@,
            ),
    {
        check_skill_symlinks_in_sync(skills, prefixed_links, self.target_dir.as_str())
    }

    pub fn skills_gitignore_patterns(&self) -> (r: Vec<String>)
        ensures
            r@.len() == 1,
            r@[0]@ == self.target_dir@ + "/"@ + GENERATED_FILE_PREFIX@ + (if self.marks_directories {
                "*/"@
            } else {
                "*"@
            }),
    {
        if self.marks_directories {
            let mut p = self.target_dir.clone();
            p.append("/");
            p.append(GENERATED_FILE_PREFIX);
            p.append("*/");
            let mut v: Vec<String> = Vec::new();
            v.push(p);
            v
        } else {
            get_skill_gitignore_patterns(self.target_dir.as_str())
        }
    }
}

/// The in-sync condition of the skill links: the prefixed link list is
/// exactly the expected one, by link name and resolved target.
pub open spec fn spec_skill_links_in_sync(
    skills: Seq<crate::skills_reader::SkillFolderView>,
    links: Seq<(Seq<char>, Seq<char>)>,
    target_dir: Seq<char>,
) -> bool {
    if skills.len() == 0 {
        links.len() == 0
    } else {
        &&& (forall|k: int|
            0 <= k < skills.len() ==> crate::file_utils::listing_has(
                links,
                GENERATED_FILE_PREFIX@ + (#[trigger] skills[k]).name,
                skills[k].full_path,
            ))
        &&& (forall|k: int|
            0 <= k < links.len() ==> spec_link_owned(skills, (#[trigger] links[k]).0))
    }
}

/// Some authored skill owns the link of this name.
pub open spec fn spec_link_owned(
    skills: Seq<crate::skills_reader::SkillFolderView>,
    link_name: Seq<char>,
) -> bool {
    exists|m: int|
        0 <= m < skills.len() && GENERATED_FILE_PREFIX@ + (#[trigger] skills[m]).name == link_name
}

/// Decides the skill-link sync condition over the enumerated prefixed links,
/// each given with its resolved target.
pub fn check_skill_symlinks_in_sync(
    skills: &Vec<SkillFolder>,
    prefixed_links: &Vec<(String, String)>,
    target_dir: &str,
) -> (r: bool)
    ensures
        r == spec_skill_links_in_sync(
            skills@.map_values(|s: SkillFolder| s@),
            crate::body_generator::entry_views(prefixed_links@),
            target_dir@,
        ),
{
    let ghost sv = skills@.map_values(|s: SkillFolder| s@);
    let ghost lv = crate::body_generator::entry_views(prefixed_links@);
    if skills.len() == 0 {
        return prefixed_links.len() == 0;
    }
    let mut i: usize = 0;
    while i < skills.len()
        invariant
            i <= skills@.len(),
            sv == skills@.map_values(|s: SkillFolder| s@),
            lv == crate::body_generator::entry_views(prefixed_links@),
            sv.len() > 0,
            forall|k: int|
                0 <= k < i ==> crate::file_utils::listing_has(
                    lv,
                    GENERATED_FILE_PREFIX@ + (#[trigger] sv[k]).name,
                    sv[k].full_path,
                ),
        decreases skills@.len() - i,
    {
        proof {
            assert(sv[i as int] == skills@[i as int]@);
        }
        let mut link_name = GENERATED_FILE_PREFIX.to_owned();
        link_name.append(skills[i].name.as_str());
        let mut found: bool = false;
        let mut k: usize = 0;
        while k < prefixed_links.len()
            invariant
                k <= prefixed_links@.len(),
                i < skills@.len(),
                sv == skills@.map_values(|s: SkillFolder| s@),
                lv == crate::body_generator::entry_views(prefixed_links@),
                link_name@ == GENERATED_FILE_PREFIX@ + sv[i as int].name,
                found == (exists|m: int|
                    0 <= m < k && (#[trigger] lv[m]).0 == link_name@ && lv[m].1 == sv[i as int].full_path),
            decreases prefixed_links@.len() - k,
        {
            proof {
                assert(lv[k as int] == (prefixed_links@[k as int].0@, prefixed_links@[k as int].1@));
            }
            if str_eq(prefixed_links[k].0.as_str(), link_name.as_str()) && str_eq(
                prefixed_links[k].1.as_str(),
                skills[i].full_path.as_str(),
            ) {
                found = true;
            }
            k += 1;
        }
        if !found {
            proof {
                assert(!crate::file_utils::listing_has(
                    lv,
                    GENERATED_FILE_PREFIX@ + sv[i as int].name,
                    sv[i as int].full_path,
                ));
            }
            return false;
        }
        i += 1;
    }
    let mut j: usize = 0;
    while j < prefixed_links.len()
        invariant
            j <= prefixed_links@.len(),
            sv == skills@.map_values(|s: SkillFolder| s@),
            lv == crate::body_generator::entry_views(prefixed_links@),
            sv.len() > 0,
            forall|k: int|
                0 <= k < sv.len() ==> crate::file_utils::listing_has(
                    lv,
                    GENERATED_FILE_PREFIX@ + (#[trigger] sv[k]).name,
                    sv[k].full_path,
                ),
            forall|k: int| 0 <= k < j ==> spec_link_owned(sv, (#[trigger] lv[k]).0),
        decreases prefixed_links@.len() - j,
    {
        proof {
            assert(lv[j as int] == (prefixed_links@[j as int].0@, prefixed_links@[j as int].1@));
        }
        let mut matched: bool = false;
        let mut m: usize = 0;
        while m < skills.len()
            invariant
                m <= skills@.len(),
                j < prefixed_links@.len(),
                sv == skills@.map_values(|s: SkillFolder| s@),
                lv == crate::body_generator::entry_views(prefixed_links@),
                matched == (exists|w: int|
                    0 <= w < m && GENERATED_FILE_PREFIX@ + (#[trigger] sv[w]).name == lv[j as int].0),
            decreases skills@.len() - m,
        {
            proof {
                assert(sv[m as int] == skills@[m as int]@);
            }
            let mut link_name = GENERATED_FILE_PREFIX.to_owned();
            link_name.append(skills[m].name.as_str());
            if str_eq(prefixed_links[j].0.as_str(), link_name.as_str()) {
                matched = true;
            }
            m += 1;
        }
        if !matched {
            proof {
                assert(!spec_link_owned(sv, lv[j as int].0));
                assert(!spec_skill_links_in_sync(sv, lv, target_dir@));
            }
            return false;
        }
        proof {
            assert(spec_link_owned(sv, lv[j as int].0));
        }
        j += 1;
    }
    proof {
        assert(forall|k: int|
            0 <= k < sv.len() ==> crate::file_utils::listing_has(
                lv,
                GENERATED_FILE_PREFIX@ + (#[trigger] sv[k]).name,
                sv[k].full_path,
            ));
        assert(spec_skill_links_in_sync(sv, lv, target_dir@));
    }
    true
}

} // verus!
