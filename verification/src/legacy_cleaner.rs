//! Retired generated-file locations from conventions agents migrated away
//! from: the cleaner still sweeps them, under the same prefix-safety rule.

use vstd::prelude::*;

use crate::constants::GENERATED_FILE_PREFIX;
use crate::file_utils::string_views;
use crate::paths::{join_path, joined};

verus! {

/// The retired rules directories, relative to a project directory.
pub fn legacy_agent_rule_dirs(current_dir: &str) -> (r: Vec<String>)
    ensures
        r@.len() == 3,
        r@[0]@ == joined(joined(current_dir@, ".roo"@), "rules"@),
        r@[1]@ == joined(current_dir@, ".clinerules"@),
        r@[2]@ == joined(joined(current_dir@, ".kilocode"@), "rules"@),
{
    let mut v: Vec<String> = Vec::new();
    let roo = join_path(current_dir, ".roo");
    v.push(join_path(roo.as_str(), "rules"));
    v.push(join_path(current_dir, ".clinerules"));
    let kilo = join_path(current_dir, ".kilocode");
    v.push(join_path(kilo.as_str(), "rules"));
    v
}

/// What the cleaner may delete from one retired directory: exactly the file
/// names carrying the reserved prefix. The directory itself goes only once
/// it is empty, which the caller checks after the removals.
pub fn clean_legacy_agent_directories(file_names: &Vec<String>) -> (r: Vec<String>)
    ensures
        string_views(r@) == crate::cleaner::spec_prefixed(
            string_views(file_names@),
            GENERATED_FILE_PREFIX@,
        ),
{
    crate::cleaner::select_generated_names(file_names)
}

} // verus!
