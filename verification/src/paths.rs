//! Relative paths of the generated artifacts, built with `/` separators.

use vstd::prelude::*;

use crate::constants::{AI_RULE_SOURCE_DIR, GENERATED_RULE_BODY_DIR};

verus! {

/// `b` under directory `a`; an empty `a` leaves `b` alone.
pub open spec fn joined(a: Seq<char>, b: Seq<char>) -> Seq<char> {
    if a.len() == 0 {
        b
    } else {
        a + "/"@ + b
    }
}

pub fn join_path(a: &str, b: &str) -> (r: String)
    ensures
        r@ == joined(a@, b@),
{
    if a.is_empty() {
        b.to_owned()
    } else {
        let mut out = a.to_owned();
        out.append("/");
        out.append(b);
        out
    }
}

/// The hidden directory that holds the generated body files, under the rule
/// source directory of `dir`.
pub open spec fn spec_body_file_dir(dir: Seq<char>) -> Seq<char> {
    joined(joined(dir, AI_RULE_SOURCE_DIR@), GENERATED_RULE_BODY_DIR@)
}

pub fn generated_body_file_dir(current_dir: &str) -> (r: String)
    ensures
        r@ == spec_body_file_dir(current_dir@),
{
    let s = join_path(current_dir, AI_RULE_SOURCE_DIR);
    join_path(s.as_str(), GENERATED_RULE_BODY_DIR)
}

/// The path a reference line uses for a generated file: relative to the
/// project directory, under the rule source directory.
pub open spec fn spec_reference_path(filename: Seq<char>) -> Seq<char> {
    AI_RULE_SOURCE_DIR@ + "/"@ + GENERATED_RULE_BODY_DIR@ + "/"@ + filename
}

pub fn generated_body_file_reference_path(filename: &str) -> (r: String)
    ensures
        r@ == spec_reference_path(filename@),
{
    let mut out = AI_RULE_SOURCE_DIR.to_owned();
    out.append("/");
    out.append(GENERATED_RULE_BODY_DIR);
    out.append("/");
    out.append(filename);
    out
}

/// The rule source directory of a project directory.
pub fn get_ai_rules_dir(current_dir: &str) -> (r: String)
    ensures
        r@ == joined(current_dir@, AI_RULE_SOURCE_DIR@),
{
    join_path(current_dir, AI_RULE_SOURCE_DIR)
}

} // verus!
