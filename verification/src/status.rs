//! The reconciliation outcome: per (directory, agent), in-sync or
//! out-of-sync, recomputed fresh on every invocation and never persisted.

use vstd::prelude::*;

use crate::body_generator::{entry_views, spec_body_contents, spec_optional_index_files};
use crate::file_utils::{all_expected_present, check_directory_exact_match, distinct_paths};
use crate::source_file::{rule_views, SourceFile};

verus! {

/// The whole project's outcome.
pub struct ProjectStatus {
    /// Some directory's generated body files do not match, which makes every
    /// agent's references unverifiable.
    pub body_files_out_of_sync: bool,
    /// Per agent: whether everything it owns is in sync.
    pub agent_statuses: Vec<(String, bool)>,
    /// Whether any visited directory holds rules at all.
    pub has_ai_rules: bool,
}

/// Whether one directory's generated body directory matches exactly what the
/// rules produce: the body file of every rule plus the optional-rules index
/// documents for the selected agents; with no rules the directory must be
/// absent.
pub fn check_body_files(
    source_files: &Vec<SourceFile>,
    current_dir: &str,
    agents: &Vec<String>,
    actual: &Option<Vec<(String, String)>>,
) -> (r: bool)
    requires
        (*actual) matches Some(l) ==> distinct_paths(entry_views(l@)),
    ensures
        r == ({
            let expected = spec_body_contents(rule_views(source_files@), current_dir@)
                + spec_optional_index_files(
                rule_views(source_files@),
                current_dir@,
                agents@.map_values(|s: String| s@),
            );
            if rule_views(source_files@).len() == 0 {
                *actual is None
            } else {
                match *actual {
                    Option::None => false,
                    Option::Some(l) => entry_views(l@).len() == expected.len()
                        && all_expected_present(expected, entry_views(l@)),
                }
            }
        }),
{
    if source_files.len() == 0 {
        return actual.is_none();
    }
    let mut expected = crate::body_generator::generate_body_contents(source_files, current_dir);
    let more = crate::body_generator::generate_optional_rule_files_for_agents(
        source_files,
        current_dir,
        agents,
    );
    let ghost head = expected@;
    let mut i: usize = 0;
    proof {
        assert(entry_views(expected@) =~= entry_views(head) + entry_views(more@.subrange(0, 0)));
    }
    while i < more.len()
        invariant
            i <= more@.len(),
            entry_views(expected@) == entry_views(head) + entry_views(more@.subrange(0, i as int)),
        decreases more@.len() - i,
    {
        let ghost prev = expected@;
        expected.push((more[i].0.clone(), more[i].1.clone()));
        proof {
            assert(expected@.drop_last() =~= prev);
            assert(more@.subrange(0, i + 1) =~= more@.subrange(0, i as int).push(more@[i as int]));
            assert(entry_views(expected@) =~= entry_views(prev).push(
                (expected@.last().0@, expected@.last().1@),
            ));
            assert(entry_views(more@.subrange(0, i + 1)) =~= entry_views(
                more@.subrange(0, i as int),
            ).push((more@[i as int].0@, more@[i as int].1@)));
            assert(entry_views(head) + entry_views(more@.subrange(0, i as int)).push(
                (expected@.last().0@, expected@.last().1@),
            ) =~= (entry_views(head) + entry_views(more@.subrange(0, i as int))).push(
                (expected@.last().0@, expected@.last().1@),
            ));
        }
        i += 1;
    }
    proof {
        assert(more@.subrange(0, more@.len() as int) =~= more@);
    }
    check_directory_exact_match(&expected, actual)
}

/// One directory's gathered evidence: whether it holds rules, whether its
/// body files match, and each configured agent's own outcome there.
pub struct DirectoryStatus {
    pub has_rules: bool,
    pub body_files_ok: bool,
    pub agent_ok: Vec<(String, bool)>,
}

/// Folds the per-directory evidence into the project outcome: any directory
/// with a body-file mismatch forces every agent out of sync; otherwise an
/// agent is in sync exactly when it is in sync in every directory; and the
/// project has rules when any directory does.
pub fn check_project_status(agents: &Vec<String>, dirs: &Vec<DirectoryStatus>) -> (r: ProjectStatus)
    requires
        forall|d: int|
            0 <= d < dirs@.len() ==> (#[trigger] dirs@[d]).agent_ok@.len() == agents@.len(),
    ensures
        r.body_files_out_of_sync == (exists|d: int|
            0 <= d < dirs@.len() && !(#[trigger] dirs@[d]).body_files_ok),
        r.has_ai_rules == (exists|d: int| 0 <= d < dirs@.len() && (#[trigger] dirs@[d]).has_rules),
        r.agent_statuses@.len() == agents@.len(),
        forall|a: int|
            0 <= a < agents@.len() ==> (#[trigger] r.agent_statuses@[a]).0@ == agents@[a]@
                && r.agent_statuses@[a].1 == (forall|d: int|
                0 <= d < dirs@.len() ==> ((#[trigger] dirs@[d]).agent_ok@[a].1
                    && dirs@[d].body_files_ok)),
{
    let mut body_files_out_of_sync = false;
    let mut has_ai_rules = false;
    let mut d: usize = 0;
    while d < dirs.len()
        invariant
            d <= dirs@.len(),
            body_files_out_of_sync == (exists|k: int|
                0 <= k < d && !(#[trigger] dirs@[k]).body_files_ok),
            has_ai_rules == (exists|k: int| 0 <= k < d && (#[trigger] dirs@[k]).has_rules),
        decreases dirs@.len() - d,
    {
        if !dirs[d].body_files_ok {
            body_files_out_of_sync = true;
        }
        if dirs[d].has_rules {
            has_ai_rules = true;
        }
        d += 1;
    }

    let mut agent_statuses: Vec<(String, bool)> = Vec::new();
    let mut a: usize = 0;
    while a < agents.len()
        invariant
            a <= agents@.len(),
            forall|k: int|
                0 <= k < dirs@.len() ==> (#[trigger] dirs@[k]).agent_ok@.len() == agents@.len(),
            agent_statuses@.len() == a,
            forall|x: int|
                0 <= x < a ==> (#[trigger] agent_statuses@[x]).0@ == agents@[x]@
                    && agent_statuses@[x].1 == (forall|k: int|
                    0 <= k < dirs@.len() ==> ((#[trigger] dirs@[k]).agent_ok@[x].1
                        && dirs@[k].body_files_ok)),
        decreases agents@.len() - a,
    {
        let mut ok = true;
        let mut k: usize = 0;
        while k < dirs.len()
            invariant
                k <= dirs@.len(),
                a < agents@.len(),
                forall|m: int|
                    0 <= m < dirs@.len() ==> (#[trigger] dirs@[m]).agent_ok@.len()
                        == agents@.len(),
                ok == (forall|m: int|
                    0 <= m < k ==> ((#[trigger] dirs@[m]).agent_ok@[a as int].1
                        && dirs@[m].body_files_ok)),
            decreases dirs@.len() - k,
        {
            if !dirs[k].agent_ok[a].1 || !dirs[k].body_files_ok {
                ok = false;
            }
            k += 1;
        }
        agent_statuses.push((agents[a].clone(), ok));
        a += 1;
    }

    ProjectStatus { body_files_out_of_sync, agent_statuses, has_ai_rules }
}

} // verus!
