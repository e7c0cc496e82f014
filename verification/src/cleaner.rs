//! Deciding what the cleaner may delete.
//!
//! Everything here is a pure decision over names the caller enumerated; the
//! caller performs the removals. The contracts carry the safety rule: a name
//! that does not start with the reserved generated-file prefix is never
//! selected for deletion.

use vstd::prelude::*;

use crate::constants::GENERATED_FILE_PREFIX;
use crate::file_utils::string_views;
use crate::text::{chars_of, starts_with};

verus! {

/// The names of a listing that start with the given prefix, in order.
pub open spec fn spec_prefixed(names: Seq<Seq<char>>, prefix: Seq<char>) -> Seq<Seq<char>> {
    names.filter(|n: Seq<char>| starts_with(n, prefix))
}

/// Picks, out of the enumerated names, those that carry the reserved
/// generated-file prefix: exactly those may be deleted, and a name lacking
/// the prefix is never among them.
pub fn select_generated_names(names: &Vec<String>) -> (r: Vec<String>)
    ensures
        string_views(r@) == spec_prefixed(string_views(names@), GENERATED_FILE_PREFIX@),
        forall|k: int|
            0 <= k < r@.len() ==> starts_with(
                #[trigger] string_views(r@)[k],
                GENERATED_FILE_PREFIX@,
            ),
{
    let r = select_prefixed_names(names, GENERATED_FILE_PREFIX);
    proof {
        lemma_prefixed_all(string_views(names@), GENERATED_FILE_PREFIX@);
    }
    r
}

/// Picks the names that start with `prefix`, keeping their order.
pub fn select_prefixed_names(names: &Vec<String>, prefix: &str) -> (r: Vec<String>)
    ensures
        string_views(r@) == spec_prefixed(string_views(names@), prefix@),
{
    let p = chars_of(prefix);
    let mut out: Vec<String> = Vec::new();
    let mut i: usize = 0;
    proof {
        reveal(Seq::filter);
        assert(string_views(out@) =~= spec_prefixed(
            string_views(names@).subrange(0, 0),
            prefix@,
        ));
    }
    while i < names.len()
        invariant
            i <= names@.len(),
            p@ == prefix@,
            string_views(out@) == spec_prefixed(
                string_views(names@).subrange(0, i as int),
                prefix@,
            ),
        decreases names@.len() - i,
    {
        let ghost views = string_views(names@);
        proof {
            reveal(Seq::filter);
            assert(views.subrange(0, i + 1).drop_last() =~= views.subrange(0, i as int));
            assert(views.subrange(0, i + 1).last() == views[i as int]);
            assert(views[i as int] == names@[i as int]@);
        }
        let cs = chars_of(names[i].as_str());
        if crate::text::starts_with_chars(&cs, &p) {
            let ghost prev = out@;
            out.push(names[i].clone());
            proof {
                assert(out@.drop_last() =~= prev);
                assert(string_views(out@) =~= string_views(prev).push(views[i as int]));
            }
        }
        i += 1;
    }
    proof {
        assert(string_views(names@).subrange(0, names@.len() as int) =~= string_views(names@));
    }
    out
}

/// Everything a prefix filter returns carries the prefix.
pub proof fn lemma_prefixed_all(names: Seq<Seq<char>>, prefix: Seq<char>)
    ensures
        forall|k: int|
            0 <= k < spec_prefixed(names, prefix).len() ==> starts_with(
                #[trigger] spec_prefixed(names, prefix)[k],
                prefix,
            ),
    decreases names.len(),
{
    reveal(Seq::filter);
    if names.len() > 0 {
        lemma_prefixed_all(names.drop_last(), prefix);
        let r = spec_prefixed(names, prefix);
        let rest = spec_prefixed(names.drop_last(), prefix);
        assert forall|k: int| 0 <= k < r.len() implies starts_with(#[trigger] r[k], prefix) by {
            if starts_with(names.last(), prefix) {
                if k < rest.len() {
                    assert(r[k] == rest[k]);
                } else {
                    assert(r[k] == names.last());
                }
            } else {
                assert(r[k] == rest[k]);
            }
        }
    }
}

/// A name without the reserved prefix is never selected: the safety rule of
/// every clean pass, stated on its own.
pub proof fn lemma_prefix_safety(names: Seq<Seq<char>>, name: Seq<char>)
    requires
        !starts_with(name, GENERATED_FILE_PREFIX@),
    ensures
        !spec_prefixed(names, GENERATED_FILE_PREFIX@).contains(name),
{
    lemma_prefixed_all(names, GENERATED_FILE_PREFIX@);
    if spec_prefixed(names, GENERATED_FILE_PREFIX@).contains(name) {
        let k = choose|k: int|
            0 <= k < spec_prefixed(names, GENERATED_FILE_PREFIX@).len()
                && #[trigger] spec_prefixed(names, GENERATED_FILE_PREFIX@)[k] == name;
    }
}

} // verus!
