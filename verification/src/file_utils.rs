//! Pure file-set reasoning: diffing expected artifacts against a directory
//! listing, relative-path arithmetic, traversal filtering, and ordering.
//!
//! A directory listing is handed in as `Option<Vec<(String, String)>>`:
//! `None` when the directory does not exist, otherwise the files under it
//! with their contents. Symlinks and reads are the caller's business; this
//! module only compares.

use vstd::prelude::*;

use crate::body_generator::entry_views;
use crate::text::{chars_of, ends_with};

verus! {

/// The character sequences of a list of strings.
pub open spec fn string_views(l: Seq<String>) -> Seq<Seq<char>> {
    l.map_values(|s: String| s@)
}

/// No two entries of the listing name the same path, as holds of any real
/// directory listing.
pub open spec fn distinct_paths(l: Seq<(Seq<char>, Seq<char>)>) -> bool {
    forall|i: int, j: int|
        0 <= i < j < l.len() ==> (#[trigger] l[i]).0 != (#[trigger] l[j]).0
}

/// The listing holds a file at `path` with exactly `content`.
pub open spec fn listing_has(l: Seq<(Seq<char>, Seq<char>)>, path: Seq<char>, content: Seq<char>) -> bool {
    exists|k: int| 0 <= k < l.len() && (#[trigger] l[k]).0 == path && l[k].1 == content
}

/// The listing holds a file at `path` (with any content).
pub open spec fn listing_has_path(l: Seq<(Seq<char>, Seq<char>)>, path: Seq<char>) -> bool {
    exists|k: int| 0 <= k < l.len() && (#[trigger] l[k]).0 == path
}

fn lookup<'a>(actual: &'a Vec<(String, String)>, path: &str) -> (r: Option<&'a String>)
    ensures
        match r {
            Some(c) => listing_has(entry_views(actual@), path@, c@),
            None => !listing_has_path(entry_views(actual@), path@),
        },
{
    let ghost l = entry_views(actual@);
    let mut i: usize = 0;
    while i < actual.len()
        invariant
            i <= actual@.len(),
            l == entry_views(actual@),
            forall|k: int| 0 <= k < i ==> (#[trigger] l[k]).0 != path@,
        decreases actual@.len() - i,
    {
        proof {
            assert(l[i as int] == (actual@[i as int].0@, actual@[i as int].1@));
        }
        if crate::text::str_eq(actual[i].0.as_str(), path) {
            return Some(&actual[i].1);
        }
        i += 1;
    }
    None
}

/// Every expected file is present with identical bytes.
pub open spec fn all_expected_present(
    expected: Seq<(Seq<char>, Seq<char>)>,
    l: Seq<(Seq<char>, Seq<char>)>,
) -> bool {
    forall|k: int|
        0 <= k < expected.len() ==> listing_has(
            l,
            (#[trigger] expected[k]).0,
            expected[k].1,
        )
}

/// Exact-match directory check: the directory exists, holds exactly as many
/// files as expected, and every expected file is present with identical
/// content. Any mismatch, extra or missing file reports out of sync.
pub fn check_directory_exact_match(
    expected: &Vec<(String, String)>,
    actual: &Option<Vec<(String, String)>>,
) -> (r: bool)
    requires
        (*actual) matches Some(l) ==> distinct_paths(entry_views(l@)),
    ensures
        r == match *actual {
            Option::None => false,
            Option::Some(l) => entry_views(l@).len() == entry_views(expected@).len()
                && all_expected_present(entry_views(expected@), entry_views(l@)),
        },
{
    let l;
    match actual {
        None => {
            return false;
        },
        Some(inner) => {
            l = inner;
            proof {
                assert(*actual == Some(*inner));
            }
        },
    }
    proof {
        assert(distinct_paths(entry_views(l@)));
    }
    if l.len() != expected.len() {
        return false;
    }
    let ghost le = entry_views(expected@);
    let mut i: usize = 0;
    while i < expected.len()
        invariant
            *actual == Some(*l),
            i <= expected@.len(),
            le == entry_views(expected@),
            distinct_paths(entry_views(l@)),
            forall|k: int|
                0 <= k < i ==> listing_has(
                    entry_views(l@),
                    (#[trigger] le[k]).0,
                    le[k].1,
                ),
        decreases expected@.len() - i,
    {
        proof {
            assert(le[i as int] == (expected@[i as int].0@, expected@[i as int].1@));
        }
        match lookup(l, expected[i].0.as_str()) {
            Some(c) => {
                if !crate::text::str_eq(c.as_str(), expected[i].1.as_str()) {
                    proof {
                        let ghost lv = entry_views(l@);
                        assert(!listing_has(lv, le[i as int].0, le[i as int].1)) by {
                            if listing_has(lv, le[i as int].0, le[i as int].1) {
                                let k1 = choose|k: int|
                                    0 <= k < lv.len() && (#[trigger] lv[k]).0 == le[i as int].0
                                        && lv[k].1 == le[i as int].1;
                                assert(listing_has(lv, le[i as int].0, c@));
                                let k2 = choose|k: int|
                                    0 <= k < lv.len() && (#[trigger] lv[k]).0 == le[i as int].0
                                        && lv[k].1 == c@;
                                if k1 < k2 {
                                    assert(lv[k1].0 != lv[k2].0);
                                } else if k2 < k1 {
                                    assert(lv[k2].0 != lv[k1].0);
                                }
                                assert(k1 == k2);
                            }
                        }
                        assert(!all_expected_present(le, lv)) by {
                            assert(!listing_has(lv, (le[i as int]).0, le[i as int].1));
                        }
                    }
                    return false;
                }
            },
            None => {
                proof {
                    let ghost lv = entry_views(l@);
                    assert(!listing_has(lv, le[i as int].0, le[i as int].1)) by {
                        if listing_has(lv, le[i as int].0, le[i as int].1) {
                            let k = choose|k: int|
                                0 <= k < lv.len() && (#[trigger] lv[k]).0 == le[i as int].0
                                    && lv[k].1 == le[i as int].1;
                            assert(listing_has_path(lv, le[i as int].0));
                        }
                    }
                    assert(!all_expected_present(le, lv));
                }
                return false;
            },
        }
        i += 1;
    }
    true
}

/// Suffix-scoped directory check: a missing directory is in sync only when
/// nothing is expected; otherwise every expected file must be present with
/// identical content, and no file whose name carries the suffix may exist
/// beyond the expected ones.
pub fn check_directory_files_match(
    expected: &Vec<(String, String)>,
    actual: &Option<Vec<(String, String)>>,
    suffix: &str,
) -> (r: bool)
    requires
        (*actual) matches Some(l) ==> distinct_paths(entry_views(l@)),
    ensures
        r == match *actual {
            Option::None => expected@.len() == 0,
            Option::Some(l) => all_expected_present(entry_views(expected@), entry_views(l@))
                && forall|k: int|
                0 <= k < l@.len() ==> (ends_with(
                    (#[trigger] entry_views(l@)[k]).0,
                    "-"@ + suffix@ + ".md"@,
                ) ==> listing_has_path(entry_views(expected@), entry_views(l@)[k].0)),
        },
{
    let l;
    match actual {
        None => {
            return expected.len() == 0;
        },
        Some(inner) => {
            l = inner;
            proof {
                assert(*actual == Some(*inner));
            }
        },
    }
    let ghost le = entry_views(expected@);
    let ghost lv = entry_views(l@);
    proof {
        assert(distinct_paths(lv));
    }

    let mut i: usize = 0;
    while i < expected.len()
        invariant
            *actual == Some(*l),
            i <= expected@.len(),
            le == entry_views(expected@),
            lv == entry_views(l@),
            distinct_paths(lv),
            forall|k: int|
                0 <= k < i ==> listing_has(lv, (#[trigger] le[k]).0, le[k].1),
        decreases expected@.len() - i,
    {
        proof {
            assert(le[i as int] == (expected@[i as int].0@, expected@[i as int].1@));
        }
        match lookup(l, expected[i].0.as_str()) {
            Some(c) => {
                if !crate::text::str_eq(c.as_str(), expected[i].1.as_str()) {
                    proof {
                        assert(!listing_has(lv, le[i as int].0, le[i as int].1)) by {
                            if listing_has(lv, le[i as int].0, le[i as int].1) {
                                let k1 = choose|k: int|
                                    0 <= k < lv.len() && (#[trigger] lv[k]).0 == le[i as int].0
                                        && lv[k].1 == le[i as int].1;
                                assert(listing_has(lv, le[i as int].0, c@));
                                let k2 = choose|k: int|
                                    0 <= k < lv.len() && (#[trigger] lv[k]).0 == le[i as int].0
                                        && lv[k].1 == c@;
                                if k1 < k2 {
                                    assert(lv[k1].0 != lv[k2].0);
                                } else if k2 < k1 {
                                    assert(lv[k2].0 != lv[k1].0);
                                }
                                assert(k1 == k2);
                            }
                        }
                        assert(!all_expected_present(le, lv)) by {
                            assert(!listing_has(lv, (le[i as int]).0, le[i as int].1));
                        }
                    }
                    return false;
                }
            },
            None => {
                proof {
                    let ghost lv = entry_views(l@);
                    assert(!listing_has(lv, le[i as int].0, le[i as int].1)) by {
                        if listing_has(lv, le[i as int].0, le[i as int].1) {
                            let k = choose|k: int|
                                0 <= k < lv.len() && (#[trigger] lv[k]).0 == le[i as int].0
                                    && lv[k].1 == le[i as int].1;
                            assert(listing_has_path(lv, le[i as int].0));
                        }
                    }
                    assert(!all_expected_present(le, lv));
                }
                return false;
            },
        }
        i += 1;
    }

    let mut suffix_pattern = "-".to_owned();
    suffix_pattern.append(suffix);
    suffix_pattern.append(".md");
    let pat = chars_of(suffix_pattern.as_str());
    let mut j: usize = 0;
    while j < l.len()
        invariant
            *actual == Some(*l),
            j <= l@.len(),
            le == entry_views(expected@),
            lv == entry_views(l@),
            pat@ == "-"@ + suffix@ + ".md"@,
            all_expected_present(le, lv),
            forall|k: int|
                0 <= k < j ==> (ends_with((#[trigger] lv[k]).0, "-"@ + suffix@ + ".md"@)
                    ==> listing_has_path(le, lv[k].0)),
        decreases l@.len() - j,
    {
        proof {
            assert(lv[j as int] == (l@[j as int].0@, l@[j as int].1@));
        }
        let name = chars_of(l[j].0.as_str());
        if crate::text::ends_with_chars(&name, &pat) {
            let mut found: bool = false;
            let mut k: usize = 0;
            while k < expected.len()
                invariant
                    k <= expected@.len(),
                    le == entry_views(expected@),
                    lv == entry_views(l@),
                    j < l@.len(),
                    found == (exists|m: int|
                        0 <= m < k && (#[trigger] le[m]).0 == lv[j as int].0),
                decreases expected@.len() - k,
            {
                proof {
                    assert(le[k as int] == (expected@[k as int].0@, expected@[k as int].1@));
                }
                if crate::text::str_eq(expected[k].0.as_str(), l[j].0.as_str()) {
                    found = true;
                }
                k += 1;
            }
            if !found {
                proof {
                    assert(!listing_has_path(le, lv[j as int].0)) by {
                        if listing_has_path(le, lv[j as int].0) {
                            let m = choose|m: int|
                                0 <= m < le.len() && (#[trigger] le[m]).0 == lv[j as int].0;
                            assert(le[m].0 == lv[j as int].0);
                        }
                    }
                }
                return false;
            }
        }
        j += 1;
    }
    true
}

/// The relative path from the directory of `from_path` back up to the
/// project root and down to the target: one `../` per `/` in `from_path`.
pub open spec fn spec_relative_path(from: Seq<char>, target: Seq<char>) -> Seq<char>
    decreases from.len(),
{
    if from.len() == 0 {
        target
    } else if from.last() == '/' {
        "../"@ + spec_relative_path(from.drop_last(), target)
    } else {
        spec_relative_path(from.drop_last(), target)
    }
}

/// How a symlink placed at `from_path` (relative to the project root)
/// reaches `target_relative_to_root`: `../` once per directory level.
pub fn calculate_relative_path(from_path: &str, target_relative_to_root: &str) -> (r: String)
    ensures
        r@ == spec_relative_path(from_path@, target_relative_to_root@),
{
    let cs = chars_of(from_path);
    let mut up: String = String::new();
    let mut i: usize = 0;
    proof {
        assert(cs@.subrange(0, 0) =~= Seq::<char>::empty());
        assert(up@ =~= spec_relative_path(cs@.subrange(0, 0), Seq::<char>::empty()));
    }
    while i < cs.len()
        invariant
            i <= cs@.len(),
            cs@ == from_path@,
            up@ == spec_relative_path(cs@.subrange(0, i as int), Seq::<char>::empty()),
        decreases cs@.len() - i,
    {
        proof {
            assert(cs@.subrange(0, i + 1).drop_last() =~= cs@.subrange(0, i as int));
            assert(cs@.subrange(0, i + 1).last() == cs@[i as int]);
        }
        if cs[i] == '/' {
            let mut next = "../".to_owned();
            next.append(up.as_str());
            up = next;
        }
        i += 1;
    }
    proof {
        assert(cs@.subrange(0, cs@.len() as int) =~= cs@);
    }
    let mut out = up;
    out.append(target_relative_to_root);
    proof {
        lemma_relative_path_target(from_path@, target_relative_to_root@);
    }
    out
}

/// The relative prefix does not depend on the target: with an empty target
/// it is exactly the `../` repetitions, and any target is appended after.
proof fn lemma_relative_path_target(from: Seq<char>, target: Seq<char>)
    ensures
        spec_relative_path(from, target) == spec_relative_path(from, Seq::<char>::empty())
            + target,
    decreases from.len(),
{
    if from.len() == 0 {
        assert(spec_relative_path(from, Seq::<char>::empty()) + target =~= target);
    } else {
        lemma_relative_path_target(from.drop_last(), target);
        if from.last() == '/' {
            assert("../"@ + (spec_relative_path(from.drop_last(), Seq::<char>::empty()) + target)
                =~= ("../"@ + spec_relative_path(from.drop_last(), Seq::<char>::empty()))
                + target);
        }
    }
}

/// The directory names that the nested traversal never descends into.
pub open spec fn spec_excluded_directories() -> Seq<Seq<char>> {
    seq![
        "ai-rules"@, "target"@, "build"@, "dist"@, "out"@, "bin"@, "obj"@, "node_modules"@,
        "vendor"@, "packages"@, "__pycache__"@, ".pytest_cache"@, ".cache"@, ".vscode"@, ".idea"@,
        ".vs"@, "tmp"@, "temp"@, "logs"@,
    ]
}

/// A directory is traversed unless it is hidden (starts with `.`) or one of
/// the conventional build and vendor directories.
pub open spec fn spec_should_traverse(name: Seq<char>) -> bool {
    !(name.len() > 0 && name[0] == '.') && !(exists|k: int|
        0 <= k < spec_excluded_directories().len() && #[trigger] spec_excluded_directories()[k]
            == name)
}

pub fn should_traverse_directory(dir_name: &str) -> (r: bool)
    ensures
        r == spec_should_traverse(dir_name@),
{
    let cs = chars_of(dir_name);
    if cs.len() > 0 && cs[0] == '.' {
        return false;
    }
    let mut excluded: Vec<String> = Vec::new();
    excluded.push("ai-rules".to_owned());
    excluded.push("target".to_owned());
    excluded.push("build".to_owned());
    excluded.push("dist".to_owned());
    excluded.push("out".to_owned());
    excluded.push("bin".to_owned());
    excluded.push("obj".to_owned());
    excluded.push("node_modules".to_owned());
    excluded.push("vendor".to_owned());
    excluded.push("packages".to_owned());
    excluded.push("__pycache__".to_owned());
    excluded.push(".pytest_cache".to_owned());
    excluded.push(".cache".to_owned());
    excluded.push(".vscode".to_owned());
    excluded.push(".idea".to_owned());
    excluded.push(".vs".to_owned());
    excluded.push("tmp".to_owned());
    excluded.push("temp".to_owned());
    excluded.push("logs".to_owned());
    proof {
        assert(string_views(excluded@) =~= spec_excluded_directories());
    }
    let mut i: usize = 0;
    while i < excluded.len()
        invariant
            i <= excluded@.len(),
            string_views(excluded@) == spec_excluded_directories(),
            forall|k: int| 0 <= k < i ==> #[trigger] spec_excluded_directories()[k] != dir_name@,
        decreases excluded@.len() - i,
    {
        proof {
            assert(spec_excluded_directories()[i as int] == excluded@[i as int]@);
        }
        if crate::text::string_eq_str(&excluded[i], dir_name) {
            return false;
        }
        i += 1;
    }
    true
}

/// Strict lexicographic order on character sequences, which is also how
/// `str` ordering compares strings made of ASCII.
pub open spec fn lex_lt(a: Seq<char>, b: Seq<char>) -> bool
    decreases a.len(),
{
    if b.len() == 0 {
        false
    } else if a.len() == 0 {
        true
    } else if a[0] != b[0] {
        a[0] < b[0]
    } else {
        lex_lt(a.drop_first(), b.drop_first())
    }
}

pub fn lex_lt_strings(a: &str, b: &str) -> (r: bool)
    ensures
        r == lex_lt(a@, b@),
{
    let ca = chars_of(a);
    let cb = chars_of(b);
    let mut i: usize = 0;
    proof {
        assert(a@.subrange(0, a@.len() as int) =~= a@);
        assert(b@.subrange(0, b@.len() as int) =~= b@);
    }
    while i < ca.len() && i < cb.len()
        invariant
            ca@ == a@,
            cb@ == b@,
            i <= ca@.len(),
            i <= cb@.len(),
            forall|k: int| 0 <= k < i ==> ca@[k] == cb@[k],
            lex_lt(a@, b@) == lex_lt(
                a@.subrange(i as int, a@.len() as int),
                b@.subrange(i as int, b@.len() as int),
            ),
        decreases ca@.len() - i,
    {
        proof {
            lemma_lex_lt_step(
                a@.subrange(i as int, a@.len() as int),
                b@.subrange(i as int, b@.len() as int),
            );
            assert(a@.subrange(i as int, a@.len() as int).drop_first() =~= a@.subrange(
                i + 1,
                a@.len() as int,
            ));
            assert(b@.subrange(i as int, b@.len() as int).drop_first() =~= b@.subrange(
                i + 1,
                b@.len() as int,
            ));
        }
        if ca[i] < cb[i] {
            return true;
        }
        if cb[i] < ca[i] {
            return false;
        }
        i += 1;
    }
    proof {
        assert(a@.subrange(i as int, a@.len() as int).len() == a@.len() - i);
        assert(b@.subrange(i as int, b@.len() as int).len() == b@.len() - i);
    }
    i < cb.len()
}

proof fn lemma_lex_lt_step(a: Seq<char>, b: Seq<char>)
    requires
        a.len() > 0,
        b.len() > 0,
    ensures
        a[0] == b[0] ==> lex_lt(a, b) == lex_lt(a.drop_first(), b.drop_first()),
        a[0] != b[0] ==> lex_lt(a, b) == (a[0] < b[0]),
{
}

/// Sorted strictly ascending: every earlier entry is lexicographically
/// below every later one, so no two entries repeat.
pub open spec fn strictly_sorted(l: Seq<Seq<char>>) -> bool {
    forall|i: int, j: int| 0 <= i < j < l.len() ==> lex_lt(#[trigger] l[i], #[trigger] l[j])
}

proof fn lemma_lex_lt_trichotomy(a: Seq<char>, b: Seq<char>)
    ensures
        lex_lt(a, b) || lex_lt(b, a) || a == b,
    decreases a.len(),
{
    if b.len() == 0 {
        if a.len() == 0 {
            assert(a =~= b);
        }
    } else if a.len() == 0 {
    } else if a[0] == b[0] {
        lemma_lex_lt_trichotomy(a.drop_first(), b.drop_first());
        if !lex_lt(a, b) && !lex_lt(b, a) {
            assert(a.drop_first() == b.drop_first());
            assert(a =~= Seq::empty().push(a[0]) + a.drop_first());
            assert(b =~= Seq::empty().push(b[0]) + b.drop_first());
        }
    }
}

/// Sorts the given names ascending and removes duplicates: the result is
/// strictly sorted and holds exactly the character sequences of the input.
pub fn sorted_unique_strings(names: &Vec<String>) -> (r: Vec<String>)
    ensures
        strictly_sorted(string_views(r@)),
        forall|v: Seq<char>|
            #[trigger] string_views(r@).contains(v) <==> string_views(names@).contains(v),
{
    let ghost in_views = string_views(names@);
    let mut out: Vec<String> = Vec::new();
    let mut i: usize = 0;
    proof {
        assert(in_views.subrange(0, 0) =~= Seq::<Seq<char>>::empty());
        assert forall|v: Seq<char>|
            #[trigger] string_views(out@).contains(v) <==> in_views.subrange(0, 0).contains(
                v,
            ) by {
            if string_views(out@).contains(v) {
                let k = choose|k: int|
                    0 <= k < out@.len() && string_views(out@)[k] == v;
            }
        }
    }
    while i < names.len()
        invariant
            i <= names@.len(),
            in_views == string_views(names@),
            strictly_sorted(string_views(out@)),
            forall|v: Seq<char>|
                #[trigger] string_views(out@).contains(v) <==> in_views.subrange(
                    0,
                    i as int,
                ).contains(v),
        decreases names@.len() - i,
    {
        proof {
            assert(in_views[i as int] == names@[i as int]@);
        }
        out = insert_sorted(out, &names[i]);
        proof {
            let ghost ovs = string_views(out@);
            assert forall|v: Seq<char>| #[trigger] ovs.contains(v) <==> in_views.subrange(
                0,
                i + 1,
            ).contains(v) by {
                assert(in_views.subrange(0, i + 1).drop_last() =~= in_views.subrange(0, i as int));
                if in_views.subrange(0, i + 1).contains(v) {
                    let k = choose|k: int|
                        0 <= k < i + 1 && #[trigger] in_views.subrange(0, i + 1)[k] == v;
                    if k < i {
                        assert(in_views.subrange(0, i as int)[k] == v);
                    }
                }
                if in_views.subrange(0, i as int).contains(v) {
                    let k = choose|k: int|
                        0 <= k < i && #[trigger] in_views.subrange(0, i as int)[k] == v;
                    assert(in_views.subrange(0, i + 1)[k] == v);
                }
                if v == in_views[i as int] {
                    assert(in_views.subrange(0, i + 1)[i as int] == v);
                }
            }
        }
        i += 1;
    }
    proof {
        assert(in_views.subrange(0, in_views.len() as int) =~= in_views);
    }
    out
}

/// Inserts a name into a strictly sorted list, keeping it strictly sorted;
/// a name already present is not repeated.
fn insert_sorted(list: Vec<String>, name: &String) -> (r: Vec<String>)
    requires
        strictly_sorted(string_views(list@)),
    ensures
        strictly_sorted(string_views(r@)),
        forall|v: Seq<char>|
            #[trigger] string_views(r@).contains(v) <==> (string_views(list@).contains(v) || v == name@),
{
    let ghost lv = string_views(list@);
    let mut pos: usize = 0;
    while pos < list.len() && lex_lt_strings(list[pos].as_str(), name.as_str())
        invariant
            pos <= list@.len(),
            lv == string_views(list@),
            forall|k: int| 0 <= k < pos ==> lex_lt(#[trigger] lv[k], name@),
        decreases list@.len() - pos,
    {
        proof {
            assert(lv[pos as int] == list@[pos as int]@);
        }
        pos += 1;
    }
    proof {
        if pos < list@.len() {
            assert(lv[pos as int] == list@[pos as int]@);
        }
    }
    if pos < list.len() && crate::text::str_eq(list[pos].as_str(), name.as_str()) {
        proof {
            assert forall|v: Seq<char>| #[trigger] lv.contains(v) <==> (lv.contains(v) || v == name@) by {
                if v == name@ {
                    assert(lv[pos as int] == v);
                }
            }
        }
        return list;
    }
    let mut out: Vec<String> = Vec::new();
    let mut i: usize = 0;
    while i < pos
        invariant
            pos <= list@.len(),
            i <= pos,
            lv == string_views(list@),
            out@ =~= list@.subrange(0, i as int),
        decreases pos - i,
    {
        out.push(list[i].clone());
        proof {
            assert(out@ =~= list@.subrange(0, i + 1));
        }
        i += 1;
    }
    out.push(name.clone());
    let mut j: usize = pos;
    proof {
        assert(out@ =~= list@.subrange(0, pos as int).push(*name));
    }
    while j < list.len()
        invariant
            pos <= j <= list@.len(),
            lv == string_views(list@),
            out@ =~= list@.subrange(0, pos as int).push(*name) + list@.subrange(
                pos as int,
                j as int,
            ),
        decreases list@.len() - j,
    {
        out.push(list[j].clone());
        proof {
            assert(out@ =~= list@.subrange(0, pos as int).push(*name) + list@.subrange(
                pos as int,
                j + 1,
            ));
        }
        j += 1;
    }
    proof {
        let ghost ovs = string_views(out@);
        let ghost full = lv.subrange(0, pos as int).push(name@) + lv.subrange(
            pos as int,
            lv.len() as int,
        );
        assert(out@ =~= list@.subrange(0, pos as int).push(*name) + list@.subrange(
            pos as int,
            list@.len() as int,
        ));
        assert forall|k: int| 0 <= k < ovs.len() implies #[trigger] ovs[k] == full[k] by {
            assert(ovs[k] == out@[k]@);
            if k < pos {
                assert(out@[k] == list@[k]);
                assert(lv[k] == list@[k]@);
            } else if k == pos {
                assert(out@[k] == *name);
            } else {
                assert(out@[k] == list@[k - 1]);
                assert(lv[k - 1] == list@[k - 1]@);
            }
        }
        assert(ovs =~= full);
        // Everything before the insertion point is below `name`; everything
        // at or after it is above, since the list is strictly sorted and the
        // entry at the point is not equal to `name`.
        assert forall|k: int| pos <= k < lv.len() implies lex_lt(name@, #[trigger] lv[k]) by {
            lemma_lex_lt_trichotomy(name@, lv[pos as int]);
            if pos < list@.len() {
                assert(lv[pos as int] == list@[pos as int]@);
            }
            if k > pos {
                assert(lex_lt(lv[pos as int], lv[k]));
                if !lex_lt(name@, lv[k]) {
                    lemma_lex_lt_trichotomy(name@, lv[k]);
                    if lex_lt(lv[k], name@) {
                        lemma_lex_lt_transitive(lv[pos as int], lv[k], name@);
                    }
                    if lv[k] == name@ {
                    }
                }
            }
        }
        assert(strictly_sorted(ovs)) by {
            assert forall|x: int, y: int| 0 <= x < y < ovs.len() implies lex_lt(
                #[trigger] ovs[x],
                #[trigger] ovs[y],
            ) by {
                if x < pos && y < pos {
                } else if x < pos && y == pos {
                } else if x < pos && y > pos {
                    if !lex_lt(ovs[x], ovs[y]) {
                        assert(lex_lt(lv[x], lv[y - 1]));
                    }
                } else if x == pos {
                    assert(ovs[x] == name@);
                    assert(ovs[y] == lv[y - 1]);
                } else {
                    assert(ovs[x] == lv[x - 1]);
                    assert(ovs[y] == lv[y - 1]);
                }
            }
        }
        assert forall|v: Seq<char>| #[trigger] ovs.contains(v) <==> (lv.contains(v) || v == name@) by {
            if ovs.contains(v) {
                let k = choose|k: int| 0 <= k < ovs.len() && #[trigger] ovs[k] == v;
                if k < pos {
                    assert(lv[k] == v);
                } else if k == pos {
                } else {
                    assert(lv[k - 1] == v);
                }
            }
            if lv.contains(v) {
                let k = choose|k: int| 0 <= k < lv.len() && #[trigger] lv[k] == v;
                if k < pos {
                    assert(ovs[k] == v);
                } else {
                    assert(ovs[k + 1] == v);
                }
            }
            if v == name@ {
                assert(ovs[pos as int] == v);
            }
        }
    }
    out
}

proof fn lemma_lex_lt_transitive(a: Seq<char>, b: Seq<char>, c: Seq<char>)
    requires
        lex_lt(a, b),
        lex_lt(b, c),
    ensures
        lex_lt(a, c),
    decreases a.len() + b.len() + c.len(),
{
    if b.len() > 0 && c.len() > 0 && a.len() > 0 {
        if a[0] == b[0] && b[0] == c[0] {
            lemma_lex_lt_transitive(a.drop_first(), b.drop_first(), c.drop_first());
        }
    }
}

/// The symlink a pass-through agent gets: the link at the agent's
/// conventional output path and the relative target reaching the single
/// source document; nothing when that document does not exist.
pub fn create_symlink_to_agents_md(
    current_dir: &str,
    output_path: &str,
    source_exists: bool,
) -> (r: Option<(String, String)>)
    ensures
        match r {
            Some(pair) => source_exists && pair.0@ == crate::paths::joined(
                current_dir@,
                output_path@,
            ) && pair.1@ == spec_relative_path(
                output_path@,
                crate::constants::AI_RULE_SOURCE_DIR@ + "/"@
                    + crate::constants::AGENTS_MD_FILENAME@,
            ),
            None => !source_exists,
        },
{
    if !source_exists {
        return None;
    }
    let mut source_rel = crate::constants::AI_RULE_SOURCE_DIR.to_owned();
    source_rel.append("/");
    source_rel.append(crate::constants::AGENTS_MD_FILENAME);
    let link = crate::paths::join_path(current_dir, output_path);
    let target = calculate_relative_path(output_path, source_rel.as_str());
    Some((link, target))
}

} // verus!
