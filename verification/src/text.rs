//! Character-level utilities shared by the parsing and generation code.
//!
//! Strings cross this module's boundary as `String` / `&str`; computation
//! happens on `Vec<char>`, whose view is the same `Seq<char>` as the string's,
//! so contracts stated over one carry to the other.

use vstd::prelude::*;

verus! {

/// Relies on str::chars with Vec's FromIterator: collects exactly the
/// characters of the string, in order.
#[verifier::external_body]
pub fn chars_of(s: &str) -> (r: Vec<char>)
    ensures
        r@ == s@,
{
    s.chars().collect()
}

/// Relies on String's FromIterator<char>: builds the string whose characters
/// are exactly the vector's, in order.
#[verifier::external_body]
pub fn string_of(cs: &Vec<char>) -> (r: String)
    ensures
        r@ == cs@,
{
    cs.iter().collect()
}

/// The needle occurs in `s` at position `i`.
pub open spec fn match_at(s: Seq<char>, needle: Seq<char>, i: int) -> bool {
    0 <= i && i + needle.len() <= s.len() && s.subrange(i, i + needle.len()) == needle
}

pub open spec fn starts_with(s: Seq<char>, p: Seq<char>) -> bool {
    p.len() <= s.len() && s.subrange(0, p.len() as int) == p
}

pub open spec fn ends_with(s: Seq<char>, p: Seq<char>) -> bool {
    p.len() <= s.len() && s.subrange(s.len() - p.len(), s.len() as int) == p
}

/// The Unicode white-space characters, as `char::is_whitespace` counts them.
pub open spec fn is_ws(c: char) -> bool {
    ||| c == ' '
    ||| c == '\t'
    ||| c == '\n'
    ||| c == '\r'
    ||| c == '\u{000B}'
    ||| c == '\u{000C}'
    ||| c == '\u{0085}'
    ||| c == '\u{00A0}'
    ||| c == '\u{1680}'
    ||| ('\u{2000}' <= c && c <= '\u{200A}')
    ||| c == '\u{2028}'
    ||| c == '\u{2029}'
    ||| c == '\u{202F}'
    ||| c == '\u{205F}'
    ||| c == '\u{3000}'
}

pub open spec fn trimmed_start(s: Seq<char>) -> Seq<char>
    decreases s.len(),
{
    if s.len() > 0 && is_ws(s[0]) {
        trimmed_start(s.drop_first())
    } else {
        s
    }
}

pub open spec fn trimmed_end(s: Seq<char>) -> Seq<char>
    decreases s.len(),
{
    if s.len() > 0 && is_ws(s[s.len() - 1]) {
        trimmed_end(s.drop_last())
    } else {
        s
    }
}

pub open spec fn trimmed(s: Seq<char>) -> Seq<char> {
    trimmed_end(trimmed_start(s))
}

/// The content with exactly the trailing newline the generated files promise:
/// unchanged if it already ends in one, else with one appended.
pub open spec fn with_trailing_newline(s: Seq<char>) -> Seq<char> {
    if s.len() > 0 && s[s.len() - 1] == '\n' {
        s
    } else {
        s.push('\n')
    }
}

pub fn is_ws_char(c: char) -> (r: bool)
    ensures
        r == is_ws(c),
{
    c == ' ' || c == '\t' || c == '\n' || c == '\r' || c == '\u{000B}' || c == '\u{000C}'
        || c == '\u{0085}' || c == '\u{00A0}' || c == '\u{1680}' || ('\u{2000}' <= c && c
        <= '\u{200A}') || c == '\u{2028}' || c == '\u{2029}' || c == '\u{202F}' || c == '\u{205F}'
        || c == '\u{3000}'
}

/// The needle matches `s` at position `i` (false when it does not fit there).
pub fn match_at_chars(s: &Vec<char>, needle: &Vec<char>, i: usize) -> (r: bool)
    ensures
        r == match_at(s@, needle@, i as int),
{
    if i > s.len() || needle.len() > s.len() - i {
        assert(!match_at(s@, needle@, i as int));
        return false;
    }
    let mut j: usize = 0;
    while j < needle.len()
        invariant
            i + needle.len() <= s.len(),
            j <= needle.len(),
            forall|k: int| 0 <= k < j ==> s@[i + k] == needle@[k],
        decreases needle.len() - j,
    {
        if s[i + j] != needle[j] {
            assert(s@.subrange(i as int, i + needle@.len())[j as int] != needle@[j as int]);
            return false;
        }
        j += 1;
    }
    assert(s@.subrange(i as int, i + needle@.len()) =~= needle@);
    true
}

pub fn starts_with_chars(s: &Vec<char>, p: &Vec<char>) -> (r: bool)
    ensures
        r == starts_with(s@, p@),
{
    match_at_chars(s, p, 0)
}

pub fn ends_with_chars(s: &Vec<char>, p: &Vec<char>) -> (r: bool)
    ensures
        r == ends_with(s@, p@),
{
    if p.len() > s.len() {
        return false;
    }
    match_at_chars(s, p, s.len() - p.len())
}

/// The position of the first occurrence of the needle at or after `from`,
/// or `None` when there is none.
pub fn find_sub(s: &Vec<char>, needle: &Vec<char>, from: usize) -> (r: Option<usize>)
    ensures
        match r {
            Some(i) => from <= i && match_at(s@, needle@, i as int) && forall|j: int|
                from <= j < i ==> !match_at(s@, needle@, j),
            None => forall|j: int| from <= j ==> !match_at(s@, needle@, j),
        },
{
    if from > s.len() {
        assert(forall|j: int| j >= from ==> !match_at(s@, needle@, j));
        return None;
    }
    let mut i: usize = from;
    while i < s.len()
        invariant
            from <= i <= s@.len(),
            forall|j: int| from <= j < i ==> !match_at(s@, needle@, j),
        decreases s.len() - i,
    {
        if match_at_chars(s, needle, i) {
            return Some(i);
        }
        i += 1;
    }
    if match_at_chars(s, needle, i) {
        return Some(i);
    }
    assert(forall|j: int| j > s@.len() ==> !match_at(s@, needle@, j));
    None
}

pub fn subvec(s: &Vec<char>, i: usize, j: usize) -> (r: Vec<char>)
    requires
        i <= j <= s@.len(),
    ensures
        r@ == s@.subrange(i as int, j as int),
{
    let mut out: Vec<char> = Vec::new();
    let mut k: usize = i;
    while k < j
        invariant
            i <= k <= j <= s@.len(),
            out@ =~= s@.subrange(i as int, k as int),
        decreases j - k,
    {
        out.push(s[k]);
        k += 1;
    }
    assert(out@ =~= s@.subrange(i as int, j as int));
    out
}

proof fn lemma_trimmed_start_step(s: Seq<char>, i: int)
    requires
        0 <= i <= s.len(),
        forall|k: int| 0 <= k < i ==> is_ws(s[k]),
    ensures
        trimmed_start(s) == trimmed_start(s.subrange(i, s.len() as int)),
    decreases i,
{
    if i > 0 {
        assert(is_ws(s[0]));
        assert(s.drop_first() =~= s.subrange(1, s.len() as int));
        let t = s.subrange(1, s.len() as int);
        lemma_trimmed_start_step(t, i - 1);
        assert(t.subrange(i - 1, t.len() as int) =~= s.subrange(i, s.len() as int));
    } else {
        assert(s.subrange(0, s.len() as int) =~= s);
    }
}

pub fn trim_start_chars(s: &Vec<char>) -> (r: Vec<char>)
    ensures
        r@ == trimmed_start(s@),
{
    let mut i: usize = 0;
    while i < s.len() && is_ws_char(s[i])
        invariant
            i <= s@.len(),
            forall|k: int| 0 <= k < i ==> is_ws(s@[k]),
        decreases s@.len() - i,
    {
        i += 1;
    }
    proof {
        lemma_trimmed_start_step(s@, i as int);
        let t = s@.subrange(i as int, s@.len() as int);
        assert(t.len() == 0 || !is_ws(t[0]));
        assert(trimmed_start(t) == t);
    }
    subvec(s, i, s.len())
}

proof fn lemma_trimmed_end_step(s: Seq<char>, i: int)
    requires
        0 <= i <= s.len(),
        forall|k: int| i <= k < s.len() ==> is_ws(s[k]),
    ensures
        trimmed_end(s) == trimmed_end(s.subrange(0, i)),
    decreases s.len() - i,
{
    if i < s.len() {
        assert(is_ws(s[s.len() - 1]));
        assert(s.drop_last() =~= s.subrange(0, s.len() - 1));
        let t = s.subrange(0, s.len() - 1);
        lemma_trimmed_end_step(t, i);
        assert(t.subrange(0, i) =~= s.subrange(0, i));
    } else {
        assert(s.subrange(0, i) =~= s);
    }
}

pub fn trim_end_chars(s: &Vec<char>) -> (r: Vec<char>)
    ensures
        r@ == trimmed_end(s@),
{
    let mut i: usize = s.len();
    while i > 0 && is_ws_char(s[i - 1])
        invariant
            i <= s@.len(),
            forall|k: int| i <= k < s@.len() ==> is_ws(s@[k]),
        decreases i,
    {
        i -= 1;
    }
    proof {
        lemma_trimmed_end_step(s@, i as int);
        let t = s@.subrange(0, i as int);
        assert(t.len() == 0 || !is_ws(t[t.len() - 1]));
        assert(trimmed_end(t) == t);
    }
    subvec(s, 0, i)
}

pub fn trim_chars(s: &Vec<char>) -> (r: Vec<char>)
    ensures
        r@ == trimmed(s@),
{
    let t = trim_start_chars(s);
    trim_end_chars(&t)
}

/// The position of the last occurrence of `c` in `s`, or `None`.
pub fn rfind_char(s: &Vec<char>, c: char) -> (r: Option<usize>)
    ensures
        match r {
            Some(i) => i < s@.len() && s@[i as int] == c && forall|j: int|
                i < j < s@.len() ==> s@[j] != c,
            None => forall|j: int| 0 <= j < s@.len() ==> s@[j] != c,
        },
{
    let mut i: usize = s.len();
    while i > 0
        invariant
            i <= s@.len(),
            forall|j: int| i <= j < s@.len() ==> s@[j] != c,
        decreases i,
    {
        i -= 1;
        if s[i] == c {
            return Some(i);
        }
    }
    None
}

/// The segment of a path after its last `/`: the whole path when it holds
/// no `/` at all.
pub open spec fn path_file_name(s: Seq<char>) -> Seq<char> {
    if exists|i: int| 0 <= i < s.len() && s[i] == '/' {
        let i = choose|i: int|
            0 <= i < s.len() && s[i] == '/' && forall|j: int| i < j < s.len() ==> s[j] != '/';
        s.subrange(i + 1, s.len() as int)
    } else {
        s
    }
}

/// The file name shorn of its extension: everything before the last `.`,
/// except that a leading `.` alone does not start an extension.
pub open spec fn stem_of(name: Seq<char>) -> Seq<char> {
    if exists|i: int| 1 <= i < name.len() && name[i] == '.' {
        let i = choose|i: int|
            1 <= i < name.len() && name[i] == '.' && forall|j: int|
                i < j < name.len() ==> name[j] != '.';
        name.subrange(0, i)
    } else {
        name
    }
}

pub open spec fn path_file_stem(s: Seq<char>) -> Seq<char> {
    stem_of(path_file_name(s))
}

pub fn file_name_chars(s: &Vec<char>) -> (r: Vec<char>)
    ensures
        r@ == path_file_name(s@),
{
    let n: usize = s.len();
    match rfind_char(s, '/') {
        Some(i) => {
            assert(i < n);
            let r = subvec(s, i + 1, n);
            proof {
                let w = choose|w: int|
                    0 <= w < s@.len() && s@[w] == '/' && forall|j: int|
                        w < j < s@.len() ==> s@[j] != '/';
                assert(s@[i as int] == '/');
                assert(w == i);
            }
            r
        },
        None => {
            let r = subvec(s, 0, s.len());
            proof {
                assert(r@ =~= s@);
            }
            r
        },
    }
}

pub fn stem_chars(name: &Vec<char>) -> (r: Vec<char>)
    ensures
        r@ == stem_of(name@),
{
    match rfind_char(name, '.') {
        Some(i) if i >= 1 => {
            let r = subvec(name, 0, i);
            proof {
                let w = choose|w: int|
                    1 <= w < name@.len() && name@[w] == '.' && forall|j: int|
                        w < j < name@.len() ==> name@[j] != '.';
                assert(w == i);
            }
            r
        },
        _ => {
            let r = subvec(name, 0, name.len());
            proof {
                assert(r@ =~= name@);
                assert(!(exists|i: int| 1 <= i < name@.len() && name@[i] == '.')) by {
                    if exists|i: int| 1 <= i < name@.len() && name@[i] == '.' {
                        let i = choose|i: int| 1 <= i < name@.len() && name@[i] == '.';
                        assert(name@[i] == '.');
                    }
                }
            }
            r
        },
    }
}

/// The pieces of `s` between occurrences of `c`: one piece more than there
/// are separators, empties kept, as `str::split` yields them.
pub open spec fn split_char(s: Seq<char>, c: char) -> Seq<Seq<char>>
    decreases s.len(),
{
    if s.len() == 0 {
        seq![Seq::<char>::empty()]
    } else {
        let p = split_char(s.drop_last(), c);
        if s.last() == c {
            p.push(Seq::<char>::empty())
        } else {
            p.update(p.len() - 1, p.last().push(s.last()))
        }
    }
}

pub proof fn lemma_split_char_len(s: Seq<char>, c: char)
    ensures
        split_char(s, c).len() >= 1,
    decreases s.len(),
{
    if s.len() > 0 {
        lemma_split_char_len(s.drop_last(), c);
    }
}

/// Splits on `c`, yielding owned pieces.
pub fn split_char_exec(s: &Vec<char>, c: char) -> (r: Vec<Vec<char>>)
    ensures
        r@.map_values(|p: Vec<char>| p@) == split_char(s@, c),
{
    let mut done: Vec<Vec<char>> = Vec::new();
    let mut cur: Vec<char> = Vec::new();
    let mut i: usize = 0;
    proof {
        assert(done@.map_values(|p: Vec<char>| p@).push(cur@) =~= split_char(
            s@.subrange(0, 0),
            c,
        )) by {
            assert(s@.subrange(0, 0) =~= Seq::<char>::empty());
        }
    }
    while i < s.len()
        invariant
            i <= s@.len(),
            done@.map_values(|p: Vec<char>| p@).push(cur@) == split_char(s@.subrange(0, i as int), c),
        decreases s@.len() - i,
    {
        proof {
            assert(s@.subrange(0, i + 1).drop_last() =~= s@.subrange(0, i as int));
            assert(s@.subrange(0, i + 1).last() == s@[i as int]);
        }
        let ghost prev = done@.map_values(|p: Vec<char>| p@).push(cur@);
        if s[i] == c {
            done.push(cur);
            cur = Vec::new();
            proof {
                assert(done@.map_values(|p: Vec<char>| p@).push(cur@) =~= split_char(
                    s@.subrange(0, i + 1),
                    c,
                )) by {
                    assert(done@.drop_last().map_values(|p: Vec<char>| p@) =~= done@.map_values(
                        |p: Vec<char>| p@,
                    ).drop_last());
                }
            }
        } else {
            cur.push(s[i]);
            proof {
                lemma_split_char_len(s@.subrange(0, i as int), c);
                assert(prev.update(prev.len() - 1, prev.last().push(s@[i as int])) =~= done@
                    .map_values(|p: Vec<char>| p@).push(cur@));
            }
        }
        i += 1;
    }
    proof {
        assert(s@.subrange(0, s@.len() as int) =~= s@);
    }
    done.push(cur);
    proof {
        assert(done@.map_values(|p: Vec<char>| p@) =~= done@.drop_last().map_values(
            |p: Vec<char>| p@,
        ).push(cur@));
        assert(done@.drop_last().map_values(|p: Vec<char>| p@).push(cur@) =~= split_char(
            s@,
            c,
        ));
    }
    done
}

/// Each piece trimmed, empty pieces dropped: the normal form of a
/// comma-separated field.
pub open spec fn trimmed_nonempty(ps: Seq<Seq<char>>) -> Seq<Seq<char>>
    decreases ps.len(),
{
    if ps.len() == 0 {
        Seq::empty()
    } else {
        let rest = trimmed_nonempty(ps.drop_last());
        if trimmed(ps.last()).len() > 0 {
            rest.push(trimmed(ps.last()))
        } else {
            rest
        }
    }
}

/// The comma-separated field `s` split, trimmed and cleared of empties.
pub open spec fn comma_list(s: Seq<char>) -> Seq<Seq<char>> {
    trimmed_nonempty(split_char(s, ','))
}

/// Splits a comma-separated field into its trimmed, non-empty entries.
pub fn split_comma_list(s: &str) -> (r: Vec<String>)
    ensures
        r@.map_values(|p: String| p@) == comma_list(s@),
{
    let cs = chars_of(s);
    let pieces = split_char_exec(&cs, ',');
    let mut out: Vec<String> = Vec::new();
    let mut i: usize = 0;
    proof {
        assert(pieces@.map_values(|p: Vec<char>| p@).subrange(0, 0) =~= Seq::<Seq<char>>::empty());
        assert(out@.map_values(|p: String| p@) =~= Seq::<Seq<char>>::empty());
    }
    while i < pieces.len()
        invariant
            i <= pieces@.len(),
            pieces@.map_values(|p: Vec<char>| p@) == split_char(cs@, ','),
            out@.map_values(|p: String| p@) == trimmed_nonempty(
                pieces@.map_values(|p: Vec<char>| p@).subrange(0, i as int),
            ),
        decreases pieces@.len() - i,
    {
        let ghost pviews = pieces@.map_values(|p: Vec<char>| p@);
        proof {
            assert(pviews.subrange(0, i + 1).drop_last() =~= pviews.subrange(0, i as int));
            assert(pviews.subrange(0, i + 1).last() == pviews[i as int]);
        }
        let t = trim_chars(&pieces[i]);
        if t.len() > 0 {
            out.push(string_of(&t));
            proof {
                assert(out@.map_values(|p: String| p@) =~= out@.drop_last().map_values(
                    |p: String| p@,
                ).push(trimmed(pviews[i as int])));
            }
        }
        i += 1;
    }
    proof {
        assert(pieces@.map_values(|p: Vec<char>| p@).subrange(
            0,
            pieces@.len() as int,
        ) =~= pieces@.map_values(|p: Vec<char>| p@));
    }
    out
}

/// Whether two strings hold the same characters.
pub fn str_eq(a: &str, b: &str) -> (r: bool)
    ensures
        r == (a@ == b@),
{
    let sa = a.to_owned();
    let sb = b.to_owned();
    sa == sb
}

/// Whether a string equals the given owned string.
pub fn string_eq_str(a: &String, b: &str) -> (r: bool)
    ensures
        r == (a@ == b@),
{
    str_eq(a.as_str(), b)
}

/// Guarantees the POSIX trailing newline on generated file content.
pub fn ensure_trailing_newline(content: String) -> (r: String)
    ensures
        r@ == with_trailing_newline(content@),
{
    let cs = chars_of(content.as_str());
    if cs.len() > 0 && cs[cs.len() - 1] == '\n' {
        content
    } else {
        let mut out = content;
        out.append("\n");
        proof {
            reveal_strlit("\n");
        }
        assert(out@ =~= with_trailing_newline(cs@));
        out
    }
}

} // verus!
