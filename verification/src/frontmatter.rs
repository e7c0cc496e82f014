//! Splitting a rule document into its YAML frontmatter block and its body.
//!
//! A document carries frontmatter when, after leading whitespace, it starts
//! with the `---` delimiter; the block runs to the next `---`, and the body is
//! what follows, left-trimmed. Documents without a complete frontmatter block
//! are handed back whole.

use vstd::prelude::*;

use crate::text::{
    chars_of, find_sub, match_at, starts_with, starts_with_chars, string_of, subvec, trim_chars,
    trim_start_chars, trimmed, trimmed_start,
};

verus! {

/// The characters of the YAML frontmatter delimiter, `---`.
pub open spec fn fm_delim() -> Seq<char> {
    seq!['-', '-', '-']
}

/// A document split into an optional raw frontmatter block and a body.
pub struct ParsedContent<T> {
    pub frontmatter: Option<T>,
    pub body: String,
    pub raw_content: String,
}

pub fn frontmatter_delimiter_chars() -> (r: Vec<char>)
    ensures
        r@ == fm_delim(),
{
    let mut d: Vec<char> = Vec::new();
    d.push('-');
    d.push('-');
    d.push('-');
    assert(d@ =~= fm_delim());
    d
}

/// Splits content into its raw frontmatter block and its body, without
/// reading the YAML. Returns `(Some(block), body)` when a complete
/// frontmatter block is present, and `(None, content)` otherwise.
pub fn split_frontmatter(content: &str) -> (r: (Option<String>, String))
    ensures
        ({
            let t = trimmed_start(content@);
            let d = fm_delim();
            &&& (!starts_with(t, d) ==> r.0 is None && r.1@ == content@)
            &&& ((starts_with(t, d) && (forall|j: int| 3 <= j ==> !match_at(t, d, j))) ==> r.0
                is None && r.1@ == content@)
            &&& (starts_with(t, d) ==> (forall|i: int|
                (3 <= i && #[trigger] match_at(t, d, i) && (forall|j: int|
                    3 <= j < i ==> !match_at(t, d, j))) ==> {
                    &&& r.0 matches Some(fm) && fm@ == trimmed(t.subrange(3, i))
                    &&& r.1@ == trimmed_start(t.subrange(i + 3, t.len() as int))
                }))
        }),
{
    let cs = chars_of(content);
    let t = trim_start_chars(&cs);
    let d = frontmatter_delimiter_chars();

    if !starts_with_chars(&t, &d) {
        return (None, content.to_owned());
    }

    match find_sub(&t, &d, 3) {
        None => (None, content.to_owned()),
        Some(i) => {
            let tlen: usize = t.len();
            proof {
                assert(fm_delim().len() == 3);
                assert(i + 3 <= tlen);
            }
            let fm = string_of(&trim_chars(&subvec(&t, 3, i)));
            let body = string_of(&trim_start_chars(&subvec(&t, i + 3, tlen)));
            (Some(fm), body)
        },
    }
}

} // verus!
