//! Reading the rule set out of the rule source directory's documents, and
//! the pass-through mode decision.

use vstd::prelude::*;

use crate::constants::AGENTS_MD_FILENAME;
use crate::frontmatter::fm_delim;
use crate::source_file::{
    spec_parse_ok, spec_parsed_body, spec_parsed_front_matter, ParseError, SourceFile,
};
use crate::text::{chars_of, path_file_name, path_file_stem, starts_with, starts_with_chars, string_eq_str, string_of, trim_start_chars, trimmed_start};

verus! {

/// The repo-wide pass-through decision: the rule source directory holds
/// exactly one markdown document, it is the reserved single-file name, and
/// its content carries no frontmatter block (after leading whitespace it
/// does not start with the delimiter).
pub open spec fn spec_symlink_mode(md_file_names: Seq<Seq<char>>, content: Option<Seq<char>>) -> bool {
    &&& md_file_names.len() == 1
    &&& path_file_name(md_file_names[0]) == AGENTS_MD_FILENAME@
    &&& content matches Some(c) && !starts_with(trimmed_start(c), fm_delim())
}

/// Decides pass-through mode from the enumerated markdown file names and,
/// when there is exactly one, its content. The decision is one pure
/// function, so generation, status and clean can never disagree about it.
pub fn detect_symlink_mode(md_file_names: &Vec<String>, content: &Option<String>) -> (r: bool)
    ensures
        r == spec_symlink_mode(
            crate::file_utils::string_views(md_file_names@),
            crate::markdown_based::opt_view(*content),
        ),
{
    let ghost nv = crate::file_utils::string_views(md_file_names@);
    if md_file_names.len() != 1 {
        return false;
    }
    proof {
        assert(nv[0] == md_file_names@[0]@);
    }
    let name_chars = chars_of(md_file_names[0].as_str());
    let file_name = string_of(&crate::text::file_name_chars(&name_chars));
    if !string_eq_str(&file_name, AGENTS_MD_FILENAME) {
        return false;
    }
    match content {
        None => false,
        Some(c) => {
            let cs = chars_of(c.as_str());
            let t = trim_start_chars(&cs);
            let d = crate::frontmatter::frontmatter_delimiter_chars();
            !starts_with_chars(&t, &d)
        },
    }
}

/// Every enumerated rule document parses.
pub open spec fn spec_all_docs_parse(docs: Seq<(String, String)>) -> bool {
    forall|k: int| 0 <= k < docs.len() ==> spec_parse_ok((#[trigger] docs[k]).1@)
}

/// The rule a document parses to, its base name taken from the document's
/// file stem.
pub open spec fn spec_doc_rule(doc: (String, String)) -> crate::source_file::RuleView {
    crate::source_file::RuleView {
        front_matter: spec_parsed_front_matter(doc.1@, doc.0@),
        body: spec_parsed_body(doc.1@),
        base_file_name: path_file_stem(doc.0@),
    }
}

/// Parses every enumerated rule document, in order; the first parse failure
/// aborts the directory's whole rule set with that document's error. Each
/// rule's base name is its document's file stem.
pub fn parse_source_files(docs: &Vec<(String, String)>) -> (r: Result<Vec<SourceFile>, ParseError>)
    ensures
        r is Ok <==> spec_all_docs_parse(docs@),
        r matches Ok(v) ==> v@.len() == docs@.len() && forall|k: int|
            0 <= k < v@.len() ==> (#[trigger] v@[k])@ == spec_doc_rule(docs@[k]),
        r matches Err(e) ==> exists|k: int|
            0 <= k < docs@.len() && (forall|j: int|
                0 <= j < k ==> spec_parse_ok(#[trigger] docs@[j].1@)) && !spec_parse_ok(
                (#[trigger] docs@[k]).1@,
            ) && crate::source_file::spec_parse_error_matches(e, docs@[k].1@, docs@[k].0@),
{
    let mut out: Vec<SourceFile> = Vec::new();
    let mut i: usize = 0;
    while i < docs.len()
        invariant
            i <= docs@.len(),
            out@.len() == i,
            forall|j: int| 0 <= j < i ==> spec_parse_ok(#[trigger] docs@[j].1@),
            forall|k: int| 0 <= k < i ==> (#[trigger] out@[k])@ == spec_doc_rule(docs@[k]),
        decreases docs@.len() - i,
    {
        match SourceFile::parse(docs[i].1.as_str(), docs[i].0.as_str()) {
            Ok(sf) => {
                let base = crate::source_file::base_name_from_path(docs[i].0.as_str());
                out.push(
                    SourceFile {
                        front_matter: sf.front_matter,
                        body: sf.body,
                        base_file_name: base,
                    },
                );
            },
            Err(e) => {
                proof {
                    assert(!spec_parse_ok(docs@[i as int].1@));
                }
                return Err(e);
            },
        }
        i += 1;
    }
    Ok(out)
}

/// The rule set of one directory, from its enumerated documents: empty when
/// there are none, else every document parsed; any parse failure aborts.
pub fn find_source_files(docs: &Vec<(String, String)>) -> (r: Result<Vec<SourceFile>, ParseError>)
    ensures
        r is Ok <==> spec_all_docs_parse(docs@),
        r matches Ok(v) ==> v@.len() == docs@.len() && forall|k: int|
            0 <= k < v@.len() ==> (#[trigger] v@[k])@ == spec_doc_rule(docs@[k]),
        r matches Err(e) ==> exists|k: int|
            0 <= k < docs@.len() && (forall|j: int|
                0 <= j < k ==> spec_parse_ok(#[trigger] docs@[j].1@)) && !spec_parse_ok(
                (#[trigger] docs@[k]).1@,
            ) && crate::source_file::spec_parse_error_matches(e, docs@[k].1@, docs@[k].0@),
{
    parse_source_files(docs)
}

} // verus!
