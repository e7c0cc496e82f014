//! The rule model: one parsed source document, its frontmatter, and the
//! per-agent applicability decision.

use vstd::prelude::*;

use crate::constants::GENERATED_FILE_PREFIX;
use crate::frontmatter::{fm_delim, frontmatter_delimiter_chars};
use crate::text::{
    chars_of, find_sub, match_at, path_file_name, path_file_stem, rfind_char, split_comma_list,
    starts_with, starts_with_chars, string_of, subvec, trim_start_chars, trimmed_start,
};

verus! {

/// Why a rule document could not be parsed.
#[derive(Debug)]
pub enum ParseError {
    /// The document is empty after trimming leading whitespace.
    EmptyFile { path: String },
    /// The frontmatter block has no body after it (a closing delimiter is
    /// missing or nothing follows it).
    MissingBody { path: String },
    /// The frontmatter block is not valid YAML for the recognized keys.
    InvalidFrontmatter { path: String },
}

impl ParseError {
    /// The human-readable description of the failure, naming the document.
    pub fn message(&self) -> (r: String)
        ensures
            ({
                match self {
                    ParseError::EmptyFile { path } => r@ == "File '"@ + path@ + "' is empty"@,
                    ParseError::MissingBody { path } => r@ == "Missing body content after frontmatter in file '"@
                        + path@ + "'"@,
                    ParseError::InvalidFrontmatter { path } => r@
                        == "Failed to parse YAML frontmatter in file '"@ + path@
                        + "'. Ensure the YAML is valid and properly formatted"@,
                }
            }),
    {
        match self {
            ParseError::EmptyFile { path } => {
                let mut m = "File '".to_owned();
                m.append(path.as_str());
                m.append("' is empty");
                m
            },
            ParseError::MissingBody { path } => {
                let mut m = "Missing body content after frontmatter in file '".to_owned();
                m.append(path.as_str());
                m.append("'");
                m
            },
            ParseError::InvalidFrontmatter { path } => {
                let mut m = "Failed to parse YAML frontmatter in file '".to_owned();
                m.append(path.as_str());
                m.append("'. Ensure the YAML is valid and properly formatted");
                m
            },
        }
    }
}

/// The recognized frontmatter keys of a rule document.
#[derive(Debug)]
pub struct FrontMatter {
    /// Human label; defaults to the file stem when absent.
    pub description: String,
    /// Required rule (`true`) or optional rule (`false`).
    pub always_apply: bool,
    /// Advisory scoping globs, comma-split, trimmed, empties dropped;
    /// an empty result is `None`, never an empty list.
    pub file_matching_patterns: Option<Vec<String>>,
    /// Exclusive allow-list of agent names, matched case-insensitively.
    pub allowed_agents: Option<Vec<String>>,
    /// Deny-list of agent names, applied only when no allow-list is set.
    pub blocked_agents: Option<Vec<String>>,
}

/// The description a rule gets when its frontmatter names none: the file
/// stem, or `Rule` for a path with an empty stem.
pub open spec fn default_description(path: Seq<char>) -> Seq<char> {
    if path_file_stem(path).len() > 0 {
        path_file_stem(path)
    } else {
        "Rule"@
    }
}

impl FrontMatter {
    /// The frontmatter a document without a frontmatter block gets: a
    /// required rule described by its file stem.
    pub fn with_defaults_from_path(file_path: &str) -> (r: FrontMatter)
        ensures
            r.description@ == default_description(file_path@),
            r.always_apply,
            r.file_matching_patterns is None,
            r.allowed_agents is None,
            r.blocked_agents is None,
    {
        let cs = chars_of(file_path);
        let name = crate::text::file_name_chars(&cs);
        let stem = crate::text::stem_chars(&name);
        let description = if stem.len() > 0 {
            string_of(&stem)
        } else {
            proof {
                reveal_strlit("Rule");
            }
            "Rule".to_owned()
        };
        FrontMatter {
            description,
            always_apply: true,
            file_matching_patterns: None,
            allowed_agents: None,
            blocked_agents: None,
        }
    }
}

/// One parsed rule document.
#[derive(Debug)]
pub struct SourceFile {
    pub front_matter: FrontMatter,
    pub body: String,
    /// The source file's stem, which names every artifact generated from it.
    pub base_file_name: String,
}

/// The generated body file's name for a rule: the reserved prefix, the last
/// path segment of the base name, and the `.md` extension, under the base
/// name's directory part if it has one.
pub open spec fn body_file_name_of(base: Seq<char>) -> Seq<char> {
    let name = GENERATED_FILE_PREFIX@ + path_file_name(base) + ".md"@;
    if exists|i: int| 0 <= i < base.len() && base[i] == '/' {
        let i = choose|i: int|
            0 <= i < base.len() && base[i] == '/' && forall|j: int|
                i < j < base.len() ==> base[j] != '/';
        base.subrange(0, i) + seq!['/'] + name
    } else {
        name
    }
}

/// The stem of a source path, which becomes a rule's `base_file_name`.
pub fn base_name_from_path(path: &str) -> (r: String)
    ensures
        r@ == path_file_stem(path@),
{
    let cs = chars_of(path);
    let name = crate::text::file_name_chars(&cs);
    string_of(&crate::text::stem_chars(&name))
}

impl SourceFile {
    /// The name of this rule's generated body file.
    pub fn get_body_file_name(&self) -> (r: String)
        ensures
            r@ == body_file_name_of(self.base_file_name@),
    {
        let cs = chars_of(self.base_file_name.as_str());
        let file = crate::text::file_name_chars(&cs);
        let mut name = GENERATED_FILE_PREFIX.to_owned();
        name.append(string_of(&file).as_str());
        name.append(".md");
        proof {
            reveal_strlit(".md");
        }
        match rfind_char(&cs, '/') {
            Some(i) => {
                let mut out = string_of(&subvec(&cs, 0, i));
                out.append("/");
                out.append(name.as_str());
                proof {
                    reveal_strlit("/");
                    let w = choose|w: int|
                        0 <= w < cs@.len() && cs@[w] == '/' && forall|j: int|
                            w < j < cs@.len() ==> cs@[j] != '/';
                    assert(w == i);
                    assert(cs@.subrange(0, i as int) + "/"@ =~= cs@.subrange(0, i as int) + seq![
                        '/',
                    ]);
                }
                out
            },
            None => {
                assert(!(exists|i: int| 0 <= i < cs@.len() && cs@[i] == '/')) by {
                    if exists|i: int| 0 <= i < cs@.len() && cs@[i] == '/' {
                        let i = choose|i: int| 0 <= i < cs@.len() && cs@[i] == '/';
                        assert(cs@[i] == '/');
                    }
                }
                name
            },
        }
    }

    /// Parses one rule document. Without a frontmatter block, the whole
    /// trimmed content is the body and the frontmatter is defaulted; with
    /// one, the body is what follows the closing delimiter, left-trimmed,
    /// and the frontmatter fields are decoded from the block between the
    /// delimiters. The result is `Ok` exactly when the document is non-empty
    /// and any frontmatter block it opens is closed and decodes; each error
    /// names its document and comes exactly on its own condition.
    pub fn parse(content: &str, file_path: &str) -> (r: Result<SourceFile, ParseError>)
        ensures
            r is Ok <==> spec_parse_ok(content@),
            r matches Ok(sf) ==> sf@.front_matter == spec_parsed_front_matter(
                content@,
                file_path@,
            ) && sf@.body == spec_parsed_body(content@) && sf@.base_file_name == Seq::<
                char,
            >::empty(),
            r matches Err(e) ==> spec_parse_error_matches(e, content@, file_path@),
    {
        let cs = chars_of(content);
        let t = trim_start_chars(&cs);
        let d = frontmatter_delimiter_chars();

        if t.len() == 0 {
            return Err(ParseError::EmptyFile { path: file_path.to_owned() });
        }

        if !starts_with_chars(&t, &d) {
            let sf = SourceFile {
                front_matter: FrontMatter::with_defaults_from_path(file_path),
                body: string_of(&t),
                base_file_name: String::new(),
            };
            proof {
                assert(sf@.front_matter == spec_parsed_front_matter(content@, file_path@));
            }
            return Ok(sf);
        }

        match find_sub(&t, &d, 3) {
            None => {
                proof {
                    assert(!spec_has_close(t@)) by {
                        if spec_has_close(t@) {
                            let w = choose|i: int| 3 <= i && #[trigger] match_at(t@, fm_delim(), i);
                        }
                    }
                }
                Err(ParseError::MissingBody { path: file_path.to_owned() })
            },
            Some(i) => {
                let tlen: usize = t.len();
                proof {
                    assert(fm_delim().len() == 3);
                    assert(i + 3 <= tlen);
                    assert(spec_has_close(t@));
                    lemma_fm_close_unique(t@, i as int);
                }
                let fm_str = string_of(&subvec(&t, 3, i));
                let body = string_of(&trim_start_chars(&subvec(&t, i + 3, tlen)));
                match front_matter_from_yaml(fm_str.as_str()) {
                    Some(front_matter) => {
                        let sf = SourceFile { front_matter, body, base_file_name: String::new() };
                        proof {
                            assert(sf@.front_matter == spec_parsed_front_matter(
                                content@,
                                file_path@,
                            ));
                        }
                        Ok(sf)
                    },
                    None => Err(ParseError::InvalidFrontmatter { path: file_path.to_owned() }),
                }
            },
        }
    }
}

/// The trimmed document opens a frontmatter block.
pub open spec fn spec_has_fm(t: Seq<char>) -> bool {
    starts_with(t, fm_delim())
}

/// Some closing delimiter follows the opening one.
pub open spec fn spec_has_close(t: Seq<char>) -> bool {
    exists|i: int| 3 <= i && #[trigger] match_at(t, fm_delim(), i)
}

/// The position of the first closing delimiter.
pub open spec fn fm_close(t: Seq<char>) -> int {
    choose|i: int|
        3 <= i && #[trigger] match_at(t, fm_delim(), i) && (forall|j: int|
            3 <= j < i ==> !match_at(t, fm_delim(), j))
}

/// A first match pins `fm_close` to itself.
pub proof fn lemma_fm_close_unique(t: Seq<char>, i: int)
    requires
        3 <= i,
        match_at(t, fm_delim(), i),
        forall|j: int| 3 <= j < i ==> !match_at(t, fm_delim(), j),
    ensures
        fm_close(t) == i,
{
    let w = fm_close(t);
    assert(3 <= w && match_at(t, fm_delim(), w) && (forall|j: int|
        3 <= j < w ==> !match_at(t, fm_delim(), j)));
}

/// The frontmatter block: the text between the delimiters, handed to the
/// YAML reader verbatim.
pub open spec fn spec_fm_text(t: Seq<char>) -> Seq<char> {
    t.subrange(3, fm_close(t))
}

/// The body behind the closing delimiter, left-trimmed only.
pub open spec fn spec_fm_body(t: Seq<char>) -> Seq<char> {
    trimmed_start(t.subrange(fm_close(t) + 3, t.len() as int))
}

/// When parsing succeeds: the document is non-empty and, if it opens a
/// frontmatter block, the block is closed and its fields decode.
pub open spec fn spec_parse_ok(content: Seq<char>) -> bool {
    let t = trimmed_start(content);
    &&& t.len() > 0
    &&& (spec_has_fm(t) ==> spec_has_close(t) && spec_front_matter_ok(spec_fm_text(t)))
}

/// The parsed frontmatter: decoded from the block when there is one, else
/// the defaults derived from the document's path.
pub open spec fn spec_parsed_front_matter(content: Seq<char>, path: Seq<char>) -> FrontMatterView {
    let t = trimmed_start(content);
    if spec_has_fm(t) {
        spec_front_matter(spec_fm_text(t))
    } else {
        FrontMatterView {
            description: default_description(path),
            always_apply: true,
            file_matching_patterns: None,
            allowed_agents: None,
            blocked_agents: None,
        }
    }
}

/// The parsed body: what follows the closing delimiter, left-trimmed, or the
/// whole trimmed document when there is no frontmatter block.
pub open spec fn spec_parsed_body(content: Seq<char>) -> Seq<char> {
    let t = trimmed_start(content);
    if spec_has_fm(t) {
        spec_fm_body(t)
    } else {
        t
    }
}

/// Each error comes exactly on its own condition and names its document.
pub open spec fn spec_parse_error_matches(e: ParseError, content: Seq<char>, path: Seq<char>) -> bool {
    let t = trimmed_start(content);
    match e {
        ParseError::EmptyFile { path: p } => p@ == path && t.len() == 0,
        ParseError::MissingBody { path: p } => p@ == path && t.len() > 0 && spec_has_fm(t)
            && !spec_has_close(t),
        ParseError::InvalidFrontmatter { path: p } => p@ == path && t.len() > 0 && spec_has_fm(t)
            && spec_has_close(t) && !spec_front_matter_ok(spec_fm_text(t)),
    }
}

/// When the frontmatter block decodes: the top level is a YAML mapping,
/// `alwaysApply` is a boolean, and each present optional key has the type
/// the model gives it (`description`/`fileMatching` strings, the agent
/// fields null or lists of strings).
pub open spec fn spec_front_matter_ok(d: Seq<char>) -> bool {
    &&& crate::yaml::spec_yaml_mapping(d)
    &&& (crate::yaml::spec_yaml_has_field(d, "description"@)
        ==> crate::yaml::spec_yaml_string_field(d, "description"@) is Some)
    &&& crate::yaml::spec_yaml_bool_field(d, "alwaysApply"@) is Some
    &&& (crate::yaml::spec_yaml_has_field(d, "fileMatching"@)
        && !crate::yaml::spec_yaml_null_field(d, "fileMatching"@)
        ==> crate::yaml::spec_yaml_string_field(d, "fileMatching"@) is Some)
    &&& (crate::yaml::spec_yaml_has_field(d, "allowedAgents"@)
        && !crate::yaml::spec_yaml_null_field(d, "allowedAgents"@)
        ==> crate::yaml::spec_yaml_string_list_field(d, "allowedAgents"@) is Some)
    &&& (crate::yaml::spec_yaml_has_field(d, "blockedAgents"@)
        && !crate::yaml::spec_yaml_null_field(d, "blockedAgents"@)
        ==> crate::yaml::spec_yaml_string_list_field(d, "blockedAgents"@) is Some)
}

/// The decoded frontmatter: `description` defaults to empty when absent;
/// `fileMatching` is comma-split, trimmed and cleared of empties, with an
/// empty result normalized to absent; absent or null agent fields are
/// absent.
pub open spec fn spec_front_matter(d: Seq<char>) -> FrontMatterView {
    FrontMatterView {
        description: if crate::yaml::spec_yaml_has_field(d, "description"@) {
            crate::yaml::spec_yaml_string_field(d, "description"@)->Some_0
        } else {
            Seq::empty()
        },
        always_apply: crate::yaml::spec_yaml_bool_field(d, "alwaysApply"@)->Some_0,
        file_matching_patterns: if crate::yaml::spec_yaml_has_field(d, "fileMatching"@)
            && !crate::yaml::spec_yaml_null_field(d, "fileMatching"@) {
            let ps = crate::text::comma_list(
                crate::yaml::spec_yaml_string_field(d, "fileMatching"@)->Some_0,
            );
            if ps.len() == 0 {
                None
            } else {
                Some(ps)
            }
        } else {
            None
        },
        allowed_agents: if crate::yaml::spec_yaml_has_field(d, "allowedAgents"@)
            && !crate::yaml::spec_yaml_null_field(d, "allowedAgents"@) {
            Some(crate::yaml::spec_yaml_string_list_field(d, "allowedAgents"@)->Some_0)
        } else {
            None
        },
        blocked_agents: if crate::yaml::spec_yaml_has_field(d, "blockedAgents"@)
            && !crate::yaml::spec_yaml_null_field(d, "blockedAgents"@) {
            Some(crate::yaml::spec_yaml_string_list_field(d, "blockedAgents"@)->Some_0)
        } else {
            None
        },
    }
}

/// Decodes the recognized frontmatter keys from the YAML block, exactly as
/// `spec_front_matter` reads them; fails exactly when `spec_front_matter_ok`
/// does not hold.
fn front_matter_from_yaml(fm_str: &str) -> (r: Option<FrontMatter>)
    ensures
        r is Some <==> spec_front_matter_ok(fm_str@),
        r matches Some(fm) ==> fm@ == spec_front_matter(fm_str@),
{
    if !crate::yaml::yaml_is_mapping(fm_str) {
        return None;
    }

    let description: String = if crate::yaml::yaml_has_field(fm_str, "description") {
        match crate::yaml::yaml_string_field(fm_str, "description") {
            Some(s) => s,
            None => {
                return None;
            },
        }
    } else {
        String::new()
    };

    let always_apply: bool = match crate::yaml::yaml_bool_field(fm_str, "alwaysApply") {
        Some(b) => b,
        None => {
            return None;
        },
    };

    let file_matching_patterns: Option<Vec<String>> = if crate::yaml::yaml_has_field(
        fm_str,
        "fileMatching",
    ) && !crate::yaml::yaml_null_field(fm_str, "fileMatching") {
        match crate::yaml::yaml_string_field(fm_str, "fileMatching") {
            Some(s) => {
                let ps = split_comma_list(s.as_str());
                if ps.len() == 0 {
                    None
                } else {
                    Some(ps)
                }
            },
            None => {
                return None;
            },
        }
    } else {
        None
    };

    let allowed_agents: Option<Vec<String>> = if crate::yaml::yaml_has_field(
        fm_str,
        "allowedAgents",
    ) && !crate::yaml::yaml_null_field(fm_str, "allowedAgents") {
        match crate::yaml::yaml_string_list_field(fm_str, "allowedAgents") {
            Some(l) => Some(l),
            None => {
                return None;
            },
        }
    } else {
        None
    };

    let blocked_agents: Option<Vec<String>> = if crate::yaml::yaml_has_field(
        fm_str,
        "blockedAgents",
    ) && !crate::yaml::yaml_null_field(fm_str, "blockedAgents") {
        match crate::yaml::yaml_string_list_field(fm_str, "blockedAgents") {
            Some(l) => Some(l),
            None => {
                return None;
            },
        }
    } else {
        None
    };

    let fm = FrontMatter {
        description,
        always_apply,
        file_matching_patterns,
        allowed_agents,
        blocked_agents,
    };
    proof {
        assert(fm@.file_matching_patterns == spec_front_matter(fm_str@).file_matching_patterns);
        assert(fm@ == spec_front_matter(fm_str@));
    }
    Some(fm)
}


/// The mathematical model of a rule's frontmatter.
pub ghost struct FrontMatterView {
    pub description: Seq<char>,
    pub always_apply: bool,
    pub file_matching_patterns: Option<Seq<Seq<char>>>,
    pub allowed_agents: Option<Seq<Seq<char>>>,
    pub blocked_agents: Option<Seq<Seq<char>>>,
}

/// The mathematical model of a parsed rule.
pub ghost struct RuleView {
    pub front_matter: FrontMatterView,
    pub body: Seq<char>,
    pub base_file_name: Seq<char>,
}

pub open spec fn opt_views(v: Option<Vec<String>>) -> Option<Seq<Seq<char>>> {
    match v {
        Some(l) => Some(l@.map_values(|s: String| s@)),
        None => None,
    }
}

impl View for FrontMatter {
    type V = FrontMatterView;

    open spec fn view(&self) -> FrontMatterView {
        FrontMatterView {
            description: self.description@,
            always_apply: self.always_apply,
            file_matching_patterns: opt_views(self.file_matching_patterns),
            allowed_agents: opt_views(self.allowed_agents),
            blocked_agents: opt_views(self.blocked_agents),
        }
    }
}

impl View for SourceFile {
    type V = RuleView;

    open spec fn view(&self) -> RuleView {
        RuleView {
            front_matter: self.front_matter@,
            body: self.body@,
            base_file_name: self.base_file_name@,
        }
    }
}

/// The models of a set of rules, in order.
pub open spec fn rule_views(rules: Seq<SourceFile>) -> Seq<RuleView> {
    rules.map_values(|sf: SourceFile| sf@)
}

/// ASCII lowering, which is how agent names are compared.
pub open spec fn lower_char(c: char) -> char {
    if 'A' <= c && c <= 'Z' {
        (((c as u8) + 32) as char)
    } else {
        c
    }
}

pub open spec fn lower_seq(s: Seq<char>) -> Seq<char> {
    s.map_values(|c: char| lower_char(c))
}

/// Whether two agent names are the same, compared case-insensitively.
pub fn agent_name_eq(a: &str, b: &str) -> (r: bool)
    ensures
        r == (lower_seq(a@) == lower_seq(b@)),
{
    let ca = chars_of(a);
    let cb = chars_of(b);
    if ca.len() != cb.len() {
        assert(lower_seq(a@).len() != lower_seq(b@).len());
        return false;
    }
    let mut i: usize = 0;
    while i < ca.len()
        invariant
            ca@ == a@,
            cb@ == b@,
            ca@.len() == cb@.len(),
            i <= ca@.len(),
            forall|k: int| 0 <= k < i ==> lower_char(a@[k]) == lower_char(b@[k]),
        decreases ca@.len() - i,
    {
        let x = ca[i];
        let y = cb[i];
        let lx = if 'A' <= x && x <= 'Z' {
            ((x as u8) + 32) as char
        } else {
            x
        };
        let ly = if 'A' <= y && y <= 'Z' {
            ((y as u8) + 32) as char
        } else {
            y
        };
        if lx != ly {
            assert(lower_seq(a@)[i as int] != lower_seq(b@)[i as int]);
            return false;
        }
        i += 1;
    }
    assert(lower_seq(a@) =~= lower_seq(b@));
    true
}

/// The name is a case-insensitive member of the list.
pub open spec fn spec_name_in(names: Seq<Seq<char>>, agent: Seq<char>) -> bool {
    exists|k: int| 0 <= k < names.len() && lower_seq(#[trigger] names[k]) == lower_seq(agent)
}

fn name_in(names: &Vec<String>, agent: &str) -> (r: bool)
    ensures
        r == spec_name_in(names@.map_values(|s: String| s@), agent@),
{
    let ghost views = names@.map_values(|s: String| s@);
    let mut i: usize = 0;
    while i < names.len()
        invariant
            i <= names@.len(),
            views == names@.map_values(|s: String| s@),
            forall|k: int| 0 <= k < i ==> lower_seq(#[trigger] views[k]) != lower_seq(agent@),
        decreases names@.len() - i,
    {
        if agent_name_eq(names[i].as_str(), agent) {
            assert(views[i as int] == names@[i as int]@);
            return true;
        }
        i += 1;
    }
    false
}

/// Whether a rule applies to the named agent: a set allow-list admits only
/// its members; otherwise a set deny-list excludes its members; otherwise
/// the rule applies to everyone. When both lists are set, the allow-list
/// wins.
pub open spec fn spec_applies_to(fm: FrontMatterView, agent: Seq<char>) -> bool {
    match fm.allowed_agents {
        Some(allowed) => spec_name_in(allowed, agent),
        None => match fm.blocked_agents {
            Some(blocked) => !spec_name_in(blocked, agent),
            None => true,
        },
    }
}

/// A rule applies to every agent of a group.
pub open spec fn spec_applies_to_all(fm: FrontMatterView, agents: Seq<Seq<char>>) -> bool {
    forall|k: int| 0 <= k < agents.len() ==> spec_applies_to(fm, #[trigger] agents[k])
}

impl FrontMatter {
    /// Pure applicability decision for one agent.
    pub fn applies_to(&self, agent_name: &str) -> (r: bool)
        ensures
            r == spec_applies_to(self@, agent_name@),
    {
        match &self.allowed_agents {
            Some(allowed) => name_in(allowed, agent_name),
            None => match &self.blocked_agents {
                Some(blocked) => !name_in(blocked, agent_name),
                None => true,
            },
        }
    }

    /// A rule that sets both an allow-list and a deny-list is ambiguous;
    /// the resolver applies the allow-list, and callers may warn.
    pub fn has_conflicting_agent_lists(&self) -> (r: bool)
        ensures
            r == (self@.allowed_agents is Some && self@.blocked_agents is Some),
    {
        self.allowed_agents.is_some() && self.blocked_agents.is_some()
    }

    /// Applicability for a whole agent group: with an allow-list every
    /// queried agent must be a member; with a deny-list none may be blocked;
    /// with neither the rule applies.
    pub fn applies_to_all(&self, agent_names: &Vec<String>) -> (r: bool)
        ensures
            r == spec_applies_to_all(self@, agent_names@.map_values(|s: String| s@)),
    {
        let ghost views = agent_names@.map_values(|s: String| s@);
        let mut i: usize = 0;
        while i < agent_names.len()
            invariant
                i <= agent_names@.len(),
                views == agent_names@.map_values(|s: String| s@),
                forall|k: int| 0 <= k < i ==> spec_applies_to(self@, #[trigger] views[k]),
            decreases agent_names@.len() - i,
        {
            if !self.applies_to(agent_names[i].as_str()) {
                assert(views[i as int] == agent_names@[i as int]@);
                return false;
            }
            i += 1;
        }
        true
    }
}

/// Clones a vector of strings, keeping every element equal.
pub fn clone_string_vec(v: &Vec<String>) -> (r: Vec<String>)
    ensures
        r@ == v@,
{
    let mut out: Vec<String> = Vec::new();
    let mut i: usize = 0;
    while i < v.len()
        invariant
            i <= v@.len(),
            out@ =~= v@.subrange(0, i as int),
        decreases v@.len() - i,
    {
        out.push(v[i].clone());
        i += 1;
    }
    assert(out@ =~= v@);
    out
}

fn clone_opt_string_vec(v: &Option<Vec<String>>) -> (r: Option<Vec<String>>)
    ensures
        opt_views(r) == opt_views(*v),
{
    match v {
        Some(l) => {
            let c = clone_string_vec(l);
            proof {
                assert(c@.map_values(|s: String| s@) =~= l@.map_values(|s: String| s@));
            }
            Some(c)
        },
        None => None,
    }
}

impl FrontMatter {
    /// A copy of this frontmatter with the same model.
    pub fn duplicate(&self) -> (r: FrontMatter)
        ensures
            r@ == self@,
    {
        FrontMatter {
            description: self.description.clone(),
            always_apply: self.always_apply,
            file_matching_patterns: clone_opt_string_vec(&self.file_matching_patterns),
            allowed_agents: clone_opt_string_vec(&self.allowed_agents),
            blocked_agents: clone_opt_string_vec(&self.blocked_agents),
        }
    }
}

impl SourceFile {
    /// A copy of this rule with the same model.
    pub fn duplicate(&self) -> (r: SourceFile)
        ensures
            r@ == self@,
    {
        SourceFile {
            front_matter: self.front_matter.duplicate(),
            body: self.body.clone(),
            base_file_name: self.base_file_name.clone(),
        }
    }
}

/// The models of the rules that apply to the given agent, in order.
pub open spec fn applicable_views(rules: Seq<RuleView>, agent: Seq<char>) -> Seq<RuleView> {
    rules.filter(|rv: RuleView| spec_applies_to(rv.front_matter, agent))
}

/// The models of the rules that apply to every agent of the group, in order.
pub open spec fn group_applicable_views(rules: Seq<RuleView>, agents: Seq<Seq<char>>) -> Seq<
    RuleView,
> {
    rules.filter(|rv: RuleView| spec_applies_to_all(rv.front_matter, agents))
}

/// The rules of the set that apply to the named agent, in their given order.
pub fn filter_source_files_for_agent(source_files: &Vec<SourceFile>, agent_name: &str) -> (r: Vec<
    SourceFile,
>)
    ensures
        rule_views(r@) == applicable_views(rule_views(source_files@), agent_name@),
{
    let mut out: Vec<SourceFile> = Vec::new();
    let mut i: usize = 0;
    proof {
        reveal(Seq::filter);
        assert(rule_views(out@) =~= applicable_views(
            rule_views(source_files@).subrange(0, 0),
            agent_name@,
        ));
    }
    while i < source_files.len()
        invariant
            i <= source_files@.len(),
            rule_views(out@) == applicable_views(
                rule_views(source_files@).subrange(0, i as int),
                agent_name@,
            ),
        decreases source_files@.len() - i,
    {
        let ghost views = rule_views(source_files@);
        proof {
            reveal(Seq::filter);
            assert(views.subrange(0, i + 1).drop_last() =~= views.subrange(0, i as int));
            assert(views.subrange(0, i + 1).last() == views[i as int]);
            assert(views[i as int] == source_files@[i as int]@);
        }
        if source_files[i].front_matter.applies_to(agent_name) {
            out.push(source_files[i].duplicate());
            proof {
                assert(rule_views(out@) =~= rule_views(out@.drop_last()).push(
                    out@.last()@,
                ));
            }
        }
        i += 1;
    }
    proof {
        assert(rule_views(source_files@).subrange(0, source_files@.len() as int) =~= rule_views(
            source_files@,
        ));
    }
    out
}

/// The rules of the set that apply to every agent of the group, in their
/// given order.
pub fn filter_source_files_for_agent_group(
    source_files: &Vec<SourceFile>,
    agent_names: &Vec<String>,
) -> (r: Vec<SourceFile>)
    ensures
        rule_views(r@) == group_applicable_views(
            rule_views(source_files@),
            agent_names@.map_values(|s: String| s@),
        ),
{
    let ghost agents = agent_names@.map_values(|s: String| s@);
    let mut out: Vec<SourceFile> = Vec::new();
    let mut i: usize = 0;
    proof {
        reveal(Seq::filter);
        assert(rule_views(out@) =~= group_applicable_views(
            rule_views(source_files@).subrange(0, 0),
            agents,
        ));
    }
    while i < source_files.len()
        invariant
            i <= source_files@.len(),
            agents == agent_names@.map_values(|s: String| s@),
            rule_views(out@) == group_applicable_views(
                rule_views(source_files@).subrange(0, i as int),
                agents,
            ),
        decreases source_files@.len() - i,
    {
        let ghost views = rule_views(source_files@);
        proof {
            reveal(Seq::filter);
            assert(views.subrange(0, i + 1).drop_last() =~= views.subrange(0, i as int));
            assert(views.subrange(0, i + 1).last() == views[i as int]);
            assert(views[i as int] == source_files@[i as int]@);
        }
        if source_files[i].front_matter.applies_to_all(agent_names) {
            out.push(source_files[i].duplicate());
            proof {
                assert(rule_views(out@) =~= rule_views(out@.drop_last()).push(
                    out@.last()@,
                ));
            }
        }
        i += 1;
    }
    proof {
        assert(rule_views(source_files@).subrange(0, source_files@.len() as int) =~= rule_views(
            source_files@,
        ));
    }
    out
}

} // verus!
