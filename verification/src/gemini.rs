//! The Gemini agent: a single reference file, plus an MCP section merged
//! into its settings document with the schema rewrites Gemini requires.

use vstd::prelude::*;

use crate::json::{
    clone_entries, clone_json, get_entry, has_key, json_view, spec_get, spec_remove, spec_upsert,
    upsert_entry, remove_entry, JsonValue, JsonView,
};
use crate::mcp_reader::lemma_object_entries;
use crate::text::{chars_of, ends_with, ends_with_chars};

verus! {

/// One server declaration rewritten for Gemini's schema: the `type` field is
/// always dropped; with an `httpUrl` the `command` and `url` fields are
/// dropped; with a `url` ending in `/mcp` the url moves to `httpUrl` and
/// `url` and `command` are dropped; with any other string `url` only
/// `command` is dropped.
pub open spec fn spec_transform_server(sv: JsonView) -> JsonView {
    match sv {
        JsonView::Object(e0) => {
            let e = spec_remove(e0, "type"@);
            if spec_get(e, "httpUrl"@) is Some {
                JsonView::Object(spec_remove(spec_remove(e, "command"@), "url"@))
            } else {
                match spec_get(e, "url"@) {
                    Some(JsonView::Text(url)) => if ends_with(url, "/mcp"@) {
                        JsonView::Object(
                            spec_remove(
                                spec_remove(spec_upsert(e, "httpUrl"@, JsonView::Text(url)), "url"@),
                                "command"@,
                            ),
                        )
                    } else {
                        JsonView::Object(spec_remove(e, "command"@))
                    },
                    _ => JsonView::Object(e),
                }
            }
        },
        _ => sv,
    }
}

/// Every declared server rewritten; anything but an object passes through.
pub open spec fn spec_transform_servers(v: JsonView) -> JsonView {
    match v {
        JsonView::Object(entries) => JsonView::Object(
            Seq::new(
                entries.len(),
                |i: int|
                    if 0 <= i < entries.len() {
                        (entries[i].0, spec_transform_server(entries[i].1))
                    } else {
                        (Seq::<char>::empty(), JsonView::Null)
                    },
            ),
        ),
        _ => v,
    }
}

fn transform_server(sv: &JsonValue) -> (r: JsonValue)
    ensures
        r@ == spec_transform_server(sv@),
{
    match sv {
        JsonValue::Object(e0) => {
            proof {
                lemma_object_entries(sv, e0);
            }
            let e = remove_entry(clone_entries(e0), "type");
            if has_key(&e, "httpUrl") {
                let e2 = remove_entry(e, "command");
                let e3 = remove_entry(e2, "url");
                let r = JsonValue::Object(e3);
                proof {
                    lemma_object_entries(&r, &e3);
                }
                r
            } else {
                let url_text: Option<String> = match get_entry(&e, "url") {
                    Some(uv) => match uv {
                        JsonValue::Text(u) => Some(u.clone()),
                        _ => None,
                    },
                    None => None,
                };
                match url_text {
                    Some(u) => {
                        let uc = chars_of(u.as_str());
                        let suffix = chars_of("/mcp");
                        proof {
                            reveal_strlit("/mcp");
                        }
                        if ends_with_chars(&uc, &suffix) {
                            let e1 = upsert_entry(e, "httpUrl", JsonValue::Text(u));
                            let e2 = remove_entry(e1, "url");
                            let e3 = remove_entry(e2, "command");
                            let r = JsonValue::Object(e3);
                            proof {
                                lemma_object_entries(&r, &e3);
                            }
                            r
                        } else {
                            let e2 = remove_entry(e, "command");
                            let r = JsonValue::Object(e2);
                            proof {
                                lemma_object_entries(&r, &e2);
                            }
                            r
                        }
                    },
                    None => {
                        let r = JsonValue::Object(e);
                        proof {
                            lemma_object_entries(&r, &e);
                        }
                        r
                    },
                }
            }
        },
        _ => clone_json(sv),
    }
}

/// Rewrites every declared server for Gemini's schema.
pub fn transform_mcp_servers(servers: &JsonValue) -> (r: JsonValue)
    ensures
        r@ == spec_transform_servers(servers@),
{
    match servers {
        JsonValue::Object(entries) => {
            proof {
                lemma_object_entries(servers, entries);
            }
            let mut out: Vec<(String, JsonValue)> = Vec::new();
            let mut i: usize = 0;
            while i < entries.len()
                invariant
                    *servers == JsonValue::Object(*entries),
                    i <= entries@.len(),
                    out@.len() == i,
                    forall|k: int|
                        0 <= k < i ==> (#[trigger] out@[k]).0@ == entries@[k].0@ && out@[k].1@
                            == spec_transform_server(json_view(entries@[k].1)),
                decreases entries@.len() - i,
            {
                let t = transform_server(&entries[i].1);
                out.push((entries[i].0.clone(), t));
                i += 1;
            }
            let r = JsonValue::Object(out);
            proof {
                lemma_object_entries(&r, &out);
                let sm = crate::json::entry_models(entries@);
                let rs = r@->Object_0;
                let ts = spec_transform_servers(servers@)->Object_0;
                assert forall|k: int| 0 <= k < rs.len() implies #[trigger] rs[k] == ts[k] by {
                    assert(rs[k] == (out@[k].0@, json_view(out@[k].1)));
                    assert(sm[k] == (entries@[k].0@, json_view(entries@[k].1)));
                }
                assert(rs =~= ts);
            }
            r
        },
        _ => clone_json(servers),
    }
}

/// The updated settings document: the existing settings (an object) with its
/// `mcpServers` member replaced by the transformed source servers; every
/// other member is preserved unchanged.
pub fn gemini_settings_update(existing: &Option<JsonValue>, source_servers: &JsonValue) -> (r:
    JsonValue)
    requires
        (*existing) matches Some(t) ==> t@ matches JsonView::Object(_),
    ensures
        ({
            let base = match *existing {
                Option::Some(t) => t@->Object_0,
                Option::None => Seq::<(Seq<char>, JsonView)>::empty(),
            };
            r@ == JsonView::Object(
                spec_upsert(base, "mcpServers"@, spec_transform_servers(source_servers@)),
            )
        }),
{
    let transformed = transform_mcp_servers(source_servers);
    let base: Vec<(String, JsonValue)> = match existing {
        Some(t) => match t {
            JsonValue::Object(entries) => {
                proof {
                    lemma_object_entries(t, entries);
                }
                clone_entries(entries)
            },
            _ => Vec::new(),
        },
        None => Vec::new(),
    };
    proof {
        if existing is None {
            assert(crate::json::entry_models(Seq::<(String, JsonValue)>::empty()) =~= Seq::<
                (Seq<char>, JsonView),
            >::empty());
        }
    }
    let updated = upsert_entry(base, "mcpServers", transformed);
    let r = JsonValue::Object(updated);
    proof {
        lemma_object_entries(&r, &updated);
    }
    r
}

/// Whether Gemini's settings document is in sync with the MCP source:
/// without a source, the settings must lack a `mcpServers` member or hold an
/// empty or non-object one; with a source, the settings' `mcpServers` must
/// equal the transformed source servers (an absent member counts as an empty
/// object).
pub fn gemini_mcp_in_sync(source_servers: &Option<JsonValue>, target: &Option<JsonValue>) -> (r:
    bool)
    ensures
        r == ({
            match *source_servers {
                Option::None => match *target {
                    Option::None => true,
                    Option::Some(t) => match t@ {
                        JsonView::Object(te) => match spec_get(te, "mcpServers"@) {
                            Option::None => true,
                            Option::Some(JsonView::Object(se)) => se.len() == 0,
                            Option::Some(_) => true,
                        },
                        _ => true,
                    },
                },
                Option::Some(sv) => match *target {
                    Option::None => false,
                    Option::Some(t) => match t@ {
                        JsonView::Object(te) => ({
                            let actual = match spec_get(te, "mcpServers"@) {
                                Option::Some(a) => a,
                                Option::None => JsonView::Object(Seq::empty()),
                            };
                            spec_transform_servers(sv@) == actual
                        }),
                        _ => false,
                    },
                },
            }
        }),
{
    match source_servers {
        None => match target {
            None => true,
            Some(t) => match t {
                JsonValue::Object(te) => {
                    proof {
                        lemma_object_entries(t, te);
                    }
                    match get_entry(te, "mcpServers") {
                        None => true,
                        Some(v) => match v {
                            JsonValue::Object(se) => {
                                proof {
                                    lemma_object_entries(v, se);
                                }
                                se.len() == 0
                            },
                            _ => true,
                        },
                    }
                },
                _ => true,
            },
        },
        Some(sv) => match target {
            None => false,
            Some(t) => match t {
                JsonValue::Object(te) => {
                    proof {
                        lemma_object_entries(t, te);
                    }
                    let transformed = transform_mcp_servers(sv);
                    match get_entry(te, "mcpServers") {
                        Some(actual) => crate::json::json_eq(&transformed, actual),
                        None => {
                            let empty_entries: Vec<(String, JsonValue)> = Vec::new();
                            let empty = JsonValue::Object(empty_entries);
                            proof {
                                assert(empty@ == JsonView::Object(
                                    Seq::<(Seq<char>, JsonView)>::empty(),
                                )) by {
                                    let s = empty@->Object_0;
                                    assert(s.len() == 0);
                                    assert(s =~= Seq::<(Seq<char>, JsonView)>::empty());
                                }
                            }
                            crate::json::json_eq(&transformed, &empty)
                        },
                    }
                },
                _ => false,
            },
        },
    }
}

/// The Gemini agent: its reference file and gitignore contributions.
pub struct GeminiGenerator;

impl GeminiGenerator {
    /// The reference document artifacts, as for any single-file agent.
    pub fn generate_agent_contents(
        &self,
        source_files: &Vec<crate::source_file::SourceFile>,
        current_dir: &str,
    ) -> (r: Vec<(String, String)>)
        ensures
            crate::body_generator::entry_views(r@) == crate::single_file_based::spec_agent_file_contents(
                crate::source_file::rule_views(source_files@),
                current_dir@,
                "GEMINI.md"@,
                "gemini"@,
            ),
    {
        crate::single_file_based::generate_agent_file_contents(
            source_files,
            current_dir,
            "GEMINI.md",
            "gemini",
        )
    }

    pub fn check_agent_contents(
        &self,
        source_files: &Vec<crate::source_file::SourceFile>,
        actual: &Option<String>,
    ) -> (r: bool)
        ensures
            r == ({
                let rules = crate::source_file::rule_views(source_files@);
                if rules.len() == 0 {
                    *actual is None
                } else {
                    (*actual) matches Some(c) && c@ == crate::body_generator::spec_all_references(
                        rules,
                        "gemini"@,
                    )
                }
            }),
    {
        crate::single_file_based::check_in_sync(source_files, "GEMINI.md", "gemini", actual)
    }

    pub fn gitignore_patterns(&self) -> (r: Vec<String>)
        ensures
            r@.len() == 2,
            r@[0]@ == "GEMINI.md"@,
            r@[1]@ == ".gemini/settings.json"@,
    {
        let mut v: Vec<String> = Vec::new();
        v.push("GEMINI.md".to_owned());
        v.push(".gemini/settings.json".to_owned());
        v
    }
}

} // verus!
