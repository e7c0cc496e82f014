//! The MCP server-configuration source document: its strict validation and
//! what the generators take from it.

use vstd::prelude::*;

use crate::json::{clone_json, get_entry, json_view, spec_get, JsonValue, JsonView};
use crate::text::{ensure_trailing_newline, str_eq, with_trailing_newline};

verus! {

/// The one remote server type the source document may declare.
pub enum McpServerType {
    Http,
}

/// One declared MCP server: a local command or a remote HTTP endpoint.
pub enum McpServerConfig {
    Command { command: String, args: Option<Vec<String>>, env: Option<Vec<(String, String)>> },
    Http { server_type: McpServerType, url: String, headers: Option<Vec<(String, String)>> },
}

/// The validated source document: its servers by name.
pub struct McpConfig {
    pub mcp_servers: Vec<(String, McpServerConfig)>,
}

/// An optional field that must be a list of strings when present:
/// absent and null are fine.
pub open spec fn spec_opt_string_list(v: Option<JsonView>) -> bool {
    match v {
        None => true,
        Some(JsonView::Null) => true,
        Some(JsonView::Array(items)) => forall|k: int|
            0 <= k < items.len() ==> (#[trigger] items[k]) matches JsonView::Text(_),
        _ => false,
    }
}

/// An optional field that must be a string-to-string object when present.
pub open spec fn spec_opt_string_map(v: Option<JsonView>) -> bool {
    match v {
        None => true,
        Some(JsonView::Null) => true,
        Some(JsonView::Object(entries)) => forall|k: int|
            0 <= k < entries.len() ==> (#[trigger] entries[k]).1 matches JsonView::Text(_),
        _ => false,
    }
}

/// A server declaration in the command shape: a string `command`, optional
/// string-list `args`, optional string-map `env`.
pub open spec fn spec_command_server(entries: Seq<(Seq<char>, JsonView)>) -> bool {
    &&& spec_get(entries, "command"@) matches Some(JsonView::Text(_))
    &&& spec_opt_string_list(spec_get(entries, "args"@))
    &&& spec_opt_string_map(spec_get(entries, "env"@))
}

/// A server declaration in the HTTP shape: `type` is the string `http`, a
/// string `url`, optional string-map `headers`.
pub open spec fn spec_http_server(entries: Seq<(Seq<char>, JsonView)>) -> bool {
    &&& spec_get(entries, "type"@) == Some(JsonView::Text("http"@))
    &&& spec_get(entries, "url"@) matches Some(JsonView::Text(_))
    &&& spec_opt_string_map(spec_get(entries, "headers"@))
}

/// One declared server must be an object of one of the two shapes.
pub open spec fn spec_valid_server(v: JsonView) -> bool {
    v matches JsonView::Object(entries) && (spec_command_server(entries) || spec_http_server(
        entries,
    ))
}

/// The whole source document is valid: an object whose `mcpServers` field is
/// an object, every member of which is a valid server declaration. Unknown
/// shapes anywhere in that chain are rejected.
pub open spec fn spec_valid_mcp(v: JsonView) -> bool {
    v matches JsonView::Object(top) && spec_get(top, "mcpServers"@) matches Some(
        JsonView::Object(servers),
    ) && forall|k: int| 0 <= k < servers.len() ==> spec_valid_server((#[trigger] servers[k]).1)
}

fn check_opt_string_list(entries: &Vec<(String, JsonValue)>, key: &str) -> (r: bool)
    ensures
        r == spec_opt_string_list(spec_get(crate::json::entry_models(entries@), key@)),
{
    match get_entry(entries, key) {
        None => true,
        Some(v) => match v {
            JsonValue::Null => true,
            JsonValue::Array(items) => {
                let mut i: usize = 0;
                while i < items.len()
                    invariant
                        *v == JsonValue::Array(*items),
                        spec_get(crate::json::entry_models(entries@), key@) == Some(v@),
                        i <= items@.len(),
                        forall|k: int|
                            0 <= k < i ==> json_view(#[trigger] items@[k]) matches JsonView::Text(
                                _,
                            ),
                    decreases items@.len() - i,
                {
                    match &items[i] {
                        JsonValue::Text(_) => {},
                        _ => {
                            proof {
                                lemma_item_view(v, items, i as int);
                            }
                            return false;
                        },
                    }
                    i += 1;
                }
                proof {
                    let s = v@->Array_0;
                    assert forall|k: int| 0 <= k < s.len() implies (#[trigger] s[k])
                        matches JsonView::Text(_) by {
                        assert(s[k] == json_view(items@[k]));
                    }
                }
                true
            },
            _ => false,
        },
    }
}

proof fn lemma_item_view(v: &JsonValue, items: &Vec<JsonValue>, i: int)
    requires
        *v == JsonValue::Array(*items),
        0 <= i < items@.len(),
        !(json_view(items@[i]) matches JsonView::Text(_)),
    ensures
        !spec_opt_string_list(Some(v@)),
{
    let s = v@->Array_0;
    assert(s[i] == json_view(items@[i]));
}

fn check_opt_string_map(entries: &Vec<(String, JsonValue)>, key: &str) -> (r: bool)
    ensures
        r == spec_opt_string_map(spec_get(crate::json::entry_models(entries@), key@)),
{
    match get_entry(entries, key) {
        None => true,
        Some(v) => match v {
            JsonValue::Null => true,
            JsonValue::Object(inner) => {
                let mut i: usize = 0;
                while i < inner.len()
                    invariant
                        *v == JsonValue::Object(*inner),
                        spec_get(crate::json::entry_models(entries@), key@) == Some(v@),
                        i <= inner@.len(),
                        forall|k: int|
                            0 <= k < i ==> json_view(#[trigger] inner@[k].1) matches JsonView::Text(
                                _,
                            ),
                    decreases inner@.len() - i,
                {
                    match &inner[i].1 {
                        JsonValue::Text(_) => {},
                        _ => {
                            proof {
                                lemma_entry_view(v, inner, i as int);
                            }
                            return false;
                        },
                    }
                    i += 1;
                }
                proof {
                    let s = v@->Object_0;
                    assert forall|k: int| 0 <= k < s.len() implies (#[trigger] s[k]).1
                        matches JsonView::Text(_) by {
                        assert(s[k] == (inner@[k].0@, json_view(inner@[k].1)));
                    }
                }
                true
            },
            _ => false,
        },
    }
}

proof fn lemma_entry_view(v: &JsonValue, inner: &Vec<(String, JsonValue)>, i: int)
    requires
        *v == JsonValue::Object(*inner),
        0 <= i < inner@.len(),
        !(json_view(inner@[i].1) matches JsonView::Text(_)),
    ensures
        !spec_opt_string_map(Some(v@)),
{
    let s = v@->Object_0;
    assert(s[i] == (inner@[i].0@, json_view(inner@[i].1)));
}

/// Decides whether one server declaration has a valid shape.
pub fn valid_server(v: &JsonValue) -> (r: bool)
    ensures
        r == spec_valid_server(v@),
{
    match v {
        JsonValue::Object(entries) => {
            proof {
                crate::mcp_reader::lemma_object_entries(v, entries);
            }
            let command_shape = ({
                let c_ok = match get_entry(entries, "command") {
                    Some(cv) => match cv {
                        JsonValue::Text(_) => true,
                        _ => false,
                    },
                    None => false,
                };
                c_ok && check_opt_string_list(entries, "args") && check_opt_string_map(
                    entries,
                    "env",
                )
            });
            if command_shape {
                return true;
            }
            let http_shape = ({
                let t_ok = match get_entry(entries, "type") {
                    Some(tv) => match tv {
                        JsonValue::Text(t) => str_eq(t.as_str(), "http"),
                        _ => false,
                    },
                    None => false,
                };
                let u_ok = match get_entry(entries, "url") {
                    Some(uv) => match uv {
                        JsonValue::Text(_) => true,
                        _ => false,
                    },
                    None => false,
                };
                t_ok && u_ok && check_opt_string_map(entries, "headers")
            });
            http_shape
        },
        _ => false,
    }
}

/// An object value's model entries are the models of its entries.
pub proof fn lemma_object_entries(v: &JsonValue, entries: &Vec<(String, JsonValue)>)
    requires
        *v == JsonValue::Object(*entries),
    ensures
        v@ == JsonView::Object(crate::json::entry_models(entries@)),
{
    let s = v@->Object_0;
    assert(v@ matches JsonView::Object(_));
    assert(s.len() == entries@.len());
    assert forall|i: int| 0 <= i < s.len() implies #[trigger] s[i] == crate::json::entry_models(
        entries@,
    )[i] by {
        assert(s[i] == (entries@[i].0@, json_view(entries@[i].1)));
        assert(crate::json::entry_models(entries@)[i] == (entries@[i].0@, json_view(
            entries@[i].1,
        )));
    }
    assert(s =~= crate::json::entry_models(entries@));
}

/// Decides whether the whole source document is valid, strictly.
pub fn validate_mcp_document(v: &JsonValue) -> (r: bool)
    ensures
        r == spec_valid_mcp(v@),
{
    match v {
        JsonValue::Object(top) => {
            proof {
                lemma_object_entries(v, top);
            }
            match get_entry(top, "mcpServers") {
                Some(servers_value) => match servers_value {
                    JsonValue::Object(servers) => {
                        proof {
                            lemma_object_entries(servers_value, servers);
                        }
                        let ghost sm = crate::json::entry_models(servers@);
                        let mut i: usize = 0;
                        while i < servers.len()
                            invariant
                                i <= servers@.len(),
                                sm == crate::json::entry_models(servers@),
                                v@ == JsonView::Object(crate::json::entry_models(top@)),
                                spec_get(crate::json::entry_models(top@), "mcpServers"@) == Some(
                                    servers_value@,
                                ),
                                servers_value@ == JsonView::Object(sm),
                                forall|k: int|
                                    0 <= k < i ==> spec_valid_server((#[trigger] sm[k]).1),
                            decreases servers@.len() - i,
                        {
                            proof {
                                assert(sm[i as int] == (servers@[i as int].0@, json_view(
                                    servers@[i as int].1,
                                )));
                            }
                            if !valid_server(&servers[i].1) {
                                proof {
                                    assert(!spec_valid_server(sm[i as int].1));
                                    assert(!spec_valid_mcp(v@)) by {
                                        if spec_valid_mcp(v@) {
                                            assert(v@->Object_0 == crate::json::entry_models(
                                                top@,
                                            ));
                                            assert(spec_get(
                                                crate::json::entry_models(top@),
                                                "mcpServers"@,
                                            ) == Some(JsonView::Object(sm)));
                                            let bound = spec_get(
                                                crate::json::entry_models(top@),
                                                "mcpServers"@,
                                            )->Some_0->Object_0;
                                            assert(bound == sm);
                                            assert(spec_valid_server(bound[i as int].1));
                                        }
                                    }
                                }
                                return false;
                            }
                            i += 1;
                        }
                        true
                    },
                    _ => false,
                },
                None => false,
            }
        },
        _ => false,
    }
}

/// Why the source document was rejected.
#[derive(Debug)]
pub enum McpError {
    /// The document is not an object of valid server declarations.
    InvalidConfig,
}

/// Reads the MCP source document's content for copy-through generators:
/// absent stays absent; a valid document is passed on verbatim with the
/// trailing newline guaranteed; an invalid one is rejected before any
/// generation proceeds.
pub fn read_mcp_config(source: &Option<(String, JsonValue)>) -> (r: Result<
    Option<String>,
    McpError,
>)
    ensures
        match *source {
            Option::None => r matches Ok(c) && c is None,
            Option::Some(doc) => {
                if spec_valid_mcp(doc.1@) {
                    r matches Ok(c) && (c matches Some(s) && s@ == with_trailing_newline(doc.0@))
                } else {
                    r matches Err(e) && e matches McpError::InvalidConfig
                }
            },
        },
{
    match source {
        None => Ok(None),
        Some(doc) => {
            if validate_mcp_document(&doc.1) {
                Ok(Some(ensure_trailing_newline(doc.0.clone())))
            } else {
                Err(McpError::InvalidConfig)
            }
        },
    }
}

/// The `mcpServers` member of a valid source document, for the generator
/// that embeds it into its own configuration.
pub fn extract_mcp_servers_for_firebender(source: &Option<(String, JsonValue)>) -> (r: Result<
    Option<JsonValue>,
    McpError,
>)
    ensures
        match *source {
            Option::None => r matches Ok(c) && c is None,
            Option::Some(doc) => {
                if spec_valid_mcp(doc.1@) {
                    r matches Ok(c) && (c matches Some(v) && (doc.1@ matches JsonView::Object(top)
                        && spec_get(top, "mcpServers"@) == Some(v@)))
                } else {
                    r matches Err(e) && e matches McpError::InvalidConfig
                }
            },
        },
{
    match source {
        None => Ok(None),
        Some(doc) => {
            if !validate_mcp_document(&doc.1) {
                return Err(McpError::InvalidConfig);
            }
            match &doc.1 {
                JsonValue::Object(top) => {
                    proof {
                        lemma_object_entries(&doc.1, top);
                    }
                    match get_entry(top, "mcpServers") {
                        Some(v) => Ok(Some(clone_json(v))),
                        None => Err(McpError::InvalidConfig),
                    }
                },
                _ => Err(McpError::InvalidConfig),
            }
        },
    }
}

/// The string payloads of a list of string values.
pub open spec fn spec_text_items(items: Seq<JsonView>) -> Seq<Seq<char>> {
    Seq::new(
        items.len(),
        |i: int|
            if 0 <= i < items.len() {
                items[i]->Text_0
            } else {
                Seq::empty()
            },
    )
}

/// The key-to-string pairs of an object of string values.
pub open spec fn spec_text_entries(entries: Seq<(Seq<char>, JsonView)>) -> Seq<
    (Seq<char>, Seq<char>),
> {
    Seq::new(
        entries.len(),
        |i: int|
            if 0 <= i < entries.len() {
                (entries[i].0, entries[i].1->Text_0)
            } else {
                (Seq::<char>::empty(), Seq::<char>::empty())
            },
    )
}

/// The typed server a valid declaration extracts to: the command shape keeps
/// its command text, argument list and environment map; otherwise the HTTP
/// shape keeps its url and headers. Absent or null optional fields stay
/// absent.
pub open spec fn spec_server_matches(cfg: McpServerConfig, e: Seq<(Seq<char>, JsonView)>) -> bool {
    if spec_command_server(e) {
        cfg matches McpServerConfig::Command { command, args, env } && {
            &&& JsonView::Text(command@) == spec_get(e, "command"@)->Some_0
            &&& crate::source_file::opt_views(args) == (match spec_get(e, "args"@) {
                Some(JsonView::Array(items)) => Some(spec_text_items(items)),
                _ => None,
            })
            &&& (match spec_get(e, "env"@) {
                Some(JsonView::Object(pairs)) => env matches Some(m)
                    && crate::body_generator::entry_views(m@) == spec_text_entries(pairs),
                _ => env is None,
            })
        }
    } else {
        cfg matches McpServerConfig::Http { url, headers, .. } && {
            &&& JsonView::Text(url@) == spec_get(e, "url"@)->Some_0
            &&& (match spec_get(e, "headers"@) {
                Some(JsonView::Object(pairs)) => headers matches Some(m)
                    && crate::body_generator::entry_views(m@) == spec_text_entries(pairs),
                _ => headers is None,
            })
        }
    }
}

/// Extracts the typed configuration out of a valid source document: one
/// entry per declared server, in order, in the command shape when the
/// declaration has it and in the HTTP shape otherwise.
pub fn mcp_config_from_document(v: &JsonValue) -> (r: Option<McpConfig>)
    ensures
        r is Some <==> spec_valid_mcp(v@),
        r matches Some(c) ==> (v@ matches JsonView::Object(top) && spec_get(top, "mcpServers"@)
            matches Some(JsonView::Object(servers)) && c.mcp_servers@.len() == servers.len()
            && (forall|k: int|
            0 <= k < servers.len() ==> (#[trigger] c.mcp_servers@[k]).0@ == servers[k].0
                && spec_server_matches(c.mcp_servers@[k].1, servers[k].1->Object_0))),
{
    if !validate_mcp_document(v) {
        return None;
    }
    let top = match v {
        JsonValue::Object(top) => top,
        _ => {
            return None;
        },
    };
    proof {
        lemma_object_entries(v, top);
    }
    let servers = match get_entry(top, "mcpServers") {
        Some(sv) => match sv {
            JsonValue::Object(servers) => {
                proof {
                    lemma_object_entries(sv, servers);
                }
                servers
            },
            _ => {
                return None;
            },
        },
        None => {
            return None;
        },
    };
    let ghost sm = crate::json::entry_models(servers@);
    let ghost topm = crate::json::entry_models(top@);
    let mut out: Vec<(String, McpServerConfig)> = Vec::new();
    let mut i: usize = 0;
    while i < servers.len()
        invariant
            i <= servers@.len(),
            sm == crate::json::entry_models(servers@),
            v@ == JsonView::Object(topm),
            spec_get(topm, "mcpServers"@) == Some(JsonView::Object(sm)),
            spec_valid_mcp(v@),
            forall|k: int| 0 <= k < sm.len() ==> spec_valid_server((#[trigger] sm[k]).1),
            out@.len() == i,
            forall|k: int|
                0 <= k < i ==> (#[trigger] out@[k]).0@ == sm[k].0 && spec_server_matches(
                    out@[k].1,
                    sm[k].1->Object_0,
                ),
        decreases servers@.len() - i,
    {
        proof {
            assert(sm[i as int] == (servers@[i as int].0@, json_view(servers@[i as int].1)));
        }
        let server_value = &servers[i].1;
        let entries = match server_value {
            JsonValue::Object(entries) => {
                proof {
                    lemma_object_entries(server_value, entries);
                }
                entries
            },
            _ => {
                proof {
                    assert(spec_valid_server(sm[i as int].1));
                    assert(false);
                }
                return None;
            },
        };
        let command_shape = ({
            let c_ok = match get_entry(entries, "command") {
                Some(cv) => matches!(cv, JsonValue::Text(_)),
                None => false,
            };
            c_ok && check_opt_string_list(entries, "args") && check_opt_string_map(entries, "env")
        });
        let ghost em = crate::json::entry_models(entries@);
        let config = if command_shape {
            let command = match get_entry(entries, "command") {
                Some(cv) => match cv {
                    JsonValue::Text(t) => t.clone(),
                    _ => {
                        proof {
                            crate::json::lemma_view_text(cv);
                            assert(false);
                        }
                        String::new()
                    },
                },
                None => {
                    proof {
                        assert(false);
                    }
                    String::new()
                },
            };
            let args = match get_entry(entries, "args") {
                Some(av) => match av {
                    JsonValue::Array(items) => {
                        proof {
                            crate::json::lemma_array_items(av, items);
                            assert(spec_opt_string_list(spec_get(em, "args"@)));
                            assert forall|k: int|
                                0 <= k < items@.len() implies crate::json::json_view(
                                #[trigger] items@[k],
                            ) matches JsonView::Text(_) by {
                                assert(crate::json::item_models(items@)[k]
                                    == crate::json::json_view(items@[k]));
                            }
                        }
                        Some(string_items(items))
                    },
                    _ => None,
                },
                None => None,
            };
            let env = match get_entry(entries, "env") {
                Some(ev) => match ev {
                    JsonValue::Object(pairs) => {
                        proof {
                            lemma_object_entries(ev, pairs);
                            assert(spec_opt_string_map(spec_get(em, "env"@)));
                            assert forall|k: int|
                                0 <= k < pairs@.len() implies crate::json::json_view(
                                #[trigger] pairs@[k].1,
                            ) matches JsonView::Text(_) by {
                                assert(crate::json::entry_models(pairs@)[k] == (pairs@[k].0@,
                                crate::json::json_view(pairs@[k].1)));
                            }
                        }
                        Some(string_pairs(pairs))
                    },
                    _ => None,
                },
                None => None,
            };
            McpServerConfig::Command { command, args, env }
        } else {
            proof {
                assert(spec_valid_server(sm[i as int].1));
                assert(spec_http_server(em));
            }
            let url = match get_entry(entries, "url") {
                Some(uv) => match uv {
                    JsonValue::Text(t) => t.clone(),
                    _ => {
                        proof {
                            crate::json::lemma_view_text(uv);
                            assert(false);
                        }
                        String::new()
                    },
                },
                None => {
                    proof {
                        assert(false);
                    }
                    String::new()
                },
            };
            let headers = match get_entry(entries, "headers") {
                Some(hv) => match hv {
                    JsonValue::Object(pairs) => {
                        proof {
                            lemma_object_entries(hv, pairs);
                            assert(spec_opt_string_map(spec_get(em, "headers"@)));
                            assert forall|k: int|
                                0 <= k < pairs@.len() implies crate::json::json_view(
                                #[trigger] pairs@[k].1,
                            ) matches JsonView::Text(_) by {
                                assert(crate::json::entry_models(pairs@)[k] == (pairs@[k].0@,
                                crate::json::json_view(pairs@[k].1)));
                            }
                        }
                        Some(string_pairs(pairs))
                    },
                    _ => None,
                },
                None => None,
            };
            McpServerConfig::Http { server_type: McpServerType::Http, url, headers }
        };
        proof {
            assert(spec_server_matches(config, em));
        }
        out.push((servers[i].0.clone(), config));
        i += 1;
    }
    Some(McpConfig { mcp_servers: out })
}

/// The string payloads of a list of string values.
fn string_items(items: &Vec<JsonValue>) -> (r: Vec<String>)
    requires
        forall|k: int|
            0 <= k < items@.len() ==> crate::json::json_view(#[trigger] items@[k])
                matches JsonView::Text(_),
    ensures
        r@.map_values(|s: String| s@) == spec_text_items(crate::json::item_models(items@)),
{
    let ghost models = crate::json::item_models(items@);
    let mut out: Vec<String> = Vec::new();
    let mut i: usize = 0;
    while i < items.len()
        invariant
            i <= items@.len(),
            models == crate::json::item_models(items@),
            forall|k: int|
                0 <= k < items@.len() ==> crate::json::json_view(#[trigger] items@[k])
                    matches JsonView::Text(_),
            out@.len() == i,
            forall|k: int| 0 <= k < i ==> (#[trigger] out@[k])@ == models[k]->Text_0,
        decreases items@.len() - i,
    {
        proof {
            assert(models[i as int] == crate::json::json_view(items@[i as int]));
        }
        let item = &items[i];
        match item {
            JsonValue::Text(t) => out.push(t.clone()),
            _ => {
                proof {
                    crate::json::lemma_view_text(item);
                    assert(false);
                }
            },
        }
        i += 1;
    }
    proof {
        assert(out@.map_values(|s: String| s@) =~= spec_text_items(models));
    }
    out
}

/// The key-to-string pairs of an object of string values.
fn string_pairs(pairs: &Vec<(String, JsonValue)>) -> (r: Vec<(String, String)>)
    requires
        forall|k: int|
            0 <= k < pairs@.len() ==> crate::json::json_view(#[trigger] pairs@[k].1)
                matches JsonView::Text(_),
    ensures
        crate::body_generator::entry_views(r@) == spec_text_entries(
            crate::json::entry_models(pairs@),
        ),
{
    let ghost models = crate::json::entry_models(pairs@);
    let mut out: Vec<(String, String)> = Vec::new();
    let mut i: usize = 0;
    while i < pairs.len()
        invariant
            i <= pairs@.len(),
            models == crate::json::entry_models(pairs@),
            forall|k: int|
                0 <= k < pairs@.len() ==> crate::json::json_view(#[trigger] pairs@[k].1)
                    matches JsonView::Text(_),
            out@.len() == i,
            forall|k: int|
                0 <= k < i ==> (#[trigger] out@[k]).0@ == models[k].0 && out@[k].1@
                    == models[k].1->Text_0,
        decreases pairs@.len() - i,
    {
        proof {
            assert(models[i as int] == (pairs@[i as int].0@, crate::json::json_view(
                pairs@[i as int].1,
            )));
        }
        let pair_value = &pairs[i].1;
        match pair_value {
            JsonValue::Text(t) => out.push((pairs[i].0.clone(), t.clone())),
            _ => {
                proof {
                    crate::json::lemma_view_text(pair_value);
                    assert(false);
                }
            },
        }
        i += 1;
    }
    proof {
        assert(crate::body_generator::entry_views(out@) =~= spec_text_entries(models));
    }
    out
}

} // verus!
