//! The Firebender agent: one JSON configuration document assembled from the
//! resolved rules, the authored commands, the MCP source and an optional
//! overlay document.

use vstd::prelude::*;

use crate::command_reader::{CommandFile, CommandFileView};
use crate::constants::{FIREBENDER_JSON, FIREBENDER_SKILLS_DIR, FIREBENDER_USE_CURSOR_RULES_FIELD};
use crate::external_skills_generator::ExternalSkillsGenerator;
use crate::json::{entry_models, json_view, merge_json_objects, spec_merge, JsonValue, JsonView};
use crate::mcp_reader::lemma_object_entries;
use crate::optional_rules::{any_optional, has_optional, optional_rules_filename_for_agent, spec_optional_filename};
use crate::paths::{generated_body_file_reference_path, joined, spec_reference_path};
use crate::source_file::{body_file_name_of, rule_views, RuleView, SourceFile};

verus! {

/// The configuration entry of one rule: its generated body's path, and — for
/// an optional rule — its advisory file-matching patterns. An optional rule
/// without patterns gets no entry.
pub open spec fn spec_firebender_rule(rv: RuleView) -> Option<JsonView> {
    let path_entry = (
        "rulesPaths"@,
        JsonView::Text(spec_reference_path(body_file_name_of(rv.base_file_name))),
    );
    if rv.front_matter.always_apply {
        Some(JsonView::Object(seq![path_entry]))
    } else {
        match rv.front_matter.file_matching_patterns {
            Some(ps) => if ps.len() > 0 {
                Some(
                    JsonView::Object(
                        seq![
                            path_entry,
                            (
                                "filePathMatches"@,
                                JsonView::Array(
                                    Seq::new(
                                        ps.len(),
                                        |i: int|
                                            if 0 <= i < ps.len() {
                                                JsonView::Text(ps[i])
                                            } else {
                                                JsonView::Null
                                            },
                                    ),
                                ),
                            ),
                        ],
                    ),
                )
            } else {
                None
            },
            None => None,
        }
    }
}

/// The `rules` array: one entry per rule that gets one, in order, then one
/// entry pointing at the optional-rules index when any rule is optional.
pub open spec fn spec_firebender_rules(rules: Seq<RuleView>) -> Seq<JsonView>
    decreases rules.len(),
{
    if rules.len() == 0 {
        Seq::empty()
    } else {
        let rest = spec_firebender_rules(rules.drop_last());
        match spec_firebender_rule(rules.last()) {
            Some(v) => rest.push(v),
            None => rest,
        }
    }
}

/// The entry referencing the optional-rules index document.
pub open spec fn spec_optional_rules_entry() -> JsonView {
    JsonView::Object(
        seq![
            (
                "rulesPaths"@,
                JsonView::Text(spec_reference_path(spec_optional_filename("firebender"@))),
            ),
        ],
    )
}

/// One command's configuration entry: its name and its authored document's
/// path.
pub open spec fn spec_firebender_command(c: CommandFileView) -> JsonView {
    JsonView::Object(seq![("name"@, JsonView::Text(c.name)), ("path"@, JsonView::Text(c.relative_path))])
}

/// The whole configuration before the overlay: the rules array, the
/// `useCursorRules` switch, the commands (when any), and the MCP servers
/// (when a source document declares them).
pub open spec fn spec_firebender_base(
    rules: Seq<RuleView>,
    commands: Seq<CommandFileView>,
    mcp_servers: Option<JsonView>,
) -> Seq<(Seq<char>, JsonView)> {
    let rule_entries = spec_firebender_rules(rules) + if has_optional(rules) {
        seq![spec_optional_rules_entry()]
    } else {
        Seq::empty()
    };
    let head = seq![
        ("rules"@, JsonView::Array(rule_entries)),
        ("useCursorRules"@, JsonView::Bool(false)),
    ];
    let with_commands = if commands.len() > 0 {
        head.push(
            (
                "commands"@,
                JsonView::Array(
                    Seq::new(
                        commands.len(),
                        |i: int|
                            if 0 <= i < commands.len() {
                                spec_firebender_command(commands[i])
                            } else {
                                JsonView::Null
                            },
                    ),
                ),
            ),
        )
    } else {
        head
    };
    match mcp_servers {
        Some(v) => with_commands.push(("mcpServers"@, v)),
        None => with_commands,
    }
}

/// The final configuration document: the base, deep-merged with the overlay
/// document when one exists.
pub open spec fn spec_firebender_config(
    rules: Seq<RuleView>,
    commands: Seq<CommandFileView>,
    mcp_servers: Option<JsonView>,
    overlay: Option<JsonView>,
) -> JsonView {
    let base = JsonView::Object(spec_firebender_base(rules, commands, mcp_servers));
    match overlay {
        Some(o) => spec_merge(base, o),
        None => base,
    }
}

fn rule_value(sf: &SourceFile) -> (r: Option<JsonValue>)
    ensures
        match r {
            Some(v) => spec_firebender_rule(sf@) == Some(v@),
            None => spec_firebender_rule(sf@) is None,
        },
{
    let body_file_name = sf.get_body_file_name();
    let path = generated_body_file_reference_path(body_file_name.as_str());
    let mut entries: Vec<(String, JsonValue)> = Vec::new();
    entries.push(("rulesPaths".to_owned(), JsonValue::Text(path)));
    if sf.front_matter.always_apply {
        let v = JsonValue::Object(entries);
        proof {
            lemma_object_entries(&v, &entries);
            assert(entry_models(entries@) =~= spec_firebender_rule(sf@)->Some_0->Object_0);
        }
        Some(v)
    } else {
        match &sf.front_matter.file_matching_patterns {
            Some(ps) => {
                if ps.len() > 0 {
                    let mut texts: Vec<JsonValue> = Vec::new();
                    let mut i: usize = 0;
                    while i < ps.len()
                        invariant
                            i <= ps@.len(),
                            texts@.len() == i,
                            forall|k: int|
                                0 <= k < i ==> json_view(#[trigger] texts@[k]) == JsonView::Text(
                                    ps@[k]@,
                                ),
                        decreases ps@.len() - i,
                    {
                        texts.push(JsonValue::Text(ps[i].clone()));
                        i += 1;
                    }
                    let arr = JsonValue::Array(texts);
                    entries.push(("filePathMatches".to_owned(), arr));
                    let v = JsonValue::Object(entries);
                    proof {
                        lemma_object_entries(&v, &entries);
                        let spec_entries = spec_firebender_rule(sf@)->Some_0->Object_0;
                        assert(entry_models(entries@).len() == 2);
                        assert(entry_models(entries@)[0] == spec_entries[0]);
                        assert(entry_models(entries@)[1].0 == spec_entries[1].0);
                        assert(entry_models(entries@)[1].1 == spec_entries[1].1) by {
                            let av = json_view(entries@[1].1);
                            let sv = spec_entries[1].1;
                            assert(av matches JsonView::Array(_));
                            let a_items = av->Array_0;
                            let s_items = sv->Array_0;
                            assert(a_items.len() == s_items.len());
                            assert forall|k: int| 0 <= k < a_items.len() implies #[trigger] a_items[k]
                                == s_items[k] by {
                                assert(a_items[k] == json_view(texts@[k]));
                                assert(s_items[k] == JsonView::Text(
                                    sf@.front_matter.file_matching_patterns->Some_0[k],
                                ));
                            }
                            assert(a_items =~= s_items);
                        }
                        assert(entry_models(entries@) =~= spec_entries);
                    }
                    Some(v)
                } else {
                    None
                }
            },
            None => None,
        }
    }
}

/// Builds the `rules` array values, in rule order, with the optional-index
/// entry appended when any rule is optional.
fn rule_values(source_files: &Vec<SourceFile>) -> (r: Vec<JsonValue>)
    ensures
        ({
            let rules = rule_views(source_files@);
            let expected = spec_firebender_rules(rules) + if has_optional(rules) {
                seq![spec_optional_rules_entry()]
            } else {
                Seq::empty()
            };
            r@.len() == expected.len() && forall|k: int|
                0 <= k < r@.len() ==> json_view(#[trigger] r@[k]) == expected[k]
        }),
{
    let ghost views = rule_views(source_files@);
    let mut out: Vec<JsonValue> = Vec::new();
    let mut i: usize = 0;
    proof {
        assert(views.subrange(0, 0) =~= Seq::<RuleView>::empty());
    }
    while i < source_files.len()
        invariant
            i <= source_files@.len(),
            views == rule_views(source_files@),
            out@.len() == spec_firebender_rules(views.subrange(0, i as int)).len(),
            forall|k: int|
                0 <= k < out@.len() ==> json_view(#[trigger] out@[k]) == spec_firebender_rules(
                    views.subrange(0, i as int),
                )[k],
        decreases source_files@.len() - i,
    {
        proof {
            assert(views.subrange(0, i + 1).drop_last() =~= views.subrange(0, i as int));
            assert(views.subrange(0, i + 1).last() == views[i as int]);
            assert(views[i as int] == source_files@[i as int]@);
        }
        match rule_value(&source_files[i]) {
            Some(v) => {
                out.push(v);
            },
            None => {},
        }
        i += 1;
    }
    proof {
        assert(views.subrange(0, views.len() as int) =~= views);
    }
    if any_optional(source_files) {
        let optional_filename = optional_rules_filename_for_agent("firebender");
        let optional_path = generated_body_file_reference_path(optional_filename.as_str());
        let mut entries: Vec<(String, JsonValue)> = Vec::new();
        entries.push(("rulesPaths".to_owned(), JsonValue::Text(optional_path)));
        let v = JsonValue::Object(entries);
        proof {
            lemma_object_entries(&v, &entries);
            reveal_strlit("firebender");
            assert(entry_models(entries@) =~= spec_optional_rules_entry()->Object_0);
        }
        let ghost prev = out@;
        out.push(v);
        proof {
            assert(out@.drop_last() =~= prev);
        }
    }
    out
}

/// Assembles the whole configuration document for the resolved rules, the
/// authored commands, the extracted MCP servers and the overlay document.
pub fn generate_firebender_config(
    source_files: &Vec<SourceFile>,
    commands: &Vec<CommandFile>,
    mcp_servers: &Option<JsonValue>,
    overlay: &Option<JsonValue>,
) -> (r: JsonValue)
    ensures
        r@ == spec_firebender_config(
            rule_views(source_files@),
            commands@.map_values(|c: CommandFile| c@),
            crate::json::opt_model(*mcp_servers),
            crate::json::opt_model(*overlay),
        ),
{
    let ghost rules = rule_views(source_files@);
    let ghost cviews = commands@.map_values(|c: CommandFile| c@);
    let rule_list = rule_values(source_files);
    let rules_array = JsonValue::Array(rule_list);
    let mut entries: Vec<(String, JsonValue)> = Vec::new();
    entries.push(("rules".to_owned(), rules_array));
    entries.push((FIREBENDER_USE_CURSOR_RULES_FIELD.to_owned(), JsonValue::Bool(false)));

    if commands.len() > 0 {
        let mut cmd_values: Vec<JsonValue> = Vec::new();
        let mut i: usize = 0;
        while i < commands.len()
            invariant
                i <= commands@.len(),
                cviews == commands@.map_values(|c: CommandFile| c@),
                cmd_values@.len() == i,
                forall|k: int|
                    0 <= k < i ==> json_view(#[trigger] cmd_values@[k]) == spec_firebender_command(
                        cviews[k],
                    ),
            decreases commands@.len() - i,
        {
            proof {
                assert(cviews[i as int] == commands@[i as int]@);
            }
            let mut ce: Vec<(String, JsonValue)> = Vec::new();
            ce.push(("name".to_owned(), JsonValue::Text(commands[i].name.clone())));
            ce.push(("path".to_owned(), JsonValue::Text(commands[i].relative_path.clone())));
            let cv = JsonValue::Object(ce);
            proof {
                lemma_object_entries(&cv, &ce);
                assert(entry_models(ce@) =~= spec_firebender_command(cviews[i as int])->Object_0);
            }
            cmd_values.push(cv);
            i += 1;
        }
        let arr = JsonValue::Array(cmd_values);
        entries.push(("commands".to_owned(), arr));
    }
    match mcp_servers {
        Some(m) => {
            entries.push(("mcpServers".to_owned(), crate::json::clone_json(m)));
        },
        None => {},
    }

    let base = JsonValue::Object(entries);
    proof {
        lemma_object_entries(&base, &entries);
        let spec_base = spec_firebender_base(
            rules,
            cviews,
            crate::json::opt_model(*mcp_servers),
        );
        assert(entry_models(entries@).len() == spec_base.len());
        assert forall|k: int| 0 <= k < spec_base.len() implies #[trigger] entry_models(
            entries@,
        )[k] == spec_base[k] by {
            if k == 0 {
                let av = json_view(entries@[0].1);
                let sv = spec_base[0].1;
                assert(av matches JsonView::Array(_));
                let a_items = av->Array_0;
                let s_items = sv->Array_0;
                assert(a_items.len() == s_items.len());
                assert forall|m: int| 0 <= m < a_items.len() implies #[trigger] a_items[m]
                    == s_items[m] by {
                    assert(a_items[m] == json_view(rule_list@[m]));
                }
                assert(a_items =~= s_items);
            } else if k == 2 && cviews.len() > 0 {
                let av = json_view(entries@[2].1);
                let sv = spec_base[2].1;
                assert(av matches JsonView::Array(_));
                let a_items = av->Array_0;
                let s_items = sv->Array_0;
                assert(a_items.len() == s_items.len());
                assert(a_items =~= s_items);
            }
        }
        assert(entry_models(entries@) =~= spec_base);
    }
    match overlay {
        Some(o) => merge_json_objects(&base, o),
        None => base,
    }
}

/// The Firebender agent.
pub struct FirebenderGenerator;

impl FirebenderGenerator {
    pub fn name(&self) -> (r: &'static str)
        ensures
            r@ == "firebender"@,
    {
        "firebender"
    }

    /// The configuration file the cleaner removes.
    pub fn clean_path(&self, current_dir: &str) -> (r: String)
        ensures
            r@ == joined(current_dir@, FIREBENDER_JSON@),
    {
        crate::paths::join_path(current_dir, FIREBENDER_JSON)
    }

    /// Whether the configuration on disk is in sync: absent when no rule
    /// applies; else equal (as a JSON value) to the freshly assembled
    /// configuration.
    pub fn check_agent_contents(
        &self,
        source_files: &Vec<SourceFile>,
        commands: &Vec<CommandFile>,
        mcp_servers: &Option<JsonValue>,
        overlay: &Option<JsonValue>,
        actual: &Option<JsonValue>,
    ) -> (r: bool)
        ensures
            r == ({
                let rules = rule_views(source_files@);
                if rules.len() == 0 {
                    *actual is None
                } else {
                    (*actual) matches Some(a) && a@ == spec_firebender_config(
                        rules,
                        commands@.map_values(|c: CommandFile| c@),
                        crate::json::opt_model(*mcp_servers),
                        crate::json::opt_model(*overlay),
                    )
                }
            }),
    {
        if source_files.len() == 0 {
            return actual.is_none();
        }
        match actual {
            None => false,
            Some(a) => {
                let expected = generate_firebender_config(
                    source_files,
                    commands,
                    mcp_servers,
                    overlay,
                );
                crate::json::json_eq(a, &expected)
            },
        }
    }

    pub fn gitignore_patterns(&self) -> (r: Vec<String>)
        ensures
            r@.len() == 1,
            r@[0]@ == FIREBENDER_JSON@,
    {
        let mut v: Vec<String> = Vec::new();
        v.push(FIREBENDER_JSON.to_owned());
        v
    }

    pub fn skills_generator(&self) -> (r: Option<ExternalSkillsGenerator>)
        ensures
            r matches Some(g) && g.target_dir@ == FIREBENDER_SKILLS_DIR@ && !g.marks_directories,
    {
        Some(
            ExternalSkillsGenerator {
                target_dir: FIREBENDER_SKILLS_DIR.to_owned(),
                marks_directories: false,
            },
        )
    }
}

} // verus!
