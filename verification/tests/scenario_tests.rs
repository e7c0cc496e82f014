use ai_rules::body_generator::{
    generate_all_rule_references_for_agent, generate_body_contents,
};
use ai_rules::cleaner::select_generated_names;
use ai_rules::gemini::{gemini_mcp_in_sync, gemini_settings_update, transform_mcp_servers};
use ai_rules::json::{get_entry, json_eq, merge_json_objects, JsonValue};
use ai_rules::mcp_reader::{mcp_config_from_document, read_mcp_config, validate_mcp_document, McpServerConfig};
use ai_rules::optional_rules::generate_optional_rules_content;
use ai_rules::source_file::{FrontMatter, SourceFile};
use ai_rules::source_reader::detect_symlink_mode;

fn rule(base: &str, description: &str, always_apply: bool, body: &str) -> SourceFile {
    SourceFile {
        front_matter: FrontMatter {
            description: description.to_string(),
            always_apply,
            file_matching_patterns: None,
            allowed_agents: None,
            blocked_agents: None,
        },
        body: body.to_string(),
        base_file_name: base.to_string(),
    }
}

fn obj(entries: Vec<(&str, JsonValue)>) -> JsonValue {
    JsonValue::Object(
        entries
            .into_iter()
            .map(|(k, v)| (k.to_string(), v))
            .collect(),
    )
}

fn text(s: &str) -> JsonValue {
    JsonValue::Text(s.to_string())
}

fn get<'a>(v: &'a JsonValue, key: &str) -> Option<&'a JsonValue> {
    match v {
        JsonValue::Object(entries) => get_entry(entries, key),
        _ => None,
    }
}

/// The worked example: one required rule `a.md` and one optional rule
/// `b.md`, generated, then `b.md` removed and generated again.
#[test]
fn scenario_required_and_optional_rule_artifacts() {
    let a = rule("a", "Always", true, "Body A");
    let b = rule("b", "Optional B", false, "Body B");
    let rules = vec![a, b];

    let bodies = generate_body_contents(&rules, "proj");
    assert_eq!(bodies.len(), 2);
    assert_eq!(
        bodies[0],
        (
            "proj/ai-rules/.generated-ai-rules/ai-rules-generated-a.md".to_string(),
            "Body A\n".to_string()
        )
    );
    assert_eq!(
        bodies[1],
        (
            "proj/ai-rules/.generated-ai-rules/ai-rules-generated-b.md".to_string(),
            "Body B\n".to_string()
        )
    );

    let reference_doc = generate_all_rule_references_for_agent(&rules, "assistant");
    assert_eq!(
        reference_doc,
        "@ai-rules/.generated-ai-rules/ai-rules-generated-a.md\n\n@ai-rules/.generated-ai-rules/ai-rules-generated-optional-assistant.md\n"
    );

    let optional_index = generate_optional_rules_content(&rules);
    assert_eq!(
        optional_index,
        "# Optional Rules (use when relevant):\n\nOptional B: ai-rules/.generated-ai-rules/ai-rules-generated-b.md\n\n"
    );

    // Removing b.md collapses the optional index and leaves a.md's artifacts.
    let only_a = vec![rule("a", "Always", true, "Body A")];
    let bodies2 = generate_body_contents(&only_a, "proj");
    assert_eq!(bodies2.len(), 1);
    assert_eq!(
        bodies2[0].0,
        "proj/ai-rules/.generated-ai-rules/ai-rules-generated-a.md"
    );
    assert_eq!(generate_optional_rules_content(&only_a), "");
    assert_eq!(
        generate_all_rule_references_for_agent(&only_a, "assistant"),
        "@ai-rules/.generated-ai-rules/ai-rules-generated-a.md\n"
    );
}

/// Generating twice with unchanged rules is byte-identical, and the
/// reconciliation of the freshly generated artifacts reports in-sync.
#[test]
fn scenario_generation_is_idempotent() {
    let rules = vec![
        rule("a", "Always", true, "Body A"),
        rule("b", "Optional B", false, "Body B"),
    ];
    let once = generate_body_contents(&rules, "proj");
    let twice = generate_body_contents(&rules, "proj");
    assert_eq!(once, twice);

    let expected = once.clone();
    assert!(ai_rules::file_utils::check_directory_exact_match(
        &expected,
        &Some(once)
    ));
}

/// Prefix safety: cleaning a directory holding both generated and
/// user-authored files selects only the prefixed names.
#[test]
fn scenario_clean_spares_user_files() {
    let names = vec![
        "ai-rules-generated-a.md".to_string(),
        "my-notes.md".to_string(),
        "ai-rules-generated-optional-assistant.md".to_string(),
        "README.md".to_string(),
    ];
    let doomed = select_generated_names(&names);
    assert_eq!(
        doomed,
        vec![
            "ai-rules-generated-a.md".to_string(),
            "ai-rules-generated-optional-assistant.md".to_string(),
        ]
    );
}

/// Pass-through mode needs exactly one frontmatter-less document of the
/// reserved name; a second file or a frontmatter block switches it off.
#[test]
fn scenario_symlink_mode_exclusivity() {
    let one = vec!["AGENTS.md".to_string()];
    let pure = Some("# Pure markdown\n\nNo frontmatter here.".to_string());
    assert!(detect_symlink_mode(&one, &pure));

    let two = vec!["AGENTS.md".to_string(), "other.md".to_string()];
    assert!(!detect_symlink_mode(&two, &pure));

    let with_frontmatter = Some("---\ndescription: x\nalwaysApply: true\n---\nBody".to_string());
    assert!(!detect_symlink_mode(&one, &with_frontmatter));

    let wrong_name = vec!["OTHER.md".to_string()];
    assert!(!detect_symlink_mode(&wrong_name, &pure));
}

/// The MCP source example: a `url` ending in `/mcp` with no `type` in the
/// rewritten output moves to `httpUrl`, `url` and `command` are dropped, and
/// an unrelated pre-existing key in the settings document is preserved.
#[test]
fn scenario_mcp_http_url_rewrite_preserves_unrelated_keys() {
    let servers = obj(vec![(
        "notion",
        obj(vec![
            ("command", text("")),
            ("url", text("https://mcp.example.test/mcp")),
        ]),
    )]);
    let existing = obj(vec![
        ("otherSetting", text("preserved")),
        ("nestedSetting", obj(vec![("key", text("value"))])),
    ]);

    let updated = gemini_settings_update(&Some(existing), &servers);

    assert!(matches!(
        get(&updated, "otherSetting"),
        Some(JsonValue::Text(s)) if s == "preserved"
    ));
    let nested = get(&updated, "nestedSetting").unwrap();
    assert!(matches!(
        get(nested, "key"),
        Some(JsonValue::Text(s)) if s == "value"
    ));

    let rewritten = get(&updated, "mcpServers").unwrap();
    let notion = get(rewritten, "notion").unwrap();
    assert!(matches!(
        get(notion, "httpUrl"),
        Some(JsonValue::Text(s)) if s == "https://mcp.example.test/mcp"
    ));
    assert!(get(notion, "url").is_none());
    assert!(get(notion, "command").is_none());
    assert!(get(notion, "type").is_none());
}

#[test]
fn test_transform_drops_type_and_keeps_plain_urls() {
    let servers = obj(vec![
        (
            "jira",
            obj(vec![
                ("command", text("")),
                ("type", text("http")),
                ("url", text("https://mcp.example.test/v1/sse")),
            ]),
        ),
        (
            "stdio-server",
            obj(vec![("command", text("npx")), ("type", text("stdio"))]),
        ),
    ]);
    let out = transform_mcp_servers(&servers);
    let jira = get(&out, "jira").unwrap();
    assert!(get(jira, "url").is_some());
    assert!(get(jira, "command").is_none());
    assert!(get(jira, "type").is_none());
    let stdio = get(&out, "stdio-server").unwrap();
    assert!(get(stdio, "command").is_some());
    assert!(get(stdio, "type").is_none());
}

#[test]
fn test_gemini_check_mcp_in_sync_after_transform() {
    let source = obj(vec![(
        "jira",
        obj(vec![
            ("command", text("")),
            ("type", text("http")),
            ("url", text("https://mcp.example.test/v1/sse")),
        ]),
    )]);
    let target = obj(vec![(
        "mcpServers",
        obj(vec![(
            "jira",
            obj(vec![("url", text("https://mcp.example.test/v1/sse"))]),
        )]),
    )]);
    assert!(gemini_mcp_in_sync(&Some(source), &Some(target)));
}

#[test]
fn test_gemini_check_mcp_without_source() {
    assert!(gemini_mcp_in_sync(&None, &None));
    let target_empty = obj(vec![("mcpServers", obj(vec![]))]);
    assert!(gemini_mcp_in_sync(&None, &Some(target_empty)));
    let target_full = obj(vec![(
        "mcpServers",
        obj(vec![("x", obj(vec![("url", text("u"))]))]),
    )]);
    assert!(!gemini_mcp_in_sync(&None, &Some(target_full)));
}

#[test]
fn test_deep_merge_merges_objects_and_replaces_the_rest() {
    let base = obj(vec![
        ("keep", text("original")),
        ("nested", obj(vec![("a", text("1")), ("b", text("2"))])),
        ("arr", JsonValue::Array(vec![text("x"), text("y")])),
    ]);
    let overlay = obj(vec![
        ("nested", obj(vec![("b", text("override")), ("c", text("3"))])),
        ("arr", JsonValue::Array(vec![text("z")])),
        ("added", JsonValue::Bool(true)),
    ]);
    let merged = merge_json_objects(&base, &overlay);

    assert!(matches!(get(&merged, "keep"), Some(JsonValue::Text(s)) if s == "original"));
    let nested = get(&merged, "nested").unwrap();
    assert!(matches!(get(nested, "a"), Some(JsonValue::Text(s)) if s == "1"));
    assert!(matches!(get(nested, "b"), Some(JsonValue::Text(s)) if s == "override"));
    assert!(matches!(get(nested, "c"), Some(JsonValue::Text(s)) if s == "3"));
    match get(&merged, "arr").unwrap() {
        JsonValue::Array(items) => {
            assert_eq!(items.len(), 1);
            assert!(matches!(&items[0], JsonValue::Text(s) if s == "z"));
        },
        _ => panic!("arrays are replaced, never element-merged"),
    }
    assert!(matches!(get(&merged, "added"), Some(JsonValue::Bool(true))));
}

#[test]
fn test_json_eq_is_structural() {
    let a = obj(vec![("x", text("1"))]);
    let b = obj(vec![("x", text("1"))]);
    let c = obj(vec![("x", text("2"))]);
    assert!(json_eq(&a, &b));
    assert!(!json_eq(&a, &c));
}

#[test]
fn test_validate_mcp_document_accepts_both_shapes() {
    let valid = obj(vec![(
        "mcpServers",
        obj(vec![
            (
                "local",
                obj(vec![
                    ("command", text("npx")),
                    ("args", JsonValue::Array(vec![text("-y"), text("tool")])),
                ]),
            ),
            (
                "remote",
                obj(vec![
                    ("type", text("http")),
                    ("url", text("https://remote.example.test/mcp")),
                ]),
            ),
        ]),
    )]);
    assert!(validate_mcp_document(&valid));
}

#[test]
fn test_validate_mcp_document_rejects_unknown_shapes() {
    let missing_servers = obj(vec![("servers", obj(vec![]))]);
    assert!(!validate_mcp_document(&missing_servers));

    let not_an_object = obj(vec![("mcpServers", text("not an object"))]);
    assert!(!validate_mcp_document(&not_an_object));

    let missing_command = obj(vec![(
        "mcpServers",
        obj(vec![("bad", obj(vec![("args", JsonValue::Array(vec![]))]))]),
    )]);
    assert!(!validate_mcp_document(&missing_command));

    let command_not_string = obj(vec![(
        "mcpServers",
        obj(vec![("bad", obj(vec![("command", JsonValue::Number("123".to_string()))]))]),
    )]);
    assert!(!validate_mcp_document(&command_not_string));

    let args_not_array = obj(vec![(
        "mcpServers",
        obj(vec![(
            "bad",
            obj(vec![("command", text("npx")), ("args", text("not an array"))]),
        )]),
    )]);
    assert!(!validate_mcp_document(&args_not_array));

    let bad_type = obj(vec![(
        "mcpServers",
        obj(vec![(
            "bad",
            obj(vec![
                ("type", text("invalid-type")),
                ("url", text("https://example.test/mcp")),
            ]),
        )]),
    )]);
    assert!(!validate_mcp_document(&bad_type));
}

#[test]
fn test_read_mcp_config_passes_valid_content_through() {
    let doc = obj(vec![(
        "mcpServers",
        obj(vec![("svc", obj(vec![("command", text("npx"))]))]),
    )]);
    let source = Some(("{\"mcpServers\": {}}".to_string(), doc));
    let out = read_mcp_config(&source).unwrap();
    assert_eq!(out, Some("{\"mcpServers\": {}}\n".to_string()));

    assert_eq!(read_mcp_config(&None).unwrap(), None);

    let invalid = Some(("{}".to_string(), obj(vec![])));
    assert!(read_mcp_config(&invalid).is_err());
}

#[test]
fn test_applies_to_is_case_insensitive_and_allow_wins() {
    let fm = FrontMatter {
        description: "d".to_string(),
        always_apply: false,
        file_matching_patterns: None,
        allowed_agents: Some(vec!["Assistant".to_string()]),
        blocked_agents: Some(vec!["assistant".to_string()]),
    };
    assert!(fm.applies_to("ASSISTANT"));
    assert!(!fm.applies_to("cursor"));

    let blocked_only = FrontMatter {
        description: "d".to_string(),
        always_apply: false,
        file_matching_patterns: None,
        allowed_agents: None,
        blocked_agents: Some(vec!["GOOSE".to_string()]),
    };
    assert!(!blocked_only.applies_to("goose"));
    assert!(blocked_only.applies_to("cursor"));
}

#[test]
fn test_sorted_unique_strings_orders_and_dedups() {
    let names = vec![
        "b".to_string(),
        "a".to_string(),
        "b".to_string(),
        "c".to_string(),
    ];
    let sorted = ai_rules::file_utils::sorted_unique_strings(&names);
    assert_eq!(sorted, vec!["a".to_string(), "b".to_string(), "c".to_string()]);
}

#[test]
fn test_skill_manifest_round_trips_the_generated_body_path() {
    let optional = rule("workflow", "Test Workflow", false, "My workflow");
    let (path, content) =
        ai_rules::assistant_skills::generate_skill_file_content(&optional, "proj");
    assert_eq!(
        path,
        "proj/.assistant/skills/ai-rules-generated-workflow/SKILL.md"
    );
    assert_eq!(
        content,
        "---\nname: test-workflow\ndescription: Test Workflow\n---\n\n@ai-rules/.generated-ai-rules/ai-rules-generated-workflow.md"
    );
}

#[test]
fn test_skill_label_falls_back_to_base_name() {
    let optional = rule("fallback-name", "", false, "Content");
    let (path, content) =
        ai_rules::assistant_skills::generate_skill_file_content(&optional, "proj");
    assert_eq!(
        path,
        "proj/.assistant/skills/ai-rules-generated-fallback-name/SKILL.md"
    );
    assert!(content.contains("name: fallback-name"));
    assert!(content.contains("description: fallback-name"));
}

#[test]
fn test_inlined_content_joins_required_blocks_and_appends_index() {
    let rules = vec![
        rule("a", "Always", true, "Body A"),
        rule("b", "Optional B", false, "Body B"),
        rule("c", "", true, "Body C"),
    ];
    let inlined = ai_rules::body_generator::generate_inlined_agents_content(&rules);
    assert_eq!(
        inlined,
        "# Always\n\nBody A\n\nBody C\n\n# Optional Rules (use when relevant):\n\nOptional B: ai-rules/.generated-ai-rules/ai-rules-generated-b.md\n\n"
    );

    let required_only = vec![rule("a", "Always", true, "Body A")];
    assert_eq!(
        ai_rules::body_generator::generate_inlined_agents_content(&required_only),
        "# Always\n\nBody A\n"
    );
}

#[test]
fn test_mcp_config_extraction_types_each_server() {
    let doc = obj(vec![(
        "mcpServers",
        obj(vec![
            (
                "local",
                obj(vec![
                    ("command", text("npx")),
                    ("args", JsonValue::Array(vec![text("-y"), text("tool")])),
                ]),
            ),
            (
                "remote",
                obj(vec![
                    ("type", text("http")),
                    ("url", text("https://remote.example.test/mcp")),
                ]),
            ),
        ]),
    )]);
    let config = mcp_config_from_document(&doc).unwrap();
    assert_eq!(config.mcp_servers.len(), 2);
    assert_eq!(config.mcp_servers[0].0, "local");
    match &config.mcp_servers[0].1 {
        McpServerConfig::Command { command, args, .. } => {
            assert_eq!(command, "npx");
            assert_eq!(args.as_deref(), Some(&["-y".to_string(), "tool".to_string()][..]));
        },
        _ => panic!("expected the command shape"),
    }
    match &config.mcp_servers[1].1 {
        McpServerConfig::Http { url, .. } => {
            assert_eq!(url, "https://remote.example.test/mcp");
        },
        _ => panic!("expected the HTTP shape"),
    }

    assert!(mcp_config_from_document(&obj(vec![])).is_none());
}

#[test]
fn test_conflicting_agent_lists_are_flagged_and_allow_wins() {
    let fm = FrontMatter {
        description: "d".to_string(),
        always_apply: false,
        file_matching_patterns: None,
        allowed_agents: Some(vec!["cursor".to_string()]),
        blocked_agents: Some(vec!["cursor".to_string()]),
    };
    assert!(fm.has_conflicting_agent_lists());
    assert!(fm.applies_to("cursor"));
}

#[test]
fn test_deep_merge_is_idempotent_for_one_overlay() {
    let base = obj(vec![
        ("keep", text("original")),
        ("nested", obj(vec![("a", text("1"))])),
    ]);
    let overlay = obj(vec![
        ("nested", obj(vec![("b", text("2"))])),
        ("arr", JsonValue::Array(vec![text("z")])),
    ]);
    let once = merge_json_objects(&base, &overlay);
    let twice = merge_json_objects(&once, &overlay);
    assert!(json_eq(&once, &twice));
}
