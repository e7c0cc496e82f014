use ai_rules::body_generator::{
    generate_all_rule_references_for_agent, generate_body_contents,
    generate_optional_rule_files_for_agents, generate_required_rule_references,
};
use ai_rules::optional_rules::generate_optional_rules_content;
use ai_rules::source_file::{FrontMatter, SourceFile};

fn create_test_source_file(
    base_file_name: &str,
    description: &str,
    always_apply: bool,
    body: &str,
) -> SourceFile {
    SourceFile {
        front_matter: FrontMatter {
            description: description.to_string(),
            always_apply,
            file_matching_patterns: None,
            allowed_agents: None,
            blocked_agents: None,
        },
        body: body.to_string(),
        base_file_name: base_file_name.to_string(),
    }
}

fn create_test_source_file_with_agents(
    base_file_name: &str,
    description: &str,
    always_apply: bool,
    allowed_agents: Option<Vec<&str>>,
    blocked_agents: Option<Vec<&str>>,
    body: &str,
) -> SourceFile {
    SourceFile {
        front_matter: FrontMatter {
            description: description.to_string(),
            always_apply,
            file_matching_patterns: None,
            allowed_agents: allowed_agents
                .map(|agents| agents.into_iter().map(|agent| agent.to_string()).collect()),
            blocked_agents: blocked_agents
                .map(|agents| agents.into_iter().map(|agent| agent.to_string()).collect()),
        },
        body: body.to_string(),
        base_file_name: base_file_name.to_string(),
    }
}

fn expected_optional_content(rule_entries: &str) -> String {
    format!("# Optional Rules (use when relevant):\n\n{}", rule_entries)
}

#[test]
fn test_generate_required_rule_references_only_always_apply() {
    let source_files = vec![
        create_test_source_file("always1", "Always", true, "Content"),
        create_test_source_file("optional1", "Optional", false, "Content"),
    ];

    let content = generate_required_rule_references(&source_files);

    assert!(content.contains("ai-rules-generated-always1.md"));
    assert!(!content.contains("ai-rules-generated-optional1.md"));
    assert!(!content.contains("ai-rules-generated-optional-assistant.md"));
}

#[test]
fn test_generate_required_rule_references_empty_list() {
    let source_files: Vec<SourceFile> = vec![];

    let content = generate_required_rule_references(&source_files);

    assert_eq!(content, "");
}

#[test]
fn test_generate_required_rule_references_no_required_rules() {
    let source_files = vec![
        create_test_source_file("optional1", "Optional", false, "Content"),
        create_test_source_file("optional2", "Optional", false, "Content"),
    ];

    let content = generate_required_rule_references(&source_files);

    assert_eq!(content, "");
}

#[test]
fn test_generate_required_rule_references_multiple_required() {
    let source_files = vec![
        create_test_source_file("always1", "Always 1", true, "Content 1"),
        create_test_source_file("always2", "Always 2", true, "Content 2"),
        create_test_source_file("optional1", "Optional", false, "Content"),
    ];

    let content = generate_required_rule_references(&source_files);

    assert_eq!(
        content,
        "@ai-rules/.generated-ai-rules/ai-rules-generated-always1.md\n\
         @ai-rules/.generated-ai-rules/ai-rules-generated-always2.md\n"
    );
}

#[test]
fn test_generate_all_rule_references_only_required() {
    let source_files = vec![
        create_test_source_file("always1", "Always", true, "Content"),
        create_test_source_file("always2", "Always 2", true, "Content 2"),
    ];

    let content = generate_all_rule_references_for_agent(&source_files, "assistant");

    assert_eq!(
        content,
        "@ai-rules/.generated-ai-rules/ai-rules-generated-always1.md\n\
         @ai-rules/.generated-ai-rules/ai-rules-generated-always2.md\n"
    );
}

#[test]
fn test_generate_all_rule_references_only_optional() {
    let source_files = vec![
        create_test_source_file("optional1", "Optional", false, "Content"),
        create_test_source_file("optional2", "Optional 2", false, "Content 2"),
    ];

    let content = generate_all_rule_references_for_agent(&source_files, "assistant");

    assert_eq!(
        content,
        "\n@ai-rules/.generated-ai-rules/ai-rules-generated-optional-assistant.md\n"
    );
}

#[test]
fn test_generate_all_rule_references_mixed() {
    let source_files = vec![
        create_test_source_file("always1", "Always", true, "Content"),
        create_test_source_file("optional1", "Optional", false, "Content"),
        create_test_source_file("always2", "Always 2", true, "Content 2"),
    ];

    let content = generate_all_rule_references_for_agent(&source_files, "assistant");

    assert_eq!(
        content,
        "@ai-rules/.generated-ai-rules/ai-rules-generated-always1.md\n\
         @ai-rules/.generated-ai-rules/ai-rules-generated-always2.md\n\
         \n\
         @ai-rules/.generated-ai-rules/ai-rules-generated-optional-assistant.md\n"
    );
}

#[test]
fn test_generate_all_rule_references_empty() {
    let source_files: Vec<SourceFile> = vec![];

    let content = generate_all_rule_references_for_agent(&source_files, "assistant");

    assert_eq!(content, "");
}

#[test]
fn test_generate_optional_rule_files_for_agents_filters() {
    let source_files = vec![
        create_test_source_file_with_agents(
            "assistant_only",
            "Assistant only",
            false,
            Some(vec!["assistant"]),
            None,
            "Optional",
        ),
        create_test_source_file_with_agents(
            "not_goose",
            "Everyone but goose",
            false,
            None,
            Some(vec!["goose"]),
            "Optional",
        ),
    ];
    let agents = vec!["assistant".to_string(), "goose".to_string()];

    let files = generate_optional_rule_files_for_agents(&source_files, "proj", &agents);
    let assistant_optional_path =
        "proj/ai-rules/.generated-ai-rules/ai-rules-generated-optional-assistant.md";

    assert!(files.iter().any(|(p, _)| p == assistant_optional_path));
    assert!(!files
        .iter()
        .any(|(p, _)| p.contains("ai-rules-generated-optional-goose.md")));
    assert!(!files
        .iter()
        .any(|(p, _)| p.contains("ai-rules-generated-optional-agents-md.md")));
    let content = &files
        .iter()
        .find(|(p, _)| p == assistant_optional_path)
        .unwrap()
        .1;
    assert!(content.contains("Assistant only"));
    assert!(content.contains("Everyone but goose"));
}

#[test]
fn test_generate_optional_rules_content_empty() {
    let source_files = vec![];
    let result = generate_optional_rules_content(&source_files);
    assert_eq!(result, "");
}

#[test]
fn test_generate_optional_rules_content_no_optional_files() {
    let source_files = vec![
        create_test_source_file("rule1", "Always apply rule 1", true, "Rule 1 body"),
        create_test_source_file("rule2", "Always apply rule 2", true, "Rule 2 body"),
    ];

    let result = generate_optional_rules_content(&source_files);
    assert_eq!(result, "");
}

#[test]
fn test_generate_optional_rules_content_single_optional() {
    let source_files = vec![create_test_source_file(
        "optional_rule",
        "Optional testing rule",
        false,
        "Optional rule body",
    )];

    let result = generate_optional_rules_content(&source_files);
    let expected = expected_optional_content(
        "Optional testing rule: ai-rules/.generated-ai-rules/ai-rules-generated-optional_rule.md\n\n",
    );
    assert_eq!(result, expected);
}

#[test]
fn test_generate_optional_rules_content_multiple_optional() {
    let source_files = vec![
        create_test_source_file("optional1", "First optional rule", false, "Optional 1 body"),
        create_test_source_file("optional2", "Second optional rule", false, "Optional 2 body"),
    ];

    let result = generate_optional_rules_content(&source_files);
    let expected = expected_optional_content("First optional rule: ai-rules/.generated-ai-rules/ai-rules-generated-optional1.md\n\nSecond optional rule: ai-rules/.generated-ai-rules/ai-rules-generated-optional2.md\n\n");
    assert_eq!(result, expected);
}

#[test]
fn test_generate_optional_rules_content_mixed_rules() {
    let source_files = vec![
        create_test_source_file("always1", "Always apply rule", true, "Always body"),
        create_test_source_file("optional1", "Optional rule", false, "Optional body"),
        create_test_source_file("always2", "Another always rule", true, "Always body 2"),
        create_test_source_file("optional2", "Another optional rule", false, "Optional body 2"),
    ];

    let result = generate_optional_rules_content(&source_files);
    let expected = expected_optional_content("Optional rule: ai-rules/.generated-ai-rules/ai-rules-generated-optional1.md\n\nAnother optional rule: ai-rules/.generated-ai-rules/ai-rules-generated-optional2.md\n\n");
    assert_eq!(result, expected);
}

#[test]
fn test_generate_optional_rules_content_preserves_order() {
    let source_files = vec![
        create_test_source_file("rule_c", "Rule C", false, "C body"),
        create_test_source_file("rule_a", "Rule A", false, "A body"),
        create_test_source_file("rule_b", "Rule B", false, "B body"),
    ];

    let result = generate_optional_rules_content(&source_files);

    assert!(
        result.contains("Rule C:") && result.contains("Rule A:") && result.contains("Rule B:"),
        "Result should contain all three rules"
    );

    let rule_c_pos = result.find("Rule C:").expect("Rule C should be present");
    let rule_a_pos = result.find("Rule A:").expect("Rule A should be present");
    let rule_b_pos = result.find("Rule B:").expect("Rule B should be present");

    assert!(
        rule_c_pos < rule_a_pos && rule_a_pos < rule_b_pos,
        "Rules should appear in order: Rule C, Rule A, Rule B. Found positions: Rule C at {rule_c_pos}, Rule A at {rule_a_pos}, Rule B at {rule_b_pos}"
    );
}

#[test]
fn test_generate_optional_rules_content_special_characters_in_description() {
    let source_files = vec![create_test_source_file(
        "special",
        "Rule with special chars: & < > \" '",
        false,
        "Special body",
    )];

    let result = generate_optional_rules_content(&source_files);
    assert!(result.contains("Rule with special chars: & < > \" ':"));
}

#[test]
fn test_generate_optional_rules_content_empty_description() {
    let source_files = vec![create_test_source_file("empty_desc", "", false, "Body")];

    let result = generate_optional_rules_content(&source_files);
    let expected =
        expected_optional_content(": ai-rules/.generated-ai-rules/ai-rules-generated-empty_desc.md\n\n");
    assert_eq!(result, expected);
}

#[test]
fn test_generate_optional_rules_content_long_base_name() {
    let source_files = vec![create_test_source_file(
        "very_long_base_name_for_testing_purposes_that_exceeds_normal_length",
        "Long name rule",
        false,
        "Body",
    )];

    let result = generate_optional_rules_content(&source_files);
    assert!(result.contains(
        "ai-rules/.generated-ai-rules/ai-rules-generated-very_long_base_name_for_testing_purposes_that_exceeds_normal_length.md"
    ));
}

#[test]
fn test_generate_body_contents_trailing_newline_and_paths() {
    let source_files = vec![
        create_test_source_file("a", "Always", true, "Body A"),
        create_test_source_file("b", "Optional B", false, "Body B\n"),
    ];
    let map = generate_body_contents(&source_files, "proj");
    assert_eq!(map.len(), 2);
    assert_eq!(
        map[0].0,
        "proj/ai-rules/.generated-ai-rules/ai-rules-generated-a.md"
    );
    assert_eq!(map[0].1, "Body A\n");
    assert_eq!(
        map[1].0,
        "proj/ai-rules/.generated-ai-rules/ai-rules-generated-b.md"
    );
    assert_eq!(map[1].1, "Body B\n");
}

#[test]
fn test_generate_body_contents_empty_rules_yield_no_files() {
    let source_files: Vec<SourceFile> = vec![];
    let map = generate_body_contents(&source_files, "proj");
    assert!(map.is_empty());
}
