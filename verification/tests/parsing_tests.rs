use ai_rules::assistant_skills::sanitize_skill_name;
use ai_rules::file_utils::should_traverse_directory;
use ai_rules::frontmatter::split_frontmatter;
use ai_rules::gitignore_updater::{collect_all_gitignore_patterns, remove_ai_rules_section};
use ai_rules::registry::AgentToolRegistry;
use ai_rules::skills_reader::get_skill_gitignore_patterns;
use ai_rules::source_file::{ParseError, SourceFile};
use ai_rules::text::{ensure_trailing_newline, split_comma_list};

#[test]
fn test_split_frontmatter_with_frontmatter() {
    let content = "---\ntitle: Test\n---\nBody content";
    let (fm, body) = split_frontmatter(content);
    assert_eq!(fm, Some("title: Test".to_string()));
    assert_eq!(body, "Body content");
}

#[test]
fn test_split_frontmatter_without_frontmatter() {
    let content = "Just body content";
    let (fm, body) = split_frontmatter(content);
    assert_eq!(fm, None);
    assert_eq!(body, "Just body content");
}

#[test]
fn test_should_traverse_directory() {
    assert!(should_traverse_directory("src"));
    assert!(should_traverse_directory("utils"));
    assert!(!should_traverse_directory(".git"));
    assert!(!should_traverse_directory(".hidden"));
    assert!(!should_traverse_directory("target"));
    assert!(!should_traverse_directory("node_modules"));
    assert!(!should_traverse_directory("build"));
}

#[test]
fn test_get_skill_gitignore_patterns() {
    let patterns = get_skill_gitignore_patterns(".assistant/skills");
    assert_eq!(patterns.len(), 1);
    assert_eq!(patterns[0], ".assistant/skills/ai-rules-generated-*");
}

#[test]
fn test_gitignore_includes_skill_patterns() {
    let registry = AgentToolRegistry::new(false);
    let patterns = collect_all_gitignore_patterns(&registry, 1);

    assert!(
        patterns
            .iter()
            .any(|p| p.contains(".assistant/skills/ai-rules-generated-")),
        "Should include the assistant skill pattern"
    );
    assert!(
        patterns
            .iter()
            .any(|p| p.contains(".codex/skills/ai-rules-generated-")),
        "Should include the Codex skill pattern"
    );
    assert!(
        patterns
            .iter()
            .any(|p| p.contains(".agents/skills/ai-rules-generated-")),
        "Should include the AMP skill pattern"
    );
}

#[test]
fn test_parse_basic() {
    let content = "---\ndescription: Test rules\nalwaysApply: true\nfileMatching: \"**/*.ts, **/*.tsx\"\n---\n\n# Test Rules\nThis is a test body";

    let result = SourceFile::parse(content, "test.md").unwrap();

    assert_eq!(result.front_matter.description, "Test rules");
    assert!(result.front_matter.always_apply);
    assert_eq!(
        result.front_matter.file_matching_patterns,
        Some(vec!["**/*.ts".to_string(), "**/*.tsx".to_string()])
    );
    assert_eq!(result.body, "# Test Rules\nThis is a test body");
}

#[test]
fn test_empty_file_matching() {
    let content =
        "---\ndescription: Test rules\nalwaysApply: true\nfileMatching: \n---\n\n# Test Rules\nThis is a test body";

    let result = SourceFile::parse(content, "test.md").unwrap();

    assert_eq!(result.front_matter.description, "Test rules");
    assert!(result.front_matter.always_apply);
    assert_eq!(result.front_matter.file_matching_patterns, None);
    assert_eq!(result.body, "# Test Rules\nThis is a test body");
}

#[test]
fn test_parse_with_leading_whitespace() {
    let content = "\n\n---\ndescription: Test with whitespace\nalwaysApply: false\nfileMatching: \"**/*.js\"\n---\n\n# Body starts here";

    let result = SourceFile::parse(content, "test.md").unwrap();

    assert_eq!(result.front_matter.description, "Test with whitespace");
    assert!(!result.front_matter.always_apply);
    assert_eq!(
        result.front_matter.file_matching_patterns,
        Some(vec!["**/*.js".to_string()])
    );
    assert_eq!(result.body, "# Body starts here");
}

#[test]
fn test_parse_with_trailing_newlines() {
    let content = "\n---\ndescription: Test with whitespace\nalwaysApply: false\nfileMatching: \"**/*.js\"\n---\n\n# Body starts here\n";

    let result = SourceFile::parse(content, "test.md").unwrap();

    assert_eq!(result.front_matter.description, "Test with whitespace");
    assert!(!result.front_matter.always_apply);
    assert_eq!(
        result.front_matter.file_matching_patterns,
        Some(vec!["**/*.js".to_string()])
    );
    assert_eq!(result.body, "# Body starts here\n");
}

#[test]
fn test_parse_no_frontmatter() {
    let content = "# Just markdown";

    let result = SourceFile::parse(content, "test.md").unwrap();
    assert_eq!(result.front_matter.description, "test");
    assert!(result.front_matter.always_apply);
    assert_eq!(result.front_matter.file_matching_patterns, None);
    assert_eq!(result.body, "# Just markdown");
}

#[test]
fn test_parse_empty_file_is_an_error() {
    let err = SourceFile::parse("   \n  ", "empty.md").unwrap_err();
    assert_eq!(err.message(), "File 'empty.md' is empty");
}

#[test]
fn test_parse_missing_body_is_an_error() {
    let err = SourceFile::parse("---\ndescription: x\nalwaysApply: true", "cut.md").unwrap_err();
    assert_eq!(
        err.message(),
        "Missing body content after frontmatter in file 'cut.md'"
    );
}

#[test]
fn test_parse_invalid_yaml_is_an_error() {
    let err = SourceFile::parse("---\n- description: x\n---\nBody", "bad.md").unwrap_err();
    assert!(matches!(err, ParseError::InvalidFrontmatter { .. }));
    assert!(err.message().contains("bad.md"));
}

#[test]
fn test_parse_missing_always_apply_is_an_error() {
    let err = SourceFile::parse("---\ndescription: x\n---\nBody", "na.md").unwrap_err();
    assert!(matches!(err, ParseError::InvalidFrontmatter { .. }));
}

#[test]
fn test_sanitize_skill_name() {
    assert_eq!(sanitize_skill_name("Test Workflow"), "test-workflow");
    assert_eq!(sanitize_skill_name("My_Cool_Rule"), "my-cool-rule");
    assert_eq!(sanitize_skill_name("Rule with CAPS"), "rule-with-caps");
    assert_eq!(sanitize_skill_name("Rule123"), "rule123");
    assert_eq!(
        sanitize_skill_name("Rule   Multiple   Spaces"),
        "rule-multiple-spaces"
    );
    assert_eq!(sanitize_skill_name("Rule-with-hyphens"), "rule-with-hyphens");
    assert_eq!(
        sanitize_skill_name("Rule_with_underscores"),
        "rule-with-underscores"
    );
    assert_eq!(sanitize_skill_name("Rule!@#$%Special"), "rule-special");
    assert_eq!(sanitize_skill_name("---leading-hyphens"), "leading-hyphens");
    assert_eq!(sanitize_skill_name("trailing-hyphens---"), "trailing-hyphens");
    assert_eq!(sanitize_skill_name("multiple---hyphens"), "multiple-hyphens");

    let long_name = "a".repeat(100);
    assert_eq!(sanitize_skill_name(&long_name).len(), 64);
}

#[test]
fn test_ensure_trailing_newline() {
    assert_eq!(ensure_trailing_newline("abc".to_string()), "abc\n");
    assert_eq!(ensure_trailing_newline("abc\n".to_string()), "abc\n");
    assert_eq!(ensure_trailing_newline(String::new()), "\n");
}

#[test]
fn test_split_comma_list_trims_and_drops_empties() {
    assert_eq!(
        split_comma_list("**/*.ts, **/*.tsx"),
        vec!["**/*.ts".to_string(), "**/*.tsx".to_string()]
    );
    assert_eq!(split_comma_list(" , ,"), Vec::<String>::new());
    assert_eq!(split_comma_list(""), Vec::<String>::new());
}

#[test]
fn test_remove_ai_rules_section_removes_only_the_section() {
    let content = "# Existing content\n*.old\n\n# AI Rules - Generated Files\n*.tmp\nbuild/\n# End AI Rules\n";
    let cleaned = remove_ai_rules_section(content.to_string());
    assert_eq!(cleaned, "# Existing content\n*.old");
}

#[test]
fn test_remove_ai_rules_section_without_markers_is_identity() {
    let content = "# Existing content\n*.old\n";
    let cleaned = remove_ai_rules_section(content.to_string());
    assert_eq!(cleaned, content);
}

#[test]
fn test_calculate_relative_path_counts_levels() {
    assert_eq!(
        ai_rules::file_utils::calculate_relative_path(
            ".assistant/commands/ai-rules/x.md",
            "ai-rules/commands/x.md"
        ),
        "../../../ai-rules/commands/x.md"
    );
    assert_eq!(
        ai_rules::file_utils::calculate_relative_path("AGENTS.md", "ai-rules/AGENTS.md"),
        "ai-rules/AGENTS.md"
    );
}

#[test]
fn test_registry_lists_all_agents() {
    let registry = AgentToolRegistry::new(false);
    let names = registry.get_all_tool_names();
    assert_eq!(names.len(), 11);
    for expected in [
        "assistant",
        "cline",
        "cursor",
        "firebender",
        "goose",
        "amp",
        "codex",
        "copilot",
        "gemini",
        "kilocode",
        "roo",
    ] {
        assert!(names.contains(&expected.to_string()), "missing {expected}");
    }
    assert!(registry.get_tool("cursor").is_some());
    assert!(registry.get_tool("unknown-agent").is_none());
}

#[test]
fn test_update_gitignore_new_file() {
    let patterns = vec!["*.tmp".to_string(), "build/".to_string()];
    let content =
        ai_rules::gitignore_updater::update_gitignore_content(String::new(), &patterns);
    assert_eq!(
        content,
        "\n# AI Rules - Generated Files\n*.tmp\nbuild/\n!**/ai-rules/AGENTS.md\n# End AI Rules\n"
    );
}

#[test]
fn test_update_gitignore_existing_file() {
    let existing = "# Existing content\n*.old\n".to_string();
    let patterns = vec!["*.new".to_string()];
    let content = ai_rules::gitignore_updater::update_gitignore_content(existing, &patterns);
    assert_eq!(
        content,
        "# Existing content\n*.old\n\n# AI Rules - Generated Files\n*.new\n!**/ai-rules/AGENTS.md\n# End AI Rules\n"
    );
}

#[test]
fn test_update_gitignore_replaces_existing_section() {
    let existing = "# Existing content\n*.old\n\n# AI Rules - Generated Files\n*.obsolete\nold_build/\n!**/ai-rules/AGENTS.md\n# End AI Rules\n\n# More content\n*.other".to_string();
    let patterns = vec!["*.new".to_string(), "new_build/".to_string()];
    let content = ai_rules::gitignore_updater::update_gitignore_content(existing, &patterns);
    assert_eq!(
        content,
        "# Existing content\n*.old\n\n\n\n# More content\n*.other\n\n# AI Rules - Generated Files\n*.new\nnew_build/\n!**/ai-rules/AGENTS.md\n# End AI Rules\n"
    );
}

#[test]
fn test_update_gitignore_empty_patterns_only_removes_section() {
    let existing = "# Existing content\n*.old\n".to_string();
    let content =
        ai_rules::gitignore_updater::update_gitignore_content(existing, &Vec::new());
    assert_eq!(content, "# Existing content\n*.old\n");
}

#[test]
fn test_gitignore_covers_matches_plain_lines_only() {
    let patterns = vec!["AGENTS.md".to_string()];
    assert!(ai_rules::gitignore_updater::gitignore_covers(
        "# comment\n  AGENTS.md  \n",
        &patterns
    ));
    assert!(!ai_rules::gitignore_updater::gitignore_covers(
        "# AGENTS.md\nother\n",
        &patterns
    ));
}

#[test]
fn test_parse_source_files_stops_at_the_first_failure() {
    let docs = vec![
        ("good.md".to_string(), "# Fine".to_string()),
        ("bad.md".to_string(), "---\ndescription: x\nalwaysApply: true".to_string()),
        ("later.md".to_string(), "# Never reached".to_string()),
    ];
    let err = ai_rules::source_reader::parse_source_files(&docs).unwrap_err();
    assert_eq!(
        err.message(),
        "Missing body content after frontmatter in file 'bad.md'"
    );

    let ok_docs = vec![
        ("one.md".to_string(), "# One".to_string()),
        ("two.md".to_string(), "---\ndescription: d\nalwaysApply: true\n---\nBody".to_string()),
    ];
    let rules = ai_rules::source_reader::parse_source_files(&ok_docs).unwrap();
    assert_eq!(rules.len(), 2);
    assert_eq!(rules[0].base_file_name, "one");
    assert_eq!(rules[0].body, "# One");
    assert_eq!(rules[1].base_file_name, "two");
    assert_eq!(rules[1].front_matter.description, "d");
    assert_eq!(rules[1].body, "Body");
}
