use ai_rules::amp::AmpGenerator;
use ai_rules::amp_command_generator::AmpCommandGenerator;
use ai_rules::assistant::AssistantGenerator;
use ai_rules::codex::CodexGenerator;
use ai_rules::cursor::{create_cursor_frontmatter, generate_rule_file_content, CursorGenerator};
use ai_rules::cursor_command_generator::CursorCommandGenerator;
use ai_rules::external_commands_generator::ExternalCommandsGenerator;
use ai_rules::external_skills_generator::ExternalSkillsGenerator;
use ai_rules::firebender::FirebenderGenerator;
use ai_rules::gemini::GeminiGenerator;
use ai_rules::jetbrains_ai_assistant::JetbrainsAiAssistantGenerator;
use ai_rules::mcp_generator::ExternalMcpGenerator;
use ai_rules::registry::AgentToolRegistry;
use ai_rules::roo::RooGenerator;
use ai_rules::source_file::{FrontMatter, SourceFile};

fn create_test_source_file(
    base_file_name: &str,
    description: &str,
    always_apply: bool,
    file_patterns: Vec<String>,
    body: &str,
) -> SourceFile {
    SourceFile {
        front_matter: FrontMatter {
            description: description.to_string(),
            always_apply,
            file_matching_patterns: if file_patterns.is_empty() {
                None
            } else {
                Some(file_patterns)
            },
            allowed_agents: None,
            blocked_agents: None,
        },
        body: body.to_string(),
        base_file_name: base_file_name.to_string(),
    }
}

#[test]
fn test_amp_generator_name() {
    let generator = AmpGenerator;
    assert_eq!(generator.name(), "amp");
}

#[test]
fn test_amp_generator_has_command_generator() {
    let generator = AmpGenerator;
    assert!(generator.command_generator().is_some());
}

#[test]
fn test_amp_generator_gitignore_patterns() {
    let generator = AmpGenerator;
    let patterns = generator.gitignore_patterns();
    assert!(patterns.contains(&"AGENTS.md".to_string()));
}

#[test]
fn amp_command_generator_test_command_gitignore_patterns() {
    let generator = AmpCommandGenerator;
    let patterns = generator.command_gitignore_patterns();

    assert_eq!(patterns.len(), 1);
    assert_eq!(patterns[0], ".agents/commands/ai-rules-generated-*.md");
}

#[test]
fn test_gitignore_patterns_includes_skills() {
    let generator = AssistantGenerator::new("assistant", "ASSISTANT.md", true);
    let patterns = generator.gitignore_patterns();

    assert_eq!(patterns.len(), 2);
    assert!(patterns.contains(&"ASSISTANT.md".to_string()));
    assert!(patterns.contains(&".assistant/skills/ai-rules-generated-*/".to_string()));
}

#[test]
fn test_gitignore_patterns_no_skills_mode() {
    let generator = AssistantGenerator::new("assistant", "ASSISTANT.md", false);
    let patterns = generator.gitignore_patterns();

    assert_eq!(patterns.len(), 1);
    assert!(patterns.contains(&"ASSISTANT.md".to_string()));
}

#[test]
fn test_codex_generator_name() {
    let generator = CodexGenerator::new();
    assert_eq!(generator.name, "codex");
}

#[test]
fn test_codex_generator_gitignore_patterns() {
    let generator = CodexGenerator::new();
    let patterns = generator.gitignore_patterns();
    assert_eq!(patterns, vec!["AGENTS.md".to_string()]);
}

#[test]
fn test_create_cursor_frontmatter() {
    let source_file =
        create_test_source_file("test", "Test rule", true, vec!["**/*.ts".to_string()], "test body");

    let frontmatter = create_cursor_frontmatter(&source_file);
    let expected = "---\ndescription: Test rule\nglobs: **/*.ts\nalwaysApply: true\n---\n\n";

    assert_eq!(frontmatter, expected);
}

#[test]
fn test_create_cursor_frontmatter_file_matching_patterns_empty() {
    let source_file = SourceFile {
        base_file_name: "test".to_string(),
        front_matter: FrontMatter {
            description: "Test rule".to_string(),
            always_apply: true,
            file_matching_patterns: None,
            allowed_agents: None,
            blocked_agents: None,
        },
        body: "test body".to_string(),
    };

    let frontmatter = create_cursor_frontmatter(&source_file);
    let expected = "---\ndescription: Test rule\nalwaysApply: true\n---\n\n";

    assert_eq!(frontmatter, expected);
}

#[test]
fn test_generate_rule_file_content() {
    let source_file =
        create_test_source_file("test", "Test rule", true, vec!["**/*.ts".to_string()], "test body");

    let content = generate_rule_file_content(&source_file);

    assert_eq!(
        content,
        "---\ndescription: Test rule\nglobs: **/*.ts\nalwaysApply: true\n---\n\ntest body\n"
    );
}

#[test]
fn cursor_command_generator_test_command_gitignore_patterns() {
    let generator = CursorCommandGenerator;
    let patterns = generator.command_gitignore_patterns();

    assert_eq!(patterns.len(), 1);
    assert_eq!(patterns[0], ".cursor/commands/ai-rules/");
}

#[test]
fn test_flat_generator_target_dir() {
    let generator = ExternalCommandsGenerator::new(".agents/commands");
    assert_eq!(generator.target_dir, ".agents/commands");
    assert!(generator.subdir.is_none());
}

#[test]
fn test_flat_generator_gitignore_patterns() {
    let generator = ExternalCommandsGenerator::new(".agents/commands");
    let patterns = generator.command_gitignore_patterns();
    assert_eq!(patterns, vec![".agents/commands/ai-rules-generated-*.md".to_string()]);
}

#[test]
fn test_subdir_generator_target_dir() {
    let generator = ExternalCommandsGenerator::with_subdir(".assistant/commands", "ai-rules");
    assert_eq!(generator.target_dir, ".assistant/commands");
    assert_eq!(generator.subdir, Some("ai-rules".to_string()));
}

#[test]
fn test_subdir_generator_gitignore_patterns() {
    let generator = ExternalCommandsGenerator::with_subdir(".assistant/commands", "ai-rules");
    let patterns = generator.command_gitignore_patterns();
    assert_eq!(patterns, vec![".assistant/commands/ai-rules/".to_string()]);
}

#[test]
fn test_different_generators_for_different_agents() {
    let assistant_gen = ExternalCommandsGenerator::with_subdir(".assistant/commands", "ai-rules");
    assert_eq!(
        assistant_gen.command_gitignore_patterns(),
        vec![".assistant/commands/ai-rules/".to_string()]
    );

    let cursor_gen = ExternalCommandsGenerator::with_subdir(".cursor/commands", "ai-rules");
    assert_eq!(
        cursor_gen.command_gitignore_patterns(),
        vec![".cursor/commands/ai-rules/".to_string()]
    );

    let amp_gen = ExternalCommandsGenerator::new(".agents/commands");
    assert_eq!(
        amp_gen.command_gitignore_patterns(),
        vec![".agents/commands/ai-rules-generated-*.md".to_string()]
    );
}

#[test]
fn test_external_skills_generator_target_dir() {
    let generator = ExternalSkillsGenerator::new(".assistant/skills");
    assert_eq!(generator.skills_target_dir(), ".assistant/skills");
}

#[test]
fn test_external_skills_generator_gitignore_patterns() {
    let generator = ExternalSkillsGenerator::new(".assistant/skills");
    let patterns = generator.skills_gitignore_patterns();
    assert_eq!(patterns, vec![".assistant/skills/ai-rules-generated-*/".to_string()]);
}

#[test]
fn test_external_skills_generator_different_target_dirs() {
    let assistant_gen = ExternalSkillsGenerator::new(".assistant/skills");
    assert_eq!(
        assistant_gen.skills_gitignore_patterns(),
        vec![".assistant/skills/ai-rules-generated-*/".to_string()]
    );

    let codex_gen = ExternalSkillsGenerator::new(".codex/skills");
    assert_eq!(
        codex_gen.skills_gitignore_patterns(),
        vec![".codex/skills/ai-rules-generated-*/".to_string()]
    );

    let amp_gen = ExternalSkillsGenerator::new(".agents/skills");
    assert_eq!(
        amp_gen.skills_gitignore_patterns(),
        vec![".agents/skills/ai-rules-generated-*/".to_string()]
    );
}

#[test]
fn test_gitignore_patterns_excludes_overlay() {
    let generator = FirebenderGenerator;
    let patterns = generator.gitignore_patterns();
    assert_eq!(patterns, vec!["firebender.json".to_string()]);
    assert!(!patterns.iter().any(|p| p.contains("firebender-overlay.json")));
}

#[test]
fn test_clean_with_nonexistent_directory() {
    let generator = FirebenderGenerator;
    let path = generator.clean_path("missing-project");
    assert_eq!(path, "missing-project/firebender.json");
}

#[test]
fn test_firebender_has_skills_generator() {
    let generator = FirebenderGenerator;
    assert!(generator.skills_generator().is_some());
}

#[test]
fn test_firebender_skills_target_dir() {
    let generator = FirebenderGenerator;
    let skills_gen = generator.skills_generator().unwrap();
    assert_eq!(skills_gen.skills_target_dir(), ".firebender/skills");
}

#[test]
fn test_firebender_skills_gitignore_patterns() {
    let generator = FirebenderGenerator;
    let skills_gen = generator.skills_generator().unwrap();
    let patterns = skills_gen.skills_gitignore_patterns();
    assert_eq!(patterns, vec![".firebender/skills/ai-rules-generated-*".to_string()]);
}

#[test]
fn test_gemini_generator_gitignore_patterns() {
    let generator = GeminiGenerator;
    let patterns = generator.gitignore_patterns();

    assert!(patterns.contains(&"GEMINI.md".to_string()));
    assert!(patterns.contains(&".gemini/settings.json".to_string()));
}

#[test]
fn test_gemini_generator_name() {
    let patterns = GeminiGenerator.gitignore_patterns();
    assert_eq!(patterns[0], "GEMINI.md");
}

#[test]
fn test_name() {
    let patterns = JetbrainsAiAssistantGenerator.gitignore_patterns();
    assert_eq!(patterns.len(), 1);
}

#[test]
fn test_gitignore_patterns() {
    let generator = JetbrainsAiAssistantGenerator;
    let patterns = generator.gitignore_patterns();
    assert_eq!(patterns, vec![".aiassistant/rules/".to_string()]);
}

#[test]
fn test_external_mcp_generator_gitignore_patterns() {
    let generator = ExternalMcpGenerator::new(".mcp.json");
    let patterns = generator.mcp_gitignore_patterns();
    assert_eq!(patterns, vec![".mcp.json".to_string()]);
}

#[test]
fn test_roo_generator_name() {
    let generator = RooGenerator::new();
    assert_eq!(generator.name(), "roo");
}

#[test]
fn test_roo_generator_has_mcp_generator() {
    let generator = RooGenerator::new();
    assert!(generator.mcp_generator().is_some());
}

#[test]
fn test_roo_generator_gitignore_patterns() {
    let generator = RooGenerator::new();
    let patterns = generator.gitignore_patterns();
    assert_eq!(patterns, vec!["AGENTS.md".to_string()]);
}

#[test]
fn test_single_file_check_after_generate_in_sync() {
    let generator = AmpGenerator;
    let source_files = vec![create_test_source_file(
        "rule1",
        "Always",
        true,
        vec![],
        "body",
    )];
    let files = generator.generate_agent_contents(&source_files, "proj");
    assert_eq!(files.len(), 1);
    let written = Some(files[0].1.clone());
    assert!(generator.check_agent_contents(&source_files, &written));
}

#[test]
fn test_single_file_check_empty_rules_requires_absent_file() {
    let generator = AmpGenerator;
    let source_files: Vec<SourceFile> = vec![];
    assert!(generator.check_agent_contents(&source_files, &None));
    assert!(!generator.check_agent_contents(&source_files, &Some("stale".to_string())));
}

#[test]
fn test_cursor_generate_and_check_round_trip() {
    let generator = CursorGenerator;
    let source_files = vec![
        create_test_source_file("rule1", "First rule", true, vec!["**/*.ts".to_string()], "rule1 body"),
        create_test_source_file("rule2", "Second rule", false, vec![], "rule2 body"),
    ];
    let files = generator.generate_agent_contents(&source_files, "proj");
    assert_eq!(files.len(), 2);
    assert_eq!(files[0].0, "proj/.cursor/rules/ai-rules-generated-rule1.mdc");
    assert_eq!(files[1].0, "proj/.cursor/rules/ai-rules-generated-rule2.mdc");
    assert!(generator.check_agent_contents(&source_files, "proj", &Some(files.clone())));
    assert!(!generator.check_agent_contents(&source_files, "proj", &None));
}

#[test]
fn test_jetbrains_generates_every_rule() {
    let generator = JetbrainsAiAssistantGenerator;
    let source_files = vec![
        create_test_source_file("one", "One", true, vec![], "alpha"),
        create_test_source_file("two", "Two", false, vec![], "beta"),
    ];
    let files = generator.generate_agent_contents(&source_files, "proj");
    assert_eq!(files.len(), 2);
    assert_eq!(files[0].0, "proj/.aiassistant/rules/ai-rules-generated-one.md");
    assert_eq!(files[0].1, "alpha\n");
    assert_eq!(files[1].1, "beta\n");
}

#[test]
fn test_create_command_symlinks_uses_the_reserved_prefix() {
    let commands = ai_rules::command_reader::find_command_files(
        "proj",
        &vec!["commit.md".to_string(), "review.md".to_string()],
    );
    let links = ai_rules::command_reader::create_command_symlinks(&commands, ".agents/commands");
    assert_eq!(links.len(), 2);
    assert_eq!(links[0].0, ".agents/commands/ai-rules-generated-commit.md");
    assert_eq!(links[0].1, "../../ai-rules/commands/commit.md");
    assert_eq!(links[1].0, ".agents/commands/ai-rules-generated-review.md");
}

#[test]
fn test_check_command_symlinks_in_sync_flat() {
    let commands = ai_rules::command_reader::find_command_files(
        "proj",
        &vec!["commit.md".to_string()],
    );
    let good = vec![(
        "ai-rules-generated-commit.md".to_string(),
        "proj/ai-rules/commands/commit.md".to_string(),
    )];
    assert!(ai_rules::command_reader::check_command_symlinks_in_sync(&commands, &good));

    let wrong_target = vec![(
        "ai-rules-generated-commit.md".to_string(),
        "proj/elsewhere.md".to_string(),
    )];
    assert!(!ai_rules::command_reader::check_command_symlinks_in_sync(&commands, &wrong_target));

    let orphan = vec![
        (
            "ai-rules-generated-commit.md".to_string(),
            "proj/ai-rules/commands/commit.md".to_string(),
        ),
        (
            "ai-rules-generated-stale.md".to_string(),
            "proj/ai-rules/commands/stale.md".to_string(),
        ),
    ];
    assert!(!ai_rules::command_reader::check_command_symlinks_in_sync(&commands, &orphan));

    let none: Vec<ai_rules::command_reader::CommandFile> = Vec::new();
    assert!(ai_rules::command_reader::check_command_symlinks_in_sync(&none, &Vec::new()));
    assert!(!ai_rules::command_reader::check_command_symlinks_in_sync(&none, &good));
}

#[test]
fn test_check_command_symlinks_in_subdir_in_sync() {
    let commands = ai_rules::command_reader::find_command_files(
        "proj",
        &vec!["commit.md".to_string()],
    );
    let good = vec![(
        "commit.md".to_string(),
        "proj/ai-rules/commands/commit.md".to_string(),
    )];
    assert!(ai_rules::command_reader::check_command_symlinks_in_subdir_in_sync(&commands, &good));

    let extra = vec![
        (
            "commit.md".to_string(),
            "proj/ai-rules/commands/commit.md".to_string(),
        ),
        ("custom.md".to_string(), "somewhere".to_string()),
    ];
    assert!(!ai_rules::command_reader::check_command_symlinks_in_subdir_in_sync(
        &commands, &extra
    ));

    let none: Vec<ai_rules::command_reader::CommandFile> = Vec::new();
    assert!(!ai_rules::command_reader::check_command_symlinks_in_subdir_in_sync(&none, &good));
}

#[test]
fn test_amp_check_commands_judges_prefixed_files_only() {
    let generator = AmpCommandGenerator;
    let docs = vec![("commit".to_string(), "Commit body\n".to_string())];
    let expected = generator.generate_commands("proj", &docs);
    assert_eq!(
        expected[0].0,
        "proj/.agents/commands/ai-rules-generated-commit.md"
    );

    assert!(generator.check_commands("proj", &docs, &Some(expected.clone())));

    let mut with_user_file = expected.clone();
    with_user_file.push((
        "proj/.agents/commands/my-notes.md".to_string(),
        "mine".to_string(),
    ));
    assert!(generator.check_commands("proj", &docs, &Some(with_user_file)));

    let mut with_orphan = expected.clone();
    with_orphan.push((
        "proj/.agents/commands/ai-rules-generated-stale.md".to_string(),
        "stale".to_string(),
    ));
    assert!(!generator.check_commands("proj", &docs, &Some(with_orphan)));

    assert!(!generator.check_commands("proj", &docs, &None));
    let no_docs: Vec<(String, String)> = Vec::new();
    assert!(generator.check_commands("proj", &no_docs, &None));
}

#[test]
fn test_registry_slots_are_the_supported_agents_in_order() {
    let registry = AgentToolRegistry::new(true);
    let names = registry.get_all_tool_names();
    assert_eq!(
        names,
        vec![
            "assistant".to_string(),
            "cline".to_string(),
            "cursor".to_string(),
            "firebender".to_string(),
            "goose".to_string(),
            "amp".to_string(),
            "codex".to_string(),
            "copilot".to_string(),
            "gemini".to_string(),
            "kilocode".to_string(),
            "roo".to_string(),
        ]
    );
    match registry.get_tool("assistant") {
        Some(ai_rules::registry::AgentTool::Assistant(g)) => assert!(g.skills_mode),
        _ => panic!("the assistant slot must hold the assistant generator"),
    }
    match registry.get_tool("amp").and_then(|t| t.command_generator()) {
        Some(ai_rules::registry::CommandTool::Files(_)) => {},
        _ => panic!("AMP's command generator writes files, not links"),
    }
}
