use ai_rules::cli_args::{Config, GenerateArgs, NestedDepthArgs, StatusArgs};
use ai_rules::init_params::parse_init_params;

#[test]
fn test_generate_args_with_config_cli_priority() {
    let config = Config {
        agents: Some(vec!["cursor".to_string()]),
        command_agents: None,
        gitignore: Some(false),
        no_gitignore: None,
        nested_depth: Some(5),
        use_assistant_skills: None,
    };

    let args = GenerateArgs {
        agents: Some(vec!["assistant".to_string()]),
        gitignore: true,
        no_gitignore: false,
        nested_depth: Some(2),
    };

    let resolved = args.with_config(&Some(config));

    assert_eq!(resolved.agents, Some(vec!["assistant".to_string()]));
    assert!(resolved.gitignore);
    assert_eq!(resolved.nested_depth, 2);
}

#[test]
fn test_generate_args_with_config_uses_config_when_cli_missing() {
    let config = Config {
        agents: Some(vec!["cursor".to_string()]),
        command_agents: None,
        gitignore: Some(true),
        no_gitignore: None,
        nested_depth: Some(3),
        use_assistant_skills: None,
    };

    let args = GenerateArgs {
        agents: None,
        gitignore: false,
        no_gitignore: false,
        nested_depth: None,
    };

    let resolved = args.with_config(&Some(config));

    assert_eq!(resolved.agents, Some(vec!["cursor".to_string()]));
    assert!(resolved.gitignore);
    assert_eq!(resolved.nested_depth, 3);
}

#[test]
fn test_generate_args_with_config_defaults() {
    let args = GenerateArgs {
        agents: None,
        gitignore: false,
        no_gitignore: false,
        nested_depth: None,
    };

    let resolved = args.with_config(&None);

    assert_eq!(resolved.agents, None);
    assert!(!resolved.gitignore);
    assert_eq!(resolved.nested_depth, 0);
}

#[test]
fn test_generate_args_with_config_partial_config() {
    let config = Config {
        agents: Some(vec!["assistant".to_string()]),
        command_agents: None,
        gitignore: None,
        no_gitignore: None,
        nested_depth: None,
        use_assistant_skills: None,
    };

    let args = GenerateArgs {
        agents: None,
        gitignore: false,
        no_gitignore: false,
        nested_depth: None,
    };

    let resolved = args.with_config(&Some(config));

    assert_eq!(resolved.agents, Some(vec!["assistant".to_string()]));
    assert!(!resolved.gitignore);
    assert_eq!(resolved.nested_depth, 0);
}

#[test]
fn test_nested_depth_args_with_config() {
    let config = Config {
        agents: None,
        command_agents: None,
        gitignore: None,
        no_gitignore: None,
        nested_depth: Some(4),
        use_assistant_skills: None,
    };

    let args_with_cli = NestedDepthArgs {
        nested_depth: Some(1),
    };
    assert_eq!(args_with_cli.with_config(&Some(config)), 1);

    let config2 = Config {
        agents: None,
        command_agents: None,
        gitignore: None,
        no_gitignore: None,
        nested_depth: Some(4),
        use_assistant_skills: None,
    };
    let args_without_cli = NestedDepthArgs { nested_depth: None };
    assert_eq!(args_without_cli.with_config(&Some(config2)), 4);

    let args_no_config = NestedDepthArgs { nested_depth: None };
    assert_eq!(args_no_config.with_config(&None), 0);
}

#[test]
fn test_nested_depth_explicit_zero_overrides_config() {
    let config = Config {
        agents: None,
        command_agents: None,
        gitignore: None,
        no_gitignore: None,
        nested_depth: Some(5),
        use_assistant_skills: None,
    };

    let args = NestedDepthArgs {
        nested_depth: Some(0),
    };

    assert_eq!(args.with_config(&Some(config)), 0);
}

#[test]
fn test_status_args_with_config_cli_priority() {
    let config = Config {
        agents: Some(vec!["cursor".to_string()]),
        command_agents: None,
        gitignore: None,
        no_gitignore: None,
        nested_depth: Some(5),
        use_assistant_skills: None,
    };

    let args = StatusArgs {
        agents: Some(vec!["assistant".to_string()]),
        nested_depth_args: NestedDepthArgs {
            nested_depth: Some(2),
        },
    };

    let resolved = args.with_config(&Some(config));

    assert_eq!(resolved.agents, Some(vec!["assistant".to_string()]));
    assert_eq!(resolved.nested_depth, 2);
}

#[test]
fn test_status_args_with_config_uses_config_when_cli_missing() {
    let config = Config {
        agents: Some(vec!["cursor".to_string()]),
        command_agents: None,
        gitignore: None,
        no_gitignore: None,
        nested_depth: Some(3),
        use_assistant_skills: None,
    };

    let args = StatusArgs {
        agents: None,
        nested_depth_args: NestedDepthArgs { nested_depth: None },
    };

    let resolved = args.with_config(&Some(config));

    assert_eq!(resolved.agents, Some(vec!["cursor".to_string()]));
    assert_eq!(resolved.nested_depth, 3);
}

#[test]
fn test_status_args_with_config_defaults() {
    let args = StatusArgs {
        agents: None,
        nested_depth_args: NestedDepthArgs { nested_depth: None },
    };

    let resolved = args.with_config(&None);

    assert_eq!(resolved.agents, None);
    assert_eq!(resolved.nested_depth, 0);
}

#[test]
fn test_generate_args_backward_compat_no_gitignore_config() {
    let config = Config {
        agents: None,
        command_agents: None,
        gitignore: None,
        no_gitignore: Some(true),
        nested_depth: None,
        use_assistant_skills: None,
    };

    let args = GenerateArgs {
        agents: None,
        gitignore: false,
        no_gitignore: false,
        nested_depth: None,
    };

    let resolved = args.with_config(&Some(config));

    assert!(!resolved.gitignore);
}

#[test]
fn test_generate_args_backward_compat_no_gitignore_cli() {
    let config = Config {
        agents: None,
        command_agents: None,
        gitignore: Some(true),
        no_gitignore: None,
        nested_depth: None,
        use_assistant_skills: None,
    };

    let args = GenerateArgs {
        agents: None,
        gitignore: false,
        no_gitignore: true,
        nested_depth: None,
    };

    let resolved = args.with_config(&Some(config));

    assert!(!resolved.gitignore);
}

#[test]
fn test_generate_args_new_gitignore_flag_overrides_old() {
    let config = Config {
        agents: None,
        command_agents: None,
        gitignore: None,
        no_gitignore: None,
        nested_depth: None,
        use_assistant_skills: None,
    };

    let args = GenerateArgs {
        agents: None,
        gitignore: true,
        no_gitignore: true,
        nested_depth: None,
    };

    let resolved = args.with_config(&Some(config));

    assert!(resolved.gitignore);
}

#[test]
fn parse_init_params_success() {
    let raw = vec![
        "service=payments".to_string(),
        " owner = checkout ".to_string(),
    ];

    let parsed = parse_init_params(&raw).unwrap();

    assert_eq!(parsed.get("service"), Some(&"payments".to_string()));
    assert_eq!(parsed.get("owner"), Some(&"checkout".to_string()));
    assert_eq!(parsed.len(), 2);
}

#[test]
fn parse_init_params_duplicates_overwrite() {
    let raw = vec!["service=payments".to_string(), "service=ledger".to_string()];

    let parsed = parse_init_params(&raw).unwrap();

    assert_eq!(parsed.get("service"), Some(&"ledger".to_string()));
    assert_eq!(parsed.len(), 1);
}

#[test]
fn parse_init_params_requires_equals() {
    let raw = vec!["invalid".to_string()];
    let err = parse_init_params(&raw).unwrap_err();
    assert!(err.message().contains("expected key=value"));
}

#[test]
fn parse_init_params_trims_and_validates() {
    let empty_key = vec![" =value".to_string()];
    assert!(parse_init_params(&empty_key)
        .unwrap_err()
        .message()
        .contains("key cannot be empty"));

    let empty_val = vec!["key =  ".to_string()];
    assert!(parse_init_params(&empty_val)
        .unwrap_err()
        .message()
        .contains("value cannot be empty"));

    let empty_raw = vec!["  ".to_string()];
    assert!(parse_init_params(&empty_raw)
        .unwrap_err()
        .message()
        .contains("cannot be empty"));
}

#[test]
fn goose_recipe_args_lists_params_in_order() {
    let params = vec![
        ("file_name".to_string(), "example.md".to_string()),
        ("force".to_string(), "true".to_string()),
    ];
    let args = ai_rules::goose_utils::goose_recipe_args("recipe.yaml", &params);
    assert_eq!(
        args,
        vec![
            "run".to_string(),
            "--recipe".to_string(),
            "recipe.yaml".to_string(),
            "--params".to_string(),
            "file_name=example.md".to_string(),
            "--params".to_string(),
            "force=true".to_string(),
        ]
    );
}
