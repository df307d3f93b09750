use goodcommit::cli::{
    build_cli_overrides, has_provider_warning, has_stage_flag, join_message_args,
    stage_mode_conflicts, stage_mode_for_invocation, Cli,
};
use goodcommit::config::{ProviderKind, StageMode};

#[test]
fn cli_stage_mode_for_invocation_matches_aliases() {
    assert_eq!(stage_mode_for_invocation("g."), Some(StageMode::All));
    assert_eq!(
        stage_mode_for_invocation("/opt/homebrew/bin/g."),
        Some(StageMode::All)
    );
    assert_eq!(stage_mode_for_invocation("g"), None);
    assert_eq!(stage_mode_for_invocation("/opt/homebrew/bin/g"), None);
    assert_eq!(stage_mode_for_invocation("goodcommit"), None);
}

#[test]
fn config_stage_mode_for_invocation_matches_aliases() {
    assert_eq!(stage_mode_for_invocation("g."), Some(StageMode::All));
    assert_eq!(
        stage_mode_for_invocation("/opt/homebrew/bin/g."),
        Some(StageMode::All)
    );
    assert_eq!(stage_mode_for_invocation("g"), None);
    assert_eq!(stage_mode_for_invocation("/opt/homebrew/bin/g"), None);
    assert_eq!(stage_mode_for_invocation("goodcommit"), None);
}

#[test]
fn join_message_args_uses_spaces() {
    assert_eq!(join_message_args(&[]), None);
    let words = vec!["fix:".to_string(), "typo".to_string()];
    assert_eq!(join_message_args(&words), Some("fix: typo".to_string()));
}

#[test]
fn stage_flags_are_exclusive() {
    let mut cli = Cli::default();
    assert!(stage_mode_conflicts(&cli).is_ok());
    assert!(!has_stage_flag(&cli));
    cli.stage_all = true;
    assert!(stage_mode_conflicts(&cli).is_ok());
    assert!(has_stage_flag(&cli));
    cli.interactive = true;
    assert_eq!(
        stage_mode_conflicts(&cli),
        Err("stage flags are mutually exclusive".to_string())
    );
}

#[test]
fn overrides_follow_flags() {
    let cli = Cli {
        provider: Some("OPENAI".to_string()),
        model: Some("m".to_string()),
        no_conventional: true,
        conventional: true,
        local: true,
        yes: true,
        no_stage: true,
        max_files: Some(3),
        ..Cli::default()
    };
    let c = build_cli_overrides(&cli).expect("overrides");
    assert_eq!(c.provider, Some(ProviderKind::OpenAi));
    assert_eq!(c.model, Some("m".to_string()));
    assert_eq!(c.conventional, Some(false));
    assert_eq!(c.push, Some(false));
    assert_eq!(c.confirm, Some(false));
    assert_eq!(c.stage_mode, Some(StageMode::Off));
    assert_eq!(c.max_files, Some(3));
    assert_eq!(c.one_line, None);
}

#[test]
fn overrides_reject_unknown_provider() {
    let cli = Cli {
        provider: Some("Acme".to_string()),
        ..Cli::default()
    };
    assert_eq!(
        build_cli_overrides(&cli).err(),
        Some("unknown provider: acme".to_string())
    );
    let cli = Cli {
        openai_mode: Some("batch".to_string()),
        ..Cli::default()
    };
    assert_eq!(
        build_cli_overrides(&cli).err(),
        Some("unknown openai mode: batch".to_string())
    );
}

#[test]
fn provider_warnings_are_detected() {
    assert!(!has_provider_warning(&["diff truncated for a".to_string()]));
    assert!(has_provider_warning(&["provider unavailable, using fallback".to_string()]));
    assert!(has_provider_warning(&[
        "x".to_string(),
        "ai generation failed, using fallback: boom".to_string()
    ]));
}
