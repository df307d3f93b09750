use goodcommit::config::{has_message_line, parse_ignore_file, setup_config, suggested_model};
use goodcommit::config::{
    api_key_from, config_from_env_values, default_patterns, openai_mode_for, parse_bool, Config,
    EnvValues, OpenAiMode, ProviderKind, StageMode,
};

#[test]
fn openai_mode_for_gpt5_forces_responses() {
    assert_eq!(
        openai_mode_for("gpt-5-nano-2025-08-07", OpenAiMode::Auto),
        OpenAiMode::Responses
    );
    assert_eq!(
        openai_mode_for("gpt-5-nano-2025-08-07", OpenAiMode::Chat),
        OpenAiMode::Responses
    );
    assert_eq!(
        openai_mode_for("gpt-5-nano-2025-08-07", OpenAiMode::Responses),
        OpenAiMode::Responses
    );
}

#[test]
fn openai_mode_for_non_gpt5_respects_overrides() {
    assert_eq!(
        openai_mode_for("gpt-4o-mini", OpenAiMode::Chat),
        OpenAiMode::Chat
    );
    assert_eq!(
        openai_mode_for("gpt-4o-mini", OpenAiMode::Responses),
        OpenAiMode::Responses
    );
}

#[test]
fn openai_mode_for_non_gpt5_auto_uses_chat() {
    assert_eq!(
        openai_mode_for("gpt-4o-mini", OpenAiMode::Auto),
        OpenAiMode::Chat
    );
}

#[test]
fn openai_mode_for_ignores_case_and_spaces() {
    assert_eq!(openai_mode_for("  GPT-5-mini ", OpenAiMode::Chat), OpenAiMode::Responses);
}

#[test]
fn config_merge_overrides_defaults() {
    let base = Config::defaults();
    let override_config = Config {
        push: Some(false),
        ..Config::default()
    };

    let merged = base.merge(override_config).resolve().expect("resolve");
    assert!(!merged.push);
}

#[test]
fn config_resolve_forces_responses_for_gpt5_openai() {
    let config = Config {
        provider: Some(ProviderKind::OpenAi),
        model: Some("gpt-5-nano-2025-08-07".to_string()),
        openai_mode: Some(OpenAiMode::Chat),
        ..Config::default()
    };

    let resolved = config.resolve().expect("resolve");
    assert_eq!(resolved.openai_mode, OpenAiMode::Responses);
}

#[test]
fn tests_merge_overrides_defaults() {
    let base = Config::defaults();
    let override_config = Config {
        push: Some(false),
        ..Config::default()
    };

    let merged = base.merge(override_config).resolve().expect("resolve");
    assert!(!merged.push);
}

#[test]
fn tests_resolve_forces_responses_for_gpt5_openai() {
    let config = Config {
        provider: Some(ProviderKind::OpenAi),
        model: Some("gpt-5-nano-2025-08-07".to_string()),
        openai_mode: Some(OpenAiMode::Chat),
        ..Config::default()
    };

    let resolved = config.resolve().expect("resolve");
    assert_eq!(resolved.openai_mode, OpenAiMode::Responses);
}

#[test]
fn resolve_fills_defaults() {
    let resolved = Config::default().resolve().expect("resolve");
    assert_eq!(resolved.provider, ProviderKind::Ollama);
    assert_eq!(resolved.model, "qwen2.5-coder:1.5b");
    assert_eq!(resolved.openai_mode, OpenAiMode::Auto);
    assert_eq!(resolved.max_input_tokens, 6000);
    assert_eq!(resolved.max_output_tokens, 2048);
    assert_eq!(resolved.max_file_lines, 2000);
    assert_eq!(resolved.max_files, 40);
    assert_eq!(resolved.summary_concurrency, 4);
    assert_eq!(resolved.timeout_secs, 20);
    assert_eq!(f32::from_bits(resolved.temperature_bits), 0.2f32);
    assert!(resolved.conventional && resolved.one_line && !resolved.emoji);
}

#[test]
fn to_config_round_trips() {
    let resolved = Config::defaults().resolve().expect("resolve");
    let again = resolved.to_config().resolve().expect("resolve");
    assert_eq!(again.model, resolved.model);
    assert_eq!(again.max_files, resolved.max_files);
    assert_eq!(again.stage_mode, resolved.stage_mode);
}

#[test]
fn parse_names_in_any_case() {
    assert_eq!("OpenAI".parse::<ProviderKind>(), Ok(ProviderKind::OpenAi));
    assert_eq!("ollama".parse::<ProviderKind>(), Ok(ProviderKind::Ollama));
    assert_eq!(
        "Bogus".parse::<ProviderKind>(),
        Err("unknown provider: bogus".to_string())
    );
    assert_eq!("CHAT".parse::<OpenAiMode>(), Ok(OpenAiMode::Chat));
    assert_eq!("none".parse::<StageMode>(), Ok(StageMode::Off));
    assert_eq!(
        "x".parse::<StageMode>(),
        Err("unknown stage mode: x".to_string())
    );
    assert_eq!(ProviderKind::OpenAi.as_str(), "openai");
    assert_eq!(ProviderKind::Ollama.as_str(), "ollama");
}

#[test]
fn parse_bool_words() {
    assert_eq!(parse_bool("YES"), Ok(true));
    assert_eq!(parse_bool("on"), Ok(true));
    assert_eq!(parse_bool("0"), Ok(false));
    assert_eq!(parse_bool("Off"), Ok(false));
    assert_eq!(parse_bool("maybe"), Err("invalid bool: maybe".to_string()));
}

#[test]
fn env_values_become_a_layer() {
    let env = EnvValues {
        provider: Some("OpenAI".to_string()),
        openai_mode: Some("nonsense".to_string()),
        goodcommit_openai_api_key: Some(String::new()),
        openai_api_key: Some("k".to_string()),
        conventional: Some("false".to_string()),
        timeout_secs: Some("+30".to_string()),
        max_files: Some("99999999999".to_string()),
        stage: Some("ALL".to_string()),
        ..EnvValues::default()
    };
    let c = config_from_env_values(env);
    assert_eq!(c.provider, Some(ProviderKind::OpenAi));
    assert_eq!(c.openai_mode, None);
    assert_eq!(c.openai_api_key, Some("k".to_string()));
    assert_eq!(c.conventional, Some(false));
    assert_eq!(c.timeout_secs, Some(30));
    assert_eq!(c.max_files, None);
    assert_eq!(c.stage_mode, Some(StageMode::All));
}

#[test]
fn api_key_prefers_first_non_empty() {
    assert_eq!(api_key_from(Some("a".into()), Some("b".into())), Some("a".to_string()));
    assert_eq!(api_key_from(Some(String::new()), Some("b".into())), Some("b".to_string()));
    assert_eq!(api_key_from(None, Some(String::new())), None);
}

#[test]
fn default_patterns_cover_lock_files() {
    let p = default_patterns();
    assert_eq!(p.len(), 36);
    assert!(p.iter().any(|x| x == "yarn.lock"));
    assert_eq!(p[0], "node_modules");
}

#[test]
fn provider_is_gpt5_detection() {
    assert!(goodcommit::config::is_gpt5_model("gpt-5-nano-2025-08-07"));
    assert!(!goodcommit::config::is_gpt5_model("gpt-4o-mini"));
}

#[test]
fn ignore_file_lines_and_messages() {
    assert_eq!(
        parse_ignore_file("# comment\n\n  dist  \n*.log\n"),
        vec!["dist".to_string(), "*.log".to_string()]
    );
    assert!(!has_message_line("\n# Please enter the commit message\n#\n"));
    assert!(has_message_line("# c\nfix: x\n"));
}

#[test]
fn setup_writes_chosen_values() {
    assert_eq!(suggested_model(ProviderKind::OpenAi), "gpt-5-nano-2025-08-07");
    let c = setup_config(ProviderKind::Ollama, "m".into(), None, false);
    assert_eq!(c.provider, Some(ProviderKind::Ollama));
    assert_eq!(c.push, Some(false));
    assert_eq!(c.max_output_tokens, Some(200));
    assert_eq!(c.stage_mode, Some(StageMode::Auto));
}
