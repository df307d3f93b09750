use goodcommit::config::Config;
use goodcommit::sanitize::{fallback_message, sanitize_message, trim_quotes};

fn defaults() -> goodcommit::config::EffectiveConfig {
    Config::defaults().resolve().expect("defaults resolve")
}

#[test]
fn pipeline_sanitize_message_falls_back_for_invalid_conventional() {
    let config = Config::defaults().resolve().expect("defaults resolve");
    let fallback = "chore: update files";
    let cleaned = sanitize_message("updated stuff", &config, fallback);
    assert_eq!(cleaned, fallback);
}

#[test]
fn pipeline_sanitize_message_strips_code_fences() {
    let config = Config::defaults().resolve().expect("defaults resolve");
    let fallback = "chore: update files";
    let cleaned = sanitize_message("```feat: add api```", &config, fallback);
    assert_eq!(cleaned, "feat: add api");
}

#[test]
fn tests_sanitize_message_falls_back_for_invalid_conventional() {
    let config = Config::defaults().resolve().expect("defaults resolve");
    let fallback = "chore: update files";
    let cleaned = sanitize_message("updated stuff", &config, fallback);
    assert_eq!(cleaned, fallback);
}

#[test]
fn tests_sanitize_message_strips_code_fences() {
    let config = Config::defaults().resolve().expect("defaults resolve");
    let fallback = "chore: update files";
    let cleaned = sanitize_message("```feat: add api```", &config, fallback);
    assert_eq!(cleaned, "feat: add api");
}

#[test]
fn conventional_message_passes_unchanged() {
    let config = defaults();
    assert!(config.conventional && config.one_line);
    let cleaned = sanitize_message("feat(api): add endpoint", &config, "chore: update files");
    assert_eq!(cleaned, "feat(api): add endpoint");
}

#[test]
fn invalid_message_gets_computed_fallback() {
    let config = defaults();
    let fallback = fallback_message(&[], &config);
    assert_eq!(fallback, "chore: update files");
    assert_eq!(sanitize_message("updated stuff", &config, &fallback), "chore: update files");
}

#[test]
fn sanitize_picks_first_conforming_line() {
    let mut config = defaults();
    config.one_line = false;
    let raw = "Here is a message:\nfix(core): handle empty diff\nmore text";
    assert_eq!(
        sanitize_message(raw, &config, "chore: update files"),
        "fix(core): handle empty diff"
    );
}

#[test]
fn sanitize_keeps_first_line_only() {
    let mut config = defaults();
    config.conventional = false;
    assert_eq!(sanitize_message("  \"add thing\nbody text\"  ", &config, "x"), "add thing");
}

#[test]
fn sanitize_empty_gives_fallback() {
    let config = defaults();
    assert_eq!(sanitize_message("", &config, "chore: update a"), "chore: update a");
    let mut plain = defaults();
    plain.conventional = false;
    assert_eq!(sanitize_message("   ", &plain, "update a"), "update a");
}

#[test]
fn sanitize_twice_is_sanitize_once() {
    let config = defaults();
    let fallback = "chore: update files";
    for raw in [
        "feat: add api",
        "  docs: explain\nmore",
        "nothing useful",
        "intro\nrefactor(x): tidy up",
    ] {
        let once = sanitize_message(raw, &config, fallback);
        let twice = sanitize_message(&once, &config, fallback);
        assert_eq!(once, twice);
    }
}

#[test]
fn trim_quotes_strips_wrapping() {
    assert_eq!(trim_quotes("  `\"feat: x\"`  "), "feat: x");
    assert_eq!(trim_quotes("```fix: y```"), "fix: y");
    assert_eq!(trim_quotes("plain"), "plain");
}

#[test]
fn fallback_lists_first_three_paths() {
    let config = defaults();
    let paths: Vec<String> = ["a.rs", "b.rs", "c.rs", "d.rs"].iter().map(|s| s.to_string()).collect();
    assert_eq!(fallback_message(&paths, &config), "chore: update a.rs, b.rs, c.rs");
    let mut plain = defaults();
    plain.conventional = false;
    assert_eq!(fallback_message(&paths[..1], &plain), "update a.rs");
}

#[test]
fn fallback_subject_is_capped_at_fifty_chars() {
    let config = defaults();
    let long = "x".repeat(80);
    let msg = fallback_message(&[long], &config);
    assert!(msg.starts_with("chore: update xxx"));
    assert_eq!(msg.chars().count(), 7 + 50);
    let mut plain = defaults();
    plain.conventional = false;
    let msg = fallback_message(&["é".repeat(70)], &plain);
    assert_eq!(msg.chars().count(), 50);
}
