use goodcommit::pipeline::IgnoreRule;
use goodcommit::diff::{
    diff_files_to_string, estimate_tokens, filter_diff_files, parse_diff, parse_path_from_diff_header,
    truncate_lines, truncate_to_tokens, DiffFile,
};

fn unit(path: &str, content: &str) -> DiffFile {
    DiffFile {
        path: path.to_string(),
        content: content.to_string(),
        is_binary: false,
        truncated: false,
        additions: 0,
        deletions: 0,
        token_estimate: estimate_tokens(content),
    }
}

#[test]
fn truncate_lines_limits_output() {
    let input = "one\ntwo\nthree\n";
    let (out, truncated) = truncate_lines(input, 2);
    assert_eq!(out, "one\ntwo");
    assert!(truncated);
}

#[test]
fn truncate_lines_no_truncation() {
    let input = "one\ntwo\n";
    let (out, truncated) = truncate_lines(input, 3);
    assert_eq!(out, "one\ntwo");
    assert!(!truncated);
}

#[test]
fn truncate_lines_three_lines_to_two() {
    let (out, truncated) = truncate_lines("a\nb\nc", 2);
    assert_eq!(out, "a\nb");
    assert!(truncated);
}

#[test]
fn truncate_lines_zero_on_text_is_empty_and_cut() {
    let (out, truncated) = truncate_lines("a\nb", 0);
    assert_eq!(out, "");
    assert!(truncated);
}

#[test]
fn truncate_lines_zero_on_blank_is_cut() {
    let (out, truncated) = truncate_lines("  \n ", 0);
    assert_eq!(out, "");
    assert!(truncated);
    let (out, truncated) = truncate_lines("", 0);
    assert_eq!(out, "");
    assert!(!truncated);
}

#[test]
fn truncate_lines_drops_carriage_returns() {
    let (out, truncated) = truncate_lines("one\r\ntwo\r\n", 5);
    assert_eq!(out, "one\ntwo");
    assert!(!truncated);
}

#[test]
fn estimate_tokens_rounds_up() {
    assert_eq!(estimate_tokens(""), 0);
    assert_eq!(estimate_tokens("a"), 1);
    assert_eq!(estimate_tokens("abcd"), 1);
    assert_eq!(estimate_tokens("abcde"), 2);
    assert_eq!(estimate_tokens("ééééé"), 2);
}

#[test]
fn truncate_to_tokens_keeps_fitting_lines() {
    let text = "aaaa\nbbbbbbbb\ncccc";
    assert_eq!(truncate_to_tokens(text, 3), "aaaa\nbbbbbbbb");
    assert_eq!(truncate_to_tokens(text, 2), "aaaa");
    assert_eq!(truncate_to_tokens(text, 0), "");
}

#[test]
fn truncate_to_tokens_stops_at_first_overflow() {
    assert_eq!(truncate_to_tokens("aaaaaaaa\na", 1), "");
}

#[test]
fn diff_files_join_with_blank_lines() {
    let files = vec![unit("a", "one"), unit("b", "two")];
    assert_eq!(diff_files_to_string(&files), "one\n\ntwo");
    assert_eq!(diff_files_to_string(&[]), "");
}

#[test]
fn parse_diff_splits_sections() {
    let diff = "preamble\ndiff --git a/src/a.rs b/src/a.rs\n+x\ndiff --git a/img.png b/img.png\nBinary files a/img.png and b/img.png differ\n";
    let sections = parse_diff(diff);
    assert_eq!(sections.len(), 2);
    assert_eq!(sections[0].path, "src/a.rs");
    assert_eq!(sections[0].content, "diff --git a/src/a.rs b/src/a.rs\n+x\n");
    assert!(!sections[0].is_binary);
    assert_eq!(sections[1].path, "img.png");
    assert!(sections[1].is_binary);
    assert!(parse_diff("no header here\n").is_empty());
}

#[test]
fn header_path_needs_four_words() {
    let chars = |s: &str| s.chars().collect::<Vec<char>>();
    assert_eq!(
        parse_path_from_diff_header(&chars("diff --git a/x b/b/y")),
        Some(chars("y"))
    );
    assert_eq!(parse_path_from_diff_header(&chars("diff --git a/x")), None);
    let sections = parse_diff("diff --git a/x\n");
    assert_eq!(sections[0].path, "unknown");
}

struct IgnoreLocks;

impl IgnoreRule for IgnoreLocks {
    fn is_ignored(&self, path: &str) -> bool {
        path.ends_with(".lock")
    }
}

#[test]
fn filter_drops_binary_and_ignored_sections() {
    let diff = "diff --git a/a.rs b/a.rs\n+x\ndiff --git a/y.lock b/y.lock\n+y\ndiff --git a/i.png b/i.png\nGIT binary patch\n";
    let kept = filter_diff_files(parse_diff(diff), &IgnoreLocks);
    assert_eq!(kept.len(), 1);
    assert_eq!(kept[0].path, "a.rs");
}
