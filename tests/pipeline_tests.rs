use std::collections::HashMap;

use globset::{Glob, GlobSet, GlobSetBuilder};
use goodcommit::config::{default_patterns, Config, EffectiveConfig};
use goodcommit::diff::{estimate_tokens, DiffFile};
use goodcommit::error::{CoreError, CoreResult};
use goodcommit::git::{parse_numstat, GitBackend, GitDiff, GitFileStat};
use goodcommit::pipeline::{
    collect_diff_context, compose_final, deadline_remaining, finish_outcome, plan_generation,
    start_pipeline, timeout_after, DiffContext, Generation, GenerationPlan, IgnoreRule,
    PipelineStart, SummaryOutcome,
};

struct StubGit {
    stats: Vec<GitFileStat>,
    diffs: HashMap<String, String>,
}

impl GitBackend for StubGit {
    fn staged_numstat(&self) -> CoreResult<Vec<GitFileStat>> {
        Ok(self.stats.clone())
    }

    fn staged_diff_for_path(&self, path: &str, _max_bytes: u64) -> CoreResult<GitDiff> {
        let content = self.diffs.get(path).cloned().unwrap_or_default();
        Ok(GitDiff {
            content,
            truncated: false,
        })
    }
}

struct Globs(GlobSet);

impl IgnoreRule for Globs {
    fn is_ignored(&self, path: &str) -> bool {
        self.0.is_match(path)
    }
}

fn default_ignore() -> Globs {
    let mut builder = GlobSetBuilder::new();
    for pattern in default_patterns() {
        builder.add(Glob::new(&pattern).expect("glob"));
    }
    Globs(builder.build().expect("globset"))
}

fn stat(path: &str, additions: u32, deletions: u32) -> GitFileStat {
    GitFileStat {
        path: path.to_string(),
        additions,
        deletions,
        is_binary: false,
    }
}

fn defaults() -> EffectiveConfig {
    Config::defaults().resolve().expect("defaults resolve")
}

fn unit(path: &str, content: &str) -> DiffFile {
    DiffFile {
        path: path.to_string(),
        content: content.to_string(),
        is_binary: false,
        truncated: false,
        additions: 1,
        deletions: 0,
        token_estimate: estimate_tokens(content),
    }
}

#[test]
fn collect_diff_context_skips_empty_diffs_before_limit() {
    let stats = vec![
        GitFileStat {
            path: "file1.txt".to_string(),
            additions: 1,
            deletions: 1,
            is_binary: false,
        },
        GitFileStat {
            path: "file2.txt".to_string(),
            additions: 1,
            deletions: 1,
            is_binary: false,
        },
        GitFileStat {
            path: "file3.txt".to_string(),
            additions: 1,
            deletions: 1,
            is_binary: false,
        },
    ];

    let mut diffs = HashMap::new();
    diffs.insert("file3.txt".to_string(), "diff --git a b".to_string());

    let git = StubGit { stats, diffs };
    let mut config = Config::defaults();
    config.max_files = Some(1);
    let config = config.resolve().expect("config");

    let ignore = default_ignore();

    let context = collect_diff_context(&git, &config, &ignore).expect("context");
    assert_eq!(context.ai_files.len(), 1);
    assert_eq!(context.ai_files[0].path, "file3.txt");
}

#[test]
fn collect_handles_binary_ignored_large_and_limit() {
    let mut bin = stat("img.png", 0, 0);
    bin.is_binary = true;
    let stats = vec![
        bin,
        stat("yarn.lock", 3, 3),
        stat("big.rs", 3000, 5),
        stat("a.rs", 1, 0),
        stat("b.rs", 1, 0),
        stat("c.rs", 1, 0),
    ];
    let mut diffs = HashMap::new();
    diffs.insert("a.rs".to_string(), "+a\n+b\n+c\n".to_string());
    diffs.insert("b.rs".to_string(), "+x\n".to_string());
    diffs.insert("c.rs".to_string(), "+y\n".to_string());
    let git = StubGit { stats, diffs };
    let mut config = Config::defaults();
    config.max_files = Some(2);
    config.max_file_lines = Some(2);
    let config = config.resolve().expect("config");
    let ctx = collect_diff_context(&git, &config, &default_ignore()).expect("context");
    assert_eq!(ctx.all_paths.len(), 6);
    assert_eq!(ctx.ai_files.len(), 2);
    assert_eq!(ctx.ai_files[0].path, "big.rs");
    assert_eq!(
        ctx.ai_files[0].content,
        "file big.rs changed: +3000 -5 (diff omitted due to size)"
    );
    assert!(ctx.ai_files[0].truncated);
    assert_eq!(ctx.ai_files[1].path, "a.rs");
    assert_eq!(ctx.ai_files[1].content, "+a\n+b");
    assert!(ctx.ai_files[1].truncated);
    assert_eq!(
        ctx.warnings,
        vec![
            "diff omitted for big.rs (3005 lines)".to_string(),
            "diff truncated for a.rs".to_string(),
            "only first 2 files used for AI summary".to_string(),
        ]
    );
}

#[test]
fn no_changes_means_no_message() {
    let git = StubGit {
        stats: vec![],
        diffs: HashMap::new(),
    };
    let config = defaults();
    let ctx = collect_diff_context(&git, &config, &default_ignore()).expect("context");
    assert!(matches!(start_pipeline(ctx, &config), PipelineStart::NoChanges));
}

#[test]
fn no_usable_unit_means_fallback() {
    let config = defaults();
    let ctx = DiffContext {
        all_paths: vec!["a.png".to_string()],
        ai_files: vec![],
        warnings: vec![],
    };
    match start_pipeline(ctx, &config) {
        PipelineStart::Done(o) => {
            assert_eq!(o.message, "chore: update a.png");
            assert!(o.used_fallback);
            assert_eq!(o.warnings, vec!["no usable diff for AI; using fallback".to_string()]);
        }
        _ => panic!("expected a settled outcome"),
    }
}

#[test]
fn small_change_set_makes_one_call() {
    let config = defaults();
    let files = vec![unit("a.rs", "+one"), unit("b.rs", "+two")];
    match plan_generation(&files, &config) {
        GenerationPlan::SingleShot(call) => {
            assert_eq!(
                call.user_prompt,
                "Generate the commit message from this diff:\n\n+one\n\n+two"
            );
            assert_eq!(call.request.max_output_tokens, 2048);
            assert!(call.system_prompt.contains("Conventional Commits format"));
        }
        _ => panic!("expected one call"),
    }
}

#[test]
fn large_change_set_fans_out() {
    let mut config = defaults();
    config.max_input_tokens = 3;
    config.summary_concurrency = 0;
    let files = vec![unit("a.rs", "+aaaaaaaaaaaa"), unit("b.rs", "   "), unit("c.rs", "+cc")];
    match plan_generation(&files, &config) {
        GenerationPlan::FanOut { calls, concurrency } => {
            assert_eq!(concurrency, 1);
            assert_eq!(calls.len(), 1);
            assert_eq!(calls[0].path, "c.rs");
            assert_eq!(calls[0].call.user_prompt, "Summarize changes for c.rs:\n\n+cc");
        }
        _ => panic!("expected a fan-out"),
    }
    config.summary_concurrency = 4;
    match plan_generation(&files, &config) {
        GenerationPlan::FanOut { concurrency, .. } => assert_eq!(concurrency, 4),
        _ => panic!("expected a fan-out"),
    }
}

#[test]
fn composing_joins_successful_summaries() {
    let config = defaults();
    let results = vec![
        SummaryOutcome {
            path: "a.rs".to_string(),
            result: Ok(" adds a \n".to_string()),
        },
        SummaryOutcome {
            path: "b.rs".to_string(),
            result: Err(CoreError::Timeout(3)),
        },
        SummaryOutcome {
            path: "c.rs".to_string(),
            result: Ok("fixes c".to_string()),
        },
    ];
    let (call, warnings) = compose_final(&results, &config);
    let call = call.expect("one composing call");
    assert!(call.user_prompt.ends_with("a.rs: adds a\nc.rs: fixes c"));
    assert_eq!(
        warnings,
        vec!["summary failed for b.rs: timeout after 3 seconds".to_string()]
    );
}

#[test]
fn all_failed_summaries_fall_back() {
    let config = defaults();
    let results = vec![SummaryOutcome {
        path: "a.rs".to_string(),
        result: Err(CoreError::Provider("down".to_string())),
    }];
    let (call, warnings) = compose_final(&results, &config);
    assert!(call.is_none());
    let outcome = finish_outcome(Generation::NoSummaries, "chore: update a.rs", warnings, &config);
    assert!(outcome.used_fallback);
    assert_eq!(outcome.message, "chore: update a.rs");
    assert_eq!(outcome.warnings.len(), 2);
}

#[test]
fn finish_sanitizes_generated_text() {
    let config = defaults();
    let o = finish_outcome(
        Generation::Text("`feat: add x`".to_string()),
        "chore: update a",
        vec![],
        &config,
    );
    assert_eq!(o.message, "feat: add x");
    assert!(!o.used_fallback);
    assert!(o.warnings.is_empty());
    let o = finish_outcome(
        Generation::Failed(CoreError::Timeout(0)),
        "chore: update a",
        vec![],
        &config,
    );
    assert!(o.used_fallback);
    assert_eq!(
        o.warnings,
        vec!["ai generation failed, using fallback: timeout after 0 seconds".to_string()]
    );
    let o = finish_outcome(Generation::Unavailable, "chore: update a", vec![], &config);
    assert_eq!(o.warnings, vec!["provider unavailable, using fallback".to_string()]);
}

#[test]
fn deadline_decisions() {
    assert_eq!(deadline_remaining(10, 10), Err(CoreError::Timeout(0)));
    assert_eq!(deadline_remaining(11, 10), Err(CoreError::Timeout(0)));
    assert_eq!(deadline_remaining(1000, 4500), Ok(3500));
    assert_eq!(timeout_after(3500), CoreError::Timeout(3));
}

#[test]
fn numstat_lines_become_stats() {
    let out = "1\t2\tsrc/a.rs\n-\t-\timg.png\n\n3\tx\tweird\tname\nbad line\n10\t0\t  \n";
    let stats = parse_numstat(out);
    assert_eq!(stats.len(), 3);
    assert_eq!(stats[0].path, "src/a.rs");
    assert_eq!((stats[0].additions, stats[0].deletions, stats[0].is_binary), (1, 2, false));
    assert_eq!(stats[1].path, "img.png");
    assert!(stats[1].is_binary);
    assert_eq!(stats[2].path, "weird\tname");
    assert_eq!((stats[2].additions, stats[2].deletions), (3, 0));
}

struct BrokenGit {
    stats: Vec<GitFileStat>,
}

impl GitBackend for BrokenGit {
    fn staged_numstat(&self) -> CoreResult<Vec<GitFileStat>> {
        Ok(self.stats.clone())
    }

    fn staged_diff_for_path(&self, _path: &str, _max_bytes: u64) -> CoreResult<GitDiff> {
        Err(CoreError::Git("cannot read".to_string()))
    }
}

#[test]
fn failed_diff_read_is_passed_on() {
    let git = BrokenGit {
        stats: vec![stat("a.rs", 1, 1)],
    };
    let result = collect_diff_context(&git, &defaults(), &default_ignore());
    assert_eq!(result.err(), Some(CoreError::Git("cannot read".to_string())));
}

#[test]
fn no_read_means_success() {
    let mut bin = stat("a.png", 0, 0);
    bin.is_binary = true;
    let git = BrokenGit {
        stats: vec![bin, stat("huge.rs", 5000, 0)],
    };
    let ctx = collect_diff_context(&git, &defaults(), &default_ignore()).expect("no read made");
    assert_eq!(ctx.all_paths, vec!["a.png".to_string(), "huge.rs".to_string()]);
    assert_eq!(ctx.ai_files.len(), 1);
    assert_eq!(ctx.warnings, vec!["diff omitted for huge.rs (5000 lines)".to_string()]);
}
