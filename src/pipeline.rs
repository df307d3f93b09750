//! The generation pipeline: collecting change units under the budget,
//! planning single-shot or summarised generation, composing the final
//! request and settling the outcome.

use vstd::prelude::*;

use crate::config::EffectiveConfig;
use crate::diff::{
    contents, diff_files_to_string, estimate_tokens, token_estimate, truncate_lines,
    truncate_to_tokens, truncated_lines, truncated_to_tokens, DiffFile,
};
use crate::error::{error_text, CoreError, CoreResult};
use crate::git::{GitBackend, GitDiff, GitFileStat};
use crate::prompt::{
    commit_system_prompt, commit_system_text, commit_user_prompt, commit_user_text, lang_view,
    summary_system_prompt, summary_system_text, summary_user_prompt, summary_user_text,
};
use crate::sanitize::{fallback_message, fallback_text, path_views, sanitize_message, sanitized};
use crate::text::{
    chars_of, decimal, join, lemma_join_step, push_all, push_decimal, string_of, trim, trimmed,
};

verus! {

/// The path-ignore predicate the collector consults.
pub trait IgnoreRule {
    fn is_ignored(&self, path: &str) -> bool;
}

/// What the collector hands on: every staged path, the units that go to
/// the backend, and the warnings gathered on the way.
#[derive(Debug)]
pub struct DiffContext {
    pub all_paths: Vec<String>,
    pub ai_files: Vec<DiffFile>,
    pub warnings: Vec<String>,
}

/// A unit is sound when its estimate is that of its content, it is not
/// binary and its content is not blank.
pub open spec fn sound_unit(f: DiffFile) -> bool {
    &&& f.token_estimate == token_estimate(f.content@)
    &&& !f.is_binary
    &&& trim(f.content@).len() > 0
}

pub open spec fn path_seq(stats: Seq<GitFileStat>) -> Seq<Seq<char>> {
    stats.map_values(|s: GitFileStat| s.path@)
}

pub open spec fn string_views(v: Seq<String>) -> Seq<Seq<char>> {
    v.map_values(|s: String| s@)
}

pub open spec fn placeholder_text(path: Seq<char>, additions: u32, deletions: u32) -> Seq<char> {
    "file "@ + path + " changed: +"@ + decimal(additions as nat) + " -"@ + decimal(
        deletions as nat,
    ) + " (diff omitted due to size)"@
}

/// The changed-line count of a stat, saturating at `u32::MAX`.
pub open spec fn change_lines(additions: u32, deletions: u32) -> u32 {
    if additions + deletions > u32::MAX {
        u32::MAX
    } else {
        (additions + deletions) as u32
    }
}

/// The unit that stands for a file whose diff is too large to send, and
/// the warning that records it.
pub fn placeholder_unit(path: &String, additions: u32, deletions: u32) -> (r: (DiffFile, String))
    ensures
        r.0.path@ == path@,
        r.0.content@ == placeholder_text(path@, additions, deletions),
        r.0.token_estimate == token_estimate(r.0.content@),
        !r.0.is_binary,
        r.0.truncated,
        r.0.additions == additions,
        r.0.deletions == deletions,
        r.1@ == "diff omitted for "@ + path@ + " ("@ + decimal(
            change_lines(additions, deletions) as nat,
        ) + " lines)"@,
{
    let p = chars_of(path.as_str());
    let mut content = chars_of("file ");
    push_all(&mut content, &p);
    push_all(&mut content, &chars_of(" changed: +"));
    push_decimal(&mut content, additions as u64);
    push_all(&mut content, &chars_of(" -"));
    push_decimal(&mut content, deletions as u64);
    push_all(&mut content, &chars_of(" (diff omitted due to size)"));
    let lines = additions.saturating_add(deletions);
    let mut warning = chars_of("diff omitted for ");
    push_all(&mut warning, &p);
    push_all(&mut warning, &chars_of(" ("));
    push_decimal(&mut warning, lines as u64);
    push_all(&mut warning, &chars_of(" lines)"));
    let text = string_of(&content);
    let token_estimate = estimate_tokens(text.as_str());
    let unit = DiffFile {
        path: path.clone(),
        content: text,
        is_binary: false,
        truncated: true,
        additions,
        deletions,
        token_estimate,
    };
    (unit, string_of(&warning))
}

/// The unit made from a fetched diff: cut to `max_lines` lines, flagged
/// when either the fetch or the cut shortened it, and none at all when
/// nothing but whitespace is left. A shortened unit comes with a warning.
pub fn unit_from_diff(
    path: &String,
    additions: u32,
    deletions: u32,
    content: &String,
    fetch_truncated: bool,
    max_lines: u32,
) -> (r: Option<(DiffFile, Option<String>)>)
    ensures
        ({
            let cut = truncated_lines(content@, max_lines as nat);
            match r {
                None => trim(cut.0).len() == 0,
                Some((u, w)) => {
                    &&& trim(cut.0).len() > 0
                    &&& u.path@ == path@
                    &&& u.content@ == cut.0
                    &&& u.truncated == (fetch_truncated || cut.1)
                    &&& !u.is_binary
                    &&& u.additions == additions
                    &&& u.deletions == deletions
                    &&& u.token_estimate == token_estimate(u.content@)
                    &&& (w is Some <==> u.truncated)
                    &&& (w matches Some(m) ==> m@ == "diff truncated for "@ + path@)
                }
            }
        }),
{
    let (text, cut) = truncate_lines(content.as_str(), max_lines);
    let truncated = fetch_truncated || cut;
    if trimmed(&chars_of(text.as_str())).len() == 0 {
        return None;
    }
    let warning = if truncated {
        let mut w = String::from_str("diff truncated for ");
        w.append(path.as_str());
        Some(w)
    } else {
        None
    };
    let token_estimate = estimate_tokens(text.as_str());
    Some(
        (
            DiffFile {
                path: path.clone(),
                content: text,
                is_binary: false,
                truncated,
                additions,
                deletions,
                token_estimate,
            },
            warning,
        ),
    )
}

/// What the collector does with one staged path.
#[derive(Debug, Clone, Copy, PartialEq, Eq, Structural)]
pub enum Route {
    /// Binary or ignored: nothing is sent.
    Skip,
    /// Too many changed lines: a placeholder is sent instead of the diff.
    Placeholder,
    /// The diff is fetched and sent.
    Fetch,
}

pub open spec fn route_of(is_binary: bool, ignored: bool, lines: u32, max_file_lines: u32) -> Route {
    if is_binary || ignored {
        Route::Skip
    } else if lines > max_file_lines {
        Route::Placeholder
    } else {
        Route::Fetch
    }
}

/// Routes one path: binary and ignored paths are skipped, paths with more
/// changed lines than `max_file_lines` get a placeholder, others are
/// fetched.
pub fn route_for(stat: &GitFileStat, ignored: bool, max_file_lines: u32) -> (r: Route)
    ensures
        r == route_of(
            stat.is_binary,
            ignored,
            change_lines(stat.additions, stat.deletions),
            max_file_lines,
        ),
{
    if stat.is_binary || ignored {
        Route::Skip
    } else if stat.additions.saturating_add(stat.deletions) > max_file_lines {
        Route::Placeholder
    } else {
        Route::Fetch
    }
}

fn limit_warning(max_files: usize) -> (r: String)
    ensures
        r@ == "only first "@ + decimal(max_files as nat) + " files used for AI summary"@,
{
    let mut w = chars_of("only first ");
    push_decimal(&mut w, max_files as u64);
    push_all(&mut w, &chars_of(" files used for AI summary"));
    string_of(&w)
}

/// What a unit holds: path, content, binary and truncated flags, line
/// counts and token estimate.
pub open spec fn unit_view(u: DiffFile) -> (Seq<char>, Seq<char>, bool, bool, u32, u32, nat) {
    (u.path@, u.content@, u.is_binary, u.truncated, u.additions, u.deletions, u.token_estimate as nat)
}

pub open spec fn unit_views(us: Seq<DiffFile>) -> Seq<(Seq<char>, Seq<char>, bool, bool, u32, u32, nat)> {
    us.map_values(|u: DiffFile| unit_view(u))
}

pub open spec fn limit_text(max_files: usize) -> Seq<char> {
    "only first "@ + decimal(max_files as nat) + " files used for AI summary"@
}

pub open spec fn omitted_text(s: GitFileStat) -> Seq<char> {
    "diff omitted for "@ + s.path@ + " ("@ + decimal(change_lines(s.additions, s.deletions) as nat)
        + " lines)"@
}

/// A stat whose diff the collector would fetch if it got to it (binary
/// paths and paths with too many changed lines are never fetched).
pub open spec fn fetchable(s: GitFileStat, max_file_lines: u32) -> bool {
    !s.is_binary && change_lines(s.additions, s.deletions) <= max_file_lines
}

/// Where the collector stands after some of the stats.
pub enum Collecting {
    /// Still taking units: those made so far and the warnings.
    Running(Seq<(Seq<char>, Seq<char>, bool, bool, u32, u32, nat)>, Seq<Seq<char>>),
    /// Stopped at the unit limit, its warning added last.
    Done(Seq<(Seq<char>, Seq<char>, bool, bool, u32, u32, nat)>, Seq<Seq<char>>),
    /// A diff could not be read.
    Failed(CoreError),
}

/// One stat processed: `ignored` is what the ignore rule said of its path
/// and `fetched` what reading its diff gave; each is looked at only when
/// the collector asks for it.
pub open spec fn collect_step(
    st: Collecting,
    s: GitFileStat,
    ignored: bool,
    fetched: CoreResult<GitDiff>,
    max_files: usize,
    max_file_lines: u32,
) -> Collecting {
    match st {
        Collecting::Running(u, w) => if u.len() >= max_files {
            Collecting::Done(u, w.push(limit_text(max_files)))
        } else {
            match route_of(
                s.is_binary,
                ignored,
                change_lines(s.additions, s.deletions),
                max_file_lines,
            ) {
                Route::Skip => Collecting::Running(u, w),
                Route::Placeholder => {
                    let c = placeholder_text(s.path@, s.additions, s.deletions);
                    Collecting::Running(
                        u.push((s.path@, c, false, true, s.additions, s.deletions, token_estimate(c))),
                        w.push(omitted_text(s)),
                    )
                },
                Route::Fetch => match fetched {
                    Err(e) => Collecting::Failed(e),
                    Ok(d) => {
                        let cut = truncated_lines(d.content@, max_file_lines as nat);
                        let t = d.truncated || cut.1;
                        if trim(cut.0).len() == 0 {
                            Collecting::Running(u, w)
                        } else {
                            Collecting::Running(
                                u.push(
                                    (
                                        s.path@,
                                        cut.0,
                                        false,
                                        t,
                                        s.additions,
                                        s.deletions,
                                        token_estimate(cut.0),
                                    ),
                                ),
                                if t {
                                    w.push("diff truncated for "@ + s.path@)
                                } else {
                                    w
                                },
                            )
                        }
                    },
                },
            }
        },
        _ => st,
    }
}

/// The collector after the first `k` stats, in order.
pub open spec fn collect_run(
    stats: Seq<GitFileStat>,
    ignored: Seq<bool>,
    fetched: Seq<CoreResult<GitDiff>>,
    k: nat,
    max_files: usize,
    max_file_lines: u32,
) -> Collecting
    decreases k,
{
    if k == 0 {
        Collecting::Running(Seq::empty(), Seq::empty())
    } else {
        collect_step(
            collect_run(stats, ignored, fetched, (k - 1) as nat, max_files, max_file_lines),
            stats[k - 1],
            ignored[k - 1],
            fetched[k - 1],
            max_files,
            max_file_lines,
        )
    }
}

/// `r` is what the collector gives over all stats, given these answers
/// of the ignore rule and of the diff reads.
pub open spec fn explains(
    stats: Seq<GitFileStat>,
    ignored: Seq<bool>,
    fetched: Seq<CoreResult<GitDiff>>,
    max_files: usize,
    max_file_lines: u32,
    r: CoreResult<DiffContext>,
) -> bool {
    &&& ignored.len() == stats.len()
    &&& fetched.len() == stats.len()
    &&& match collect_run(stats, ignored, fetched, stats.len(), max_files, max_file_lines) {
        Collecting::Failed(e) => r == Err::<DiffContext, CoreError>(e),
        Collecting::Running(u, w) => r matches Ok(ctx) && unit_views(ctx.ai_files@) == u
            && string_views(ctx.warnings@) == w,
        Collecting::Done(u, w) => r matches Ok(ctx) && unit_views(ctx.ai_files@) == u
            && string_views(ctx.warnings@) == w,
    }
}

/// The collector only looks at the answers for the stats it has passed.
proof fn lemma_run_agree(
    stats: Seq<GitFileStat>,
    ig1: Seq<bool>,
    fe1: Seq<CoreResult<GitDiff>>,
    ig2: Seq<bool>,
    fe2: Seq<CoreResult<GitDiff>>,
    k: nat,
    max_files: usize,
    max_file_lines: u32,
)
    requires
        forall|i: int| 0 <= i < k ==> ig1[i] == ig2[i] && fe1[i] == fe2[i],
    ensures
        collect_run(stats, ig1, fe1, k, max_files, max_file_lines) == collect_run(
            stats,
            ig2,
            fe2,
            k,
            max_files,
            max_file_lines,
        ),
    decreases k,
{
    if k > 0 {
        lemma_run_agree(stats, ig1, fe1, ig2, fe2, (k - 1) as nat, max_files, max_file_lines);
    }
}

/// Once stopped, the collector stays where it is.
proof fn lemma_run_stays(
    stats: Seq<GitFileStat>,
    ig: Seq<bool>,
    fe: Seq<CoreResult<GitDiff>>,
    k: nat,
    m: nat,
    max_files: usize,
    max_file_lines: u32,
)
    requires
        k <= m,
        !(collect_run(stats, ig, fe, k, max_files, max_file_lines) is Running),
    ensures
        collect_run(stats, ig, fe, m, max_files, max_file_lines) == collect_run(
            stats,
            ig,
            fe,
            k,
            max_files,
            max_file_lines,
        ),
    decreases m,
{
    if m > k {
        lemma_run_stays(stats, ig, fe, k, (m - 1) as nat, max_files, max_file_lines);
    }
}

/// The collector fails only at a stat whose diff it reads.
proof fn lemma_failure_needs_read(
    stats: Seq<GitFileStat>,
    ig: Seq<bool>,
    fe: Seq<CoreResult<GitDiff>>,
    k: nat,
    max_files: usize,
    max_file_lines: u32,
)
    requires
        k <= stats.len(),
        collect_run(stats, ig, fe, k, max_files, max_file_lines) is Failed,
    ensures
        exists|i: int| 0 <= i < k && #[trigger] fetchable(stats[i], max_file_lines),
    decreases k,
{
    if k > 0 {
        let prev = collect_run(stats, ig, fe, (k - 1) as nat, max_files, max_file_lines);
        if prev is Failed {
            lemma_failure_needs_read(stats, ig, fe, (k - 1) as nat, max_files, max_file_lines);
        } else {
            assert(fetchable(stats[k - 1], max_file_lines));
        }
    }
}

/// Turns the staged statistics into change units, stat by stat in order
/// (see `collect_step`). Every path is kept in `all_paths`; binary and
/// ignored paths send nothing; a path with more changed lines than allowed
/// sends its placeholder and is not read; the others send their diff, cut
/// to `max_file_lines` lines, unless it is blank, and then do not count.
/// Once `max_files` units are made and a stat remains, one warning ends
/// the collection. The only failure is a diff that cannot be read, passed
/// on as it came; with no such read, collection succeeds.
pub fn collect_from_stats<G: GitBackend, I: IgnoreRule>(
    git: &G,
    stats: Vec<GitFileStat>,
    config: &EffectiveConfig,
    ignore: &I,
) -> (r: CoreResult<DiffContext>)
    ensures
        exists|ignored: Seq<bool>, fetched: Seq<CoreResult<GitDiff>>|
            #[trigger] explains(
                stats@,
                ignored,
                fetched,
                config.max_files,
                config.max_file_lines,
                r,
            ),
        r is Err ==> exists|i: int|
            0 <= i < stats@.len() && #[trigger] fetchable(stats@[i], config.max_file_lines),
        r matches Ok(ctx) ==> {
            &&& string_views(ctx.all_paths@) == path_seq(stats@)
            &&& ctx.ai_files.len() <= config.max_files
            &&& forall|i: int| 0 <= i < ctx.ai_files.len() ==> sound_unit(#[trigger] ctx.ai_files[i])
        },
{
    let mut all_paths: Vec<String> = Vec::new();
    let mut i: usize = 0;
    while i < stats.len()
        invariant
            i <= stats.len(),
            string_views(all_paths@) == path_seq(stats@.take(i as int)),
        decreases stats.len() - i,
    {
        let ghost before = all_paths@;
        all_paths.push(stats[i].path.clone());
        assert(string_views(all_paths@) =~= string_views(before).push(stats@[i as int].path@));
        assert(stats@.take(i + 1).drop_last() =~= stats@.take(i as int));
        assert(path_seq(stats@.take(i + 1)) =~= path_seq(stats@.take(i as int)).push(
            stats@[i as int].path@,
        ));
        i += 1;
    }
    assert(stats@.take(i as int) =~= stats@);
    let n = stats.len();
    let ghost mf = config.max_files;
    let ghost ml = config.max_file_lines;
    let ghost mut ign: Seq<bool> = Seq::new(n as nat, |j: int| false);
    let ghost mut fet: Seq<CoreResult<GitDiff>> = Seq::new(
        n as nat,
        |j: int| Err::<GitDiff, CoreError>(CoreError::Cancelled),
    );
    let mut warnings: Vec<String> = Vec::new();
    let mut ai_files: Vec<DiffFile> = Vec::new();
    let mut failure: Option<CoreError> = None;
    let mut done = false;
    let mut stop = false;
    let mut k: usize = 0;
    assert(unit_views(ai_files@) =~= Seq::empty());
    assert(string_views(warnings@) =~= Seq::empty());
    while k < n && !stop
        invariant
            k <= n == stats.len(),
            mf == config.max_files,
            ml == config.max_file_lines,
            ign.len() == n,
            fet.len() == n,
            string_views(all_paths@) == path_seq(stats@),
            ai_files.len() <= config.max_files,
            forall|j: int| 0 <= j < ai_files.len() ==> sound_unit(#[trigger] ai_files[j]),
            stop <==> (done || failure is Some),
            match failure {
                Some(e) => collect_run(stats@, ign, fet, k as nat, mf, ml) == Collecting::Failed(e),
                None => collect_run(stats@, ign, fet, k as nat, mf, ml) == (if done {
                    Collecting::Done(unit_views(ai_files@), string_views(warnings@))
                } else {
                    Collecting::Running(unit_views(ai_files@), string_views(warnings@))
                }),
            },
        decreases n - k,
    {
        let ghost ig0 = ign;
        let ghost fe0 = fet;
        let ghost u0 = unit_views(ai_files@);
        let ghost w0 = string_views(warnings@);
        if ai_files.len() >= config.max_files {
            let w = limit_warning(config.max_files);
            warnings.push(w);
            assert(string_views(warnings@) =~= w0.push(limit_text(mf)));
            done = true;
            stop = true;
        } else {
            let stat = &stats[k];
            let ignored = !stat.is_binary && ignore.is_ignored(stat.path.as_str());
            proof {
                ign = ign.update(k as int, ignored);
            }
            let route = route_for(stat, ignored, config.max_file_lines);
            if route == Route::Placeholder {
                let (unit, warning) = placeholder_unit(&stat.path, stat.additions, stat.deletions);
                proof {
                    lemma_placeholder_not_blank(stat.path@, stat.additions, stat.deletions);
                }
                warnings.push(warning);
                ai_files.push(unit);
                assert(unit_views(ai_files@) =~= u0.push(unit_view(unit)));
                assert(string_views(warnings@) =~= w0.push(omitted_text(stats@[k as int])));
            } else if route == Route::Fetch {
                let res = git.staged_diff_for_path(stat.path.as_str(), config.max_file_bytes);
                proof {
                    fet = fet.update(k as int, res);
                }
                match res {
                    Err(e) => {
                        failure = Some(e);
                        stop = true;
                    },
                    Ok(diff) => {
                        match unit_from_diff(
                            &stat.path,
                            stat.additions,
                            stat.deletions,
                            &diff.content,
                            diff.truncated,
                            config.max_file_lines,
                        ) {
                            Some((unit, warning)) => {
                                let ghost wv = warning;
                                match warning {
                                    Some(w) => warnings.push(w),
                                    None => {},
                                }
                                ai_files.push(unit);
                                assert(unit_views(ai_files@) =~= u0.push(unit_view(unit)));
                                proof {
                                    if wv is Some {
                                        assert(string_views(warnings@) =~= w0.push(
                                            wv->Some_0@,
                                        ));
                                    } else {
                                        assert(string_views(warnings@) =~= w0);
                                    }
                                }
                            },
                            None => {},
                        }
                    },
                }
            }
        }
        proof {
            lemma_run_agree(stats@, ig0, fe0, ign, fet, k as nat, mf, ml);
        }
        k += 1;
    }
    proof {
        if stop {
            lemma_run_stays(stats@, ign, fet, k as nat, n as nat, mf, ml);
        }
    }
    let r = match failure {
        Some(e) => Err(e),
        None => Ok(DiffContext { all_paths, ai_files, warnings }),
    };
    proof {
        assert(explains(stats@, ign, fet, mf, ml, r));
        if r is Err {
            lemma_failure_needs_read(stats@, ign, fet, n as nat, mf, ml);
        }
    }
    r
}

/// A placeholder always has visible text.
proof fn lemma_placeholder_not_blank(path: Seq<char>, additions: u32, deletions: u32)
    ensures
        trim(placeholder_text(path, additions, deletions)).len() > 0,
{
    let t = placeholder_text(path, additions, deletions);
    reveal_strlit("file ");
    assert(t[0] == 'f');
    crate::text::lemma_trim_keeps_visible(t, 0);
}

/// No staged change means no message: collecting over an empty list of
/// statistics succeeds with no path, no unit and no warning, and a
/// context without paths opens as `NoChanges` (see `start_pipeline`).
pub proof fn lemma_no_changes(
    stats: Seq<GitFileStat>,
    max_files: usize,
    max_file_lines: u32,
    r: CoreResult<DiffContext>,
)
    requires
        stats.len() == 0,
        collected(stats, max_files, max_file_lines, r),
    ensures
        r matches Ok(ctx) && ctx.all_paths.len() == 0 && ctx.ai_files.len() == 0
            && ctx.warnings.len() == 0,
{
    let (ig, fe) = choose|ig: Seq<bool>, fe: Seq<CoreResult<GitDiff>>|
        #[trigger] explains(stats, ig, fe, max_files, max_file_lines, r);
    assert(collect_run(stats, ig, fe, 0, max_files, max_file_lines) == Collecting::Running(
        Seq::empty(),
        Seq::empty(),
    ));
    let ctx = r->Ok_0;
    assert(string_views(ctx.all_paths@).len() == ctx.all_paths@.len());
    assert(unit_views(ctx.ai_files@).len() == ctx.ai_files@.len());
    assert(string_views(ctx.warnings@).len() == ctx.warnings@.len());
}

/// What collecting over `stats` may give: what `collect_from_stats`
/// promises.
pub open spec fn collected(
    stats: Seq<GitFileStat>,
    max_files: usize,
    max_file_lines: u32,
    r: CoreResult<DiffContext>,
) -> bool {
    &&& exists|ignored: Seq<bool>, fetched: Seq<CoreResult<GitDiff>>|
        #[trigger] explains(stats, ignored, fetched, max_files, max_file_lines, r)
    &&& (r is Err ==> exists|i: int| 0 <= i < stats.len() && #[trigger] fetchable(stats[i], max_file_lines))
    &&& (r matches Ok(ctx) ==> string_views(ctx.all_paths@) == path_seq(stats))
}

/// The statistics read: a failed read is passed on as it came; otherwise
/// the collection over what was read.
pub open spec fn read_and_collected(
    listed: CoreResult<Vec<GitFileStat>>,
    max_files: usize,
    max_file_lines: u32,
    r: CoreResult<DiffContext>,
) -> bool {
    match listed {
        Err(e) => r == Err::<DiffContext, CoreError>(e),
        Ok(stats) => collected(stats@, max_files, max_file_lines, r),
    }
}

/// Reads the staged statistics and turns them into change units; errors
/// come only from the reads of git, unchanged.
pub fn collect_diff_context<G: GitBackend, I: IgnoreRule>(
    git: &G,
    config: &EffectiveConfig,
    ignore: &I,
) -> (r: CoreResult<DiffContext>)
    ensures
        exists|listed: CoreResult<Vec<GitFileStat>>|
            #[trigger] read_and_collected(listed, config.max_files, config.max_file_lines, r),
        r matches Ok(ctx) ==> {
            &&& ctx.ai_files.len() <= config.max_files
            &&& forall|i: int| 0 <= i < ctx.ai_files.len() ==> sound_unit(#[trigger] ctx.ai_files[i])
        },
{
    let listed = git.staged_numstat();
    let ghost listed_view = listed;
    let stats = match listed {
        Ok(s) => s,
        Err(e) => {
            assert(read_and_collected(listed_view, config.max_files, config.max_file_lines, Err(e)));
            return Err(e);
        },
    };
    let r = collect_from_stats(git, stats, config, ignore);
    assert(read_and_collected(listed_view, config.max_files, config.max_file_lines, r));
    r
}

/// Sampling parameters of one backend call; the temperature is the bit
/// pattern of an `f32`.
#[derive(Debug, Clone, Copy, PartialEq, Eq, Structural)]
pub struct ProviderRequest {
    pub max_output_tokens: u32,
    pub temperature_bits: u32,
}

/// One backend call: its prompts and sampling parameters.
#[derive(Debug, Clone)]
pub struct BackendCall {
    pub system_prompt: String,
    pub user_prompt: String,
    pub request: ProviderRequest,
}

/// The per-file summary call of a fan-out.
#[derive(Debug, Clone)]
pub struct SummaryCall {
    pub path: String,
    pub call: BackendCall,
}

/// How the message is to be generated.
#[derive(Debug)]
pub enum GenerationPlan {
    /// Everything fits: one call over all units.
    SingleShot(BackendCall),
    /// Too large: one summary call per unit, at most `concurrency` in
    /// flight, then one composing call.
    FanOut { calls: Vec<SummaryCall>, concurrency: usize },
}

/// The sum of the units' token estimates.
pub open spec fn sum_tokens(files: Seq<DiffFile>) -> int
    decreases files.len(),
{
    if files.len() == 0 {
        0
    } else {
        sum_tokens(files.drop_last()) + files.last().token_estimate
    }
}

pub open spec fn min_int(a: int, b: int) -> int {
    if a < b {
        a
    } else {
        b
    }
}

/// The most tokens of one unit a summary call sees.
pub open spec fn per_file_tokens(max_input_tokens: u32) -> int {
    min_int(max_input_tokens as int, 2000)
}

/// The (path, user prompt) of each summary call: units whose cut content
/// is blank are skipped.
pub open spec fn summary_prompts(files: Seq<DiffFile>, budget: nat) -> Seq<(Seq<char>, Seq<char>)>
    decreases files.len(),
{
    if files.len() == 0 {
        Seq::empty()
    } else {
        let rest = summary_prompts(files.drop_last(), budget);
        let f = files.last();
        let t = truncated_to_tokens(f.content@, budget);
        if trim(t).len() == 0 {
            rest
        } else {
            rest.push((f.path@, summary_user_text(f.path@, t)))
        }
    }
}

pub open spec fn summary_call_view(c: SummaryCall) -> (Seq<char>, Seq<char>) {
    (c.path@, c.call.user_prompt@)
}

pub open spec fn request_of(config: EffectiveConfig) -> ProviderRequest {
    ProviderRequest {
        max_output_tokens: config.max_output_tokens,
        temperature_bits: config.temperature_bits,
    }
}

/// The commit-message call over `diff`.
pub open spec fn is_commit_call(c: BackendCall, diff: Seq<char>, config: EffectiveConfig) -> bool {
    &&& c.system_prompt@ == commit_system_text(config.conventional, config.one_line, config.emoji)
    &&& c.user_prompt@ == commit_user_text(diff, lang_view(config.lang))
    &&& c.request == request_of(config)
}

fn commit_call(diff: &str, config: &EffectiveConfig) -> (r: BackendCall)
    ensures
        is_commit_call(r, diff@, *config),
{
    BackendCall {
        system_prompt: commit_system_prompt(config),
        user_prompt: commit_user_prompt(diff, config),
        request: ProviderRequest {
            max_output_tokens: config.max_output_tokens,
            temperature_bits: config.temperature_bits,
        },
    }
}

/// Whether the units' estimates sum to at most `limit`.
fn tokens_within(files: &Vec<DiffFile>, limit: usize) -> (r: bool)
    ensures
        r == (sum_tokens(files@) <= limit),
{
    let mut total: usize = 0;
    let mut i: usize = 0;
    while i < files.len()
        invariant
            i <= files.len(),
            total == sum_tokens(files@.take(i as int)),
            total <= limit,
        decreases files.len() - i,
    {
        assert(files@.take(i + 1).drop_last() =~= files@.take(i as int));
        let t = files[i].token_estimate;
        if t > limit - total {
            proof {
                lemma_sum_tokens_prefix(files@, i + 1);
            }
            return false;
        }
        total = total + t;
        i += 1;
    }
    assert(files@.take(i as int) =~= files@);
    true
}

/// Estimates are never negative, so a prefix never sums to more.
pub proof fn lemma_sum_tokens_prefix(files: Seq<DiffFile>, k: int)
    requires
        0 <= k <= files.len(),
    ensures
        sum_tokens(files.take(k)) <= sum_tokens(files),
    decreases files.len() - k,
{
    if k < files.len() {
        lemma_sum_tokens_prefix(files, k + 1);
        assert(files.take(k + 1).drop_last() =~= files.take(k));
    } else {
        assert(files.take(k) =~= files);
    }
}

/// Decides between one call and summarised generation. When the units'
/// estimates sum to at most `max_input_tokens` there is exactly one call,
/// over all contents separated by blank lines. Otherwise each unit, cut to at
/// most `min(max_input_tokens, 2000)` tokens, gets one summary call unless
/// the cut leaves it blank, and at most `max(summary_concurrency, 1)` of
/// them run at once.
pub fn plan_generation(files: &Vec<DiffFile>, config: &EffectiveConfig) -> (r: GenerationPlan)
    ensures
        sum_tokens(files@) <= config.max_input_tokens ==> (r matches GenerationPlan::SingleShot(c)
            && is_commit_call(c, join(contents(files@), seq!['\n', '\n']), *config)),
        sum_tokens(files@) > config.max_input_tokens ==> (r matches GenerationPlan::FanOut {
            calls,
            concurrency,
        } && calls@.map_values(|c: SummaryCall| summary_call_view(c)) == summary_prompts(
            files@,
            per_file_tokens(config.max_input_tokens) as nat,
        ) && calls.len() <= files.len() && (forall|i: int|
            0 <= i < calls.len() ==> (#[trigger] calls[i]).call.system_prompt@
                == summary_system_text() && calls[i].call.request == request_of(*config))
            && concurrency == (if config.summary_concurrency == 0 {
            1
        } else {
            config.summary_concurrency
        })),
{
    if tokens_within(files, config.max_input_tokens as usize) {
        let diff_text = diff_files_to_string(files.as_slice());
        return GenerationPlan::SingleShot(commit_call(diff_text.as_str(), config));
    }
    let budget: usize = if (config.max_input_tokens as usize) < 2000 {
        config.max_input_tokens as usize
    } else {
        2000
    };
    let ghost per = per_file_tokens(config.max_input_tokens) as nat;
    let mut calls: Vec<SummaryCall> = Vec::new();
    let mut i: usize = 0;
    while i < files.len()
        invariant
            i <= files.len(),
            budget == per,
            calls.len() <= i,
            calls@.map_values(|c: SummaryCall| summary_call_view(c)) == summary_prompts(
                files@.take(i as int),
                per,
            ),
            forall|j: int|
                0 <= j < calls.len() ==> (#[trigger] calls[j]).call.system_prompt@
                    == summary_system_text() && calls[j].call.request == request_of(*config),
        decreases files.len() - i,
    {
        assert(files@.take(i + 1).drop_last() =~= files@.take(i as int));
        let file = &files[i];
        let cut = truncate_to_tokens(file.content.as_str(), budget);
        if trimmed(&chars_of(cut.as_str())).len() > 0 {
            let ghost before = calls@;
            let call = BackendCall {
                system_prompt: summary_system_prompt(),
                user_prompt: summary_user_prompt(file.path.as_str(), cut.as_str()),
                request: ProviderRequest {
                    max_output_tokens: config.max_output_tokens,
                    temperature_bits: config.temperature_bits,
                },
            };
            calls.push(SummaryCall { path: file.path.clone(), call });
            assert(calls@.map_values(|c: SummaryCall| summary_call_view(c)) =~= before.map_values(
                |c: SummaryCall| summary_call_view(c),
            ).push(summary_call_view(calls@.last())));
        }
        i += 1;
    }
    assert(files@.take(i as int) =~= files@);
    let concurrency = if config.summary_concurrency == 0 {
        1
    } else {
        config.summary_concurrency
    };
    GenerationPlan::FanOut { calls, concurrency }
}


/// How one summary call ended.
#[derive(Debug)]
pub struct SummaryOutcome {
    pub path: String,
    pub result: CoreResult<String>,
}

/// "path: summary" for each summary that came back, in the given order.
pub open spec fn summary_lines(rs: Seq<SummaryOutcome>) -> Seq<Seq<char>>
    decreases rs.len(),
{
    if rs.len() == 0 {
        Seq::empty()
    } else {
        let rest = summary_lines(rs.drop_last());
        match rs.last().result {
            Ok(t) => rest.push(rs.last().path@ + ": "@ + trim(t@)),
            Err(_) => rest,
        }
    }
}

/// One warning for each summary call that failed, in the given order.
pub open spec fn failure_warnings(rs: Seq<SummaryOutcome>) -> Seq<Seq<char>>
    decreases rs.len(),
{
    if rs.len() == 0 {
        Seq::empty()
    } else {
        let rest = failure_warnings(rs.drop_last());
        match rs.last().result {
            Ok(_) => rest,
            Err(e) => rest.push("summary failed for "@ + rs.last().path@ + ": "@ + error_text(e)),
        }
    }
}

/// The summaries joined by newlines, cut to `max` tokens when longer.
pub open spec fn combined_text(rs: Seq<SummaryOutcome>, max: nat) -> Seq<char> {
    let j = join(summary_lines(rs), seq!['\n']);
    if token_estimate(j) > max {
        truncated_to_tokens(j, max)
    } else {
        j
    }
}

/// The composing call over the summaries that came back, with a warning
/// for each that did not; no call at all when none came back.
pub fn compose_final(results: &Vec<SummaryOutcome>, config: &EffectiveConfig) -> (r: (
    Option<BackendCall>,
    Vec<String>,
))
    ensures
        r.0 is None <==> summary_lines(results@).len() == 0,
        r.0 matches Some(c) ==> is_commit_call(
            c,
            combined_text(results@, config.max_input_tokens as nat),
            *config,
        ),
        string_views(r.1@) == failure_warnings(results@),
{
    let ghost rs = results@;
    let mut text: Vec<char> = Vec::new();
    let mut count: usize = 0;
    let mut warnings: Vec<String> = Vec::new();
    let mut i: usize = 0;
    while i < results.len()
        invariant
            i <= results.len(),
            rs == results@,
            count == summary_lines(rs.take(i as int)).len(),
            count <= i,
            text@ == join(summary_lines(rs.take(i as int)), seq!['\n']),
            string_views(warnings@) == failure_warnings(rs.take(i as int)),
        decreases results.len() - i,
    {
        assert(rs.take(i + 1).drop_last() =~= rs.take(i as int));
        let item = &results[i];
        match &item.result {
            Ok(summary) => {
                let mut line = chars_of(item.path.as_str());
                push_all(&mut line, &chars_of(": "));
                push_all(&mut line, &trimmed(&chars_of(summary.as_str())));
                let ghost ls = summary_lines(rs.take(i + 1));
                proof {
                    lemma_join_step(ls, seq!['\n'], count as int);
                    assert(ls.take(count as int) =~= summary_lines(rs.take(i as int)));
                    assert(ls.take(count + 1) =~= ls);
                }
                if count > 0 {
                    text.push('\n');
                }
                push_all(&mut text, &line);
                count += 1;
            },
            Err(e) => {
                let mut w = chars_of("summary failed for ");
                push_all(&mut w, &chars_of(item.path.as_str()));
                push_all(&mut w, &chars_of(": "));
                push_all(&mut w, &chars_of(e.message().as_str()));
                let ghost before = warnings@;
                warnings.push(string_of(&w));
                assert(string_views(warnings@) =~= string_views(before).push(w@));
            },
        }
        i += 1;
    }
    assert(rs.take(i as int) =~= rs);
    if count == 0 {
        return (None, warnings);
    }
    let mut combined = string_of(&text);
    let max = config.max_input_tokens as usize;
    if estimate_tokens(combined.as_str()) > max {
        combined = truncate_to_tokens(combined.as_str(), max);
    }
    (Some(commit_call(combined.as_str(), config)), warnings)
}

/// When every summary call failed there is no summary line to compose
/// from, and one warning per failed call.
pub proof fn lemma_all_failed(rs: Seq<SummaryOutcome>)
    requires
        forall|i: int| 0 <= i < rs.len() ==> (#[trigger] rs[i]).result is Err,
    ensures
        summary_lines(rs).len() == 0,
        failure_warnings(rs).len() == rs.len(),
    decreases rs.len(),
{
    if rs.len() > 0 {
        let init = rs.drop_last();
        assert forall|i: int| 0 <= i < init.len() implies (#[trigger] init[i]).result is Err by {
            assert(init[i] == rs[i]);
        }
        lemma_all_failed(init);
        assert(rs.last().result is Err);
    }
}

/// A fan-out makes at most one summary call per unit: with at most
/// `max_files` units there are at most `max_files` summary calls.
pub proof fn lemma_fan_out_bounded(files: Seq<DiffFile>, budget: nat, max_files: nat)
    requires
        files.len() <= max_files,
    ensures
        summary_prompts(files, budget).len() <= max_files,
{
    lemma_summary_prompts_len(files, budget);
}

proof fn lemma_summary_prompts_len(files: Seq<DiffFile>, budget: nat)
    ensures
        summary_prompts(files, budget).len() <= files.len(),
    decreases files.len(),
{
    if files.len() > 0 {
        lemma_summary_prompts_len(files.drop_last(), budget);
    }
}

/// The terminal value of a run that produced a message.
#[derive(Debug)]
pub struct PipelineOutcome {
    pub message: String,
    pub used_fallback: bool,
    pub warnings: Vec<String>,
}

/// What a run returns: nothing staged, or a message.
#[derive(Debug)]
pub enum PipelineResult {
    NoChanges,
    Message(PipelineOutcome),
}

/// How generation ended.
#[derive(Debug)]
pub enum Generation {
    /// The backend returned this text.
    Text(String),
    /// The backend failed or ran out of time.
    Failed(CoreError),
    /// No backend is configured or reachable.
    Unavailable,
    /// No summary came back from a fan-out.
    NoSummaries,
}

/// The raw text handed to the sanitizer for each way generation ended.
pub open spec fn raw_message(g: Generation, fallback: Seq<char>) -> Seq<char> {
    match g {
        Generation::Text(t) => t@,
        Generation::NoSummaries => Seq::empty(),
        _ => fallback,
    }
}

/// The warning each way generation ended adds, if any.
pub open spec fn generation_warning(g: Generation) -> Option<Seq<char>> {
    match g {
        Generation::Text(_) => None,
        Generation::Failed(e) => Some("ai generation failed, using fallback: "@ + error_text(e)),
        Generation::Unavailable => Some("provider unavailable, using fallback"@),
        Generation::NoSummaries => Some("no file summaries produced, using fallback"@),
    }
}

/// Settles the outcome: the generated text (or the fallback) is
/// sanitized, `used_fallback` tells whether the fallback is what came out,
/// and a failure adds one warning to those gathered so far.
pub fn finish_outcome(
    generation: Generation,
    fallback: &str,
    warnings: Vec<String>,
    config: &EffectiveConfig,
) -> (r: PipelineOutcome)
    ensures
        r.message@ == sanitized(
            raw_message(generation, fallback@),
            config.one_line,
            config.conventional,
            fallback@,
        ),
        r.used_fallback == (r.message@ == fallback@),
        string_views(r.warnings@) == (match generation_warning(generation) {
            Some(w) => string_views(warnings@).push(w),
            None => string_views(warnings@),
        }),
{
    let ghost g = generation;
    let mut warnings = warnings;
    let ghost before = warnings@;
    let raw = match generation {
        Generation::Text(t) => t,
        Generation::Failed(e) => {
            let mut w = String::from_str("ai generation failed, using fallback: ");
            w.append(e.message().as_str());
            warnings.push(w);
            String::from_str(fallback)
        },
        Generation::Unavailable => {
            warnings.push(String::from_str("provider unavailable, using fallback"));
            String::from_str(fallback)
        },
        Generation::NoSummaries => {
            warnings.push(String::from_str("no file summaries produced, using fallback"));
            String::new()
        },
    };
    proof {
        if generation_warning(g) is Some {
            assert(string_views(warnings@) =~= string_views(before).push(
                generation_warning(g)->Some_0,
            ));
        }
    }
    let message = sanitize_message(raw.as_str(), config, fallback);
    let used_fallback = crate::text::same(
        &chars_of(message.as_str()),
        &chars_of(fallback),
    );
    PipelineOutcome { message, used_fallback, warnings }
}

/// Where a run goes once the change units are known.
#[derive(Debug)]
pub enum PipelineStart {
    /// Nothing is staged.
    NoChanges,
    /// Nothing can be sent to the backend: the outcome is settled.
    Done(PipelineOutcome),
    /// Generation is needed over these units.
    Generate { files: Vec<DiffFile>, fallback: String, warnings: Vec<String> },
}

/// Opens a run: no staged path means no message at all; no unit to send
/// means the fallback; otherwise generation over the units, with the
/// fallback computed up front.
pub fn start_pipeline(ctx: DiffContext, config: &EffectiveConfig) -> (r: PipelineStart)
    ensures
        (r is NoChanges) <==> ctx.all_paths.len() == 0,
        r matches PipelineStart::Done(o) ==> {
            &&& ctx.all_paths.len() > 0
            &&& ctx.ai_files.len() == 0
            &&& o.message@ == fallback_text(string_views(ctx.all_paths@), config.conventional)
            &&& o.used_fallback
            &&& string_views(o.warnings@) == string_views(ctx.warnings@).push(
                "no usable diff for AI; using fallback"@,
            )
        },
        r matches PipelineStart::Generate { files, fallback, warnings } ==> {
            &&& ctx.all_paths.len() > 0
            &&& files@ == ctx.ai_files@
            &&& files.len() > 0
            &&& fallback@ == fallback_text(string_views(ctx.all_paths@), config.conventional)
            &&& warnings@ == ctx.warnings@
        },
{
    if ctx.all_paths.len() == 0 {
        return PipelineStart::NoChanges;
    }
    let fallback = fallback_message(ctx.all_paths.as_slice(), config);
    assert(path_views(ctx.all_paths@) =~= string_views(ctx.all_paths@));
    if ctx.ai_files.len() == 0 {
        let mut warnings = ctx.warnings;
        let ghost before = warnings@;
        warnings.push(String::from_str("no usable diff for AI; using fallback"));
        assert(string_views(warnings@) =~= string_views(before).push(
            "no usable diff for AI; using fallback"@,
        ));
        return PipelineStart::Done(
            PipelineOutcome { message: fallback, used_fallback: true, warnings },
        );
    }
    PipelineStart::Generate { files: ctx.ai_files, fallback, warnings: ctx.warnings }
}

/// Time left before the run's deadline, both given in milliseconds since
/// one origin; a passed deadline is a timeout with zero seconds left.
pub fn deadline_remaining(now_ms: u64, deadline_ms: u64) -> (r: CoreResult<u64>)
    ensures
        now_ms >= deadline_ms ==> r == Err::<u64, CoreError>(CoreError::Timeout(0)),
        now_ms < deadline_ms ==> r == Ok::<u64, CoreError>((deadline_ms - now_ms) as u64),
{
    if now_ms >= deadline_ms {
        Err(CoreError::Timeout(0))
    } else {
        Ok(deadline_ms - now_ms)
    }
}

/// The timeout of a call that did not finish in the `remaining_ms` it had.
pub fn timeout_after(remaining_ms: u64) -> (r: CoreError)
    ensures
        r == CoreError::Timeout(remaining_ms / 1000),
{
    CoreError::Timeout(remaining_ms / 1000)
}

} // verus!
