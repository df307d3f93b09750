//! What the pipeline reads from source control, and the parsing of git's
//! per-file change statistics.

use vstd::prelude::*;

use crate::error::CoreResult;
use crate::text::{
    chars_of, copy_range, lines_from, lines_of, next_line, string_of, trim, trimmed,
};

verus! {

/// Changed-line counts of one staged path.
#[derive(Debug, Clone)]
pub struct GitFileStat {
    pub path: String,
    pub additions: u32,
    pub deletions: u32,
    pub is_binary: bool,
}

/// A staged diff body, possibly cut at a byte limit.
#[derive(Debug, Clone)]
pub struct GitDiff {
    pub content: String,
    pub truncated: bool,
}

/// The source-control reads the pipeline depends on.
pub trait GitBackend {
    /// Per-path change statistics of the staged changes, in git's order.
    fn staged_numstat(&self) -> CoreResult<Vec<GitFileStat>>;

    /// The staged diff of one path, cut after `max_bytes` bytes.
    fn staged_diff_for_path(&self, path: &str, max_bytes: u64) -> CoreResult<GitDiff>;
}

/// The git program, run in the working directory, as the source of
/// staged changes.
#[derive(Debug, Default, Clone, Copy)]
pub struct SystemGit {}

impl SystemGit {
    pub fn new() -> (r: SystemGit) {
        SystemGit {  }
    }
}

pub open spec fn is_digit(c: char) -> bool {
    '0' <= c && c <= '9'
}

pub open spec fn digits_value(s: Seq<char>) -> nat
    decreases s.len(),
{
    if s.len() == 0 {
        0
    } else {
        (digits_value(s.drop_last()) * 10 + (s.last() as int - '0' as int)) as nat
    }
}

/// The digits after an optional leading `+`.
pub open spec fn unsigned_part(s: Seq<char>) -> Seq<char> {
    if s.len() > 0 && s[0] == '+' {
        s.drop_first()
    } else {
        s
    }
}

pub open spec fn all_digits(d: Seq<char>) -> bool {
    forall|i: int| 0 <= i < d.len() ==> is_digit(#[trigger] d[i])
}

/// What `str::parse` accepts for an unsigned integer type whose largest
/// value is `max`: an optional `+`, then one or more decimal digits whose
/// value fits.
pub open spec fn parsed_decimal(s: Seq<char>, max: nat) -> Option<nat> {
    let d = unsigned_part(s);
    if d.len() > 0 && all_digits(d) && digits_value(d) <= max {
        Some(digits_value(d))
    } else {
        None
    }
}

/// What `str::parse::<u32>` gives.
pub open spec fn parsed_u32(s: Seq<char>) -> Option<u32> {
    match parsed_decimal(s, u32::MAX as nat) {
        Some(n) => Some(n as u32),
        None => None,
    }
}

/// What `str::parse::<u64>` gives.
pub open spec fn parsed_u64(s: Seq<char>) -> Option<u64> {
    match parsed_decimal(s, u64::MAX as nat) {
        Some(n) => Some(n as u64),
        None => None,
    }
}

/// Reads an unsigned decimal of at most `max` the way `str::parse` does.
pub fn parse_decimal(s: &Vec<char>, max: u64) -> (r: Option<u64>)
    ensures
        match r {
            Some(n) => parsed_decimal(s@, max as nat) == Some(n as nat),
            None => parsed_decimal(s@, max as nat) is None,
        },
{
    let start: usize = if s.len() > 0 && s[0] == '+' {
        1
    } else {
        0
    };
    let ghost d = unsigned_part(s@);
    assert(d =~= s@.subrange(start as int, s.len() as int));
    if start >= s.len() {
        return None;
    }
    let mut value: u128 = 0;
    let mut i: usize = start;
    while i < s.len()
        invariant
            start <= i <= s.len(),
            d == s@.subrange(start as int, s.len() as int),
            d == unsigned_part(s@),
            value == digits_value(s@.subrange(start as int, i as int)),
            value <= max,
            forall|k: int| start <= k < i ==> is_digit(#[trigger] s@[k]),
        decreases s.len() - i,
    {
        let c = s[i];
        if !('0' <= c && c <= '9') {
            assert(d[i - start] == s@[i as int]);
            assert(!is_digit(d[i - start]));
            return None;
        }
        assert(s@.subrange(start as int, i + 1).drop_last() =~= s@.subrange(start as int, i as int));
        let next = value * 10 + (c as u128 - '0' as u128);
        i += 1;
        if next > max as u128 {
            proof {
                if all_digits(d) {
                    lemma_digits_value_grows(d, (i - start) as int);
                    assert(d.take(i - start) =~= s@.subrange(start as int, i as int));
                }
            }
            return None;
        }
        value = next;
    }
    assert(d =~= s@.subrange(start as int, i as int));
    Some(value as u64)
}

/// Reads a decimal `u32` the way `str::parse` does.
pub fn parse_u32(s: &Vec<char>) -> (r: Option<u32>)
    ensures
        r == parsed_u32(s@),
{
    match parse_decimal(s, u32::MAX as u64) {
        Some(n) => Some(n as u32),
        None => None,
    }
}

/// Reads a decimal `u64` the way `str::parse` does.
pub fn parse_u64(s: &Vec<char>) -> (r: Option<u64>)
    ensures
        r == parsed_u64(s@),
{
    parse_decimal(s, u64::MAX)
}

/// A prefix's value never exceeds the whole's.
pub proof fn lemma_digits_value_grows(s: Seq<char>, k: int)
    requires
        0 <= k <= s.len(),
        forall|i: int| 0 <= i < s.len() ==> is_digit(#[trigger] s[i]),
    ensures
        digits_value(s.take(k)) <= digits_value(s),
    decreases s.len() - k,
{
    if k < s.len() {
        lemma_digits_value_grows(s, k + 1);
        assert(s.take(k + 1).drop_last() =~= s.take(k));
    } else {
        assert(s.take(k) =~= s);
    }
}


/// Index of the first `c` at or after `i`, or `s.len()` when there is none.
pub open spec fn char_index(s: Seq<char>, c: char, i: int) -> int
    decreases s.len() - i,
{
    if i >= s.len() {
        s.len() as int
    } else if s[i] == c {
        i
    } else {
        char_index(s, c, i + 1)
    }
}

fn find_char(s: &Vec<char>, c: char, i: usize) -> (r: usize)
    requires
        i <= s.len(),
    ensures
        r == char_index(s@, c, i as int),
        i <= r <= s.len(),
{
    let mut k = i;
    while k < s.len() && s[k] != c
        invariant
            i <= k <= s.len(),
            char_index(s@, c, i as int) == char_index(s@, c, k as int),
        decreases s.len() - k,
    {
        k += 1;
    }
    k
}

/// The statistics one line of `git diff --numstat` gives: additions, a
/// tab, deletions, a tab and the path; `-` counts mark a binary file and
/// unreadable counts read as zero. Blank lines and lines without a path
/// give none.
pub open spec fn numstat_entry(line: Seq<char>) -> Option<(Seq<char>, u32, u32, bool)> {
    let t1 = char_index(line, '\t', 0);
    let t2 = char_index(line, '\t', t1 + 1);
    if trim(line).len() == 0 || t1 >= line.len() || t2 >= line.len() {
        None
    } else {
        let add = line.take(t1);
        let del = line.subrange(t1 + 1, t2);
        let path = line.subrange(t2 + 1, line.len() as int);
        if trim(path).len() == 0 {
            None
        } else {
            Some(
                (
                    path,
                    match parsed_u32(add) {
                        Some(n) => n,
                        None => 0,
                    },
                    match parsed_u32(del) {
                        Some(n) => n,
                        None => 0,
                    },
                    add == seq!['-'] || del == seq!['-'],
                ),
            )
        }
    }
}

pub open spec fn numstat_entries(ls: Seq<Seq<char>>) -> Seq<(Seq<char>, u32, u32, bool)>
    decreases ls.len(),
{
    if ls.len() == 0 {
        Seq::empty()
    } else {
        let rest = numstat_entries(ls.drop_last());
        match numstat_entry(ls.last()) {
            Some(e) => rest.push(e),
            None => rest,
        }
    }
}

pub open spec fn stat_view(s: GitFileStat) -> (Seq<char>, u32, u32, bool) {
    (s.path@, s.additions, s.deletions, s.is_binary)
}

pub open spec fn stat_views(stats: Seq<GitFileStat>) -> Seq<(Seq<char>, u32, u32, bool)> {
    stats.map_values(|s: GitFileStat| stat_view(s))
}

fn is_dash(s: &Vec<char>) -> (r: bool)
    ensures
        r == (s@ == seq!['-']),
{
    if s.len() == 1 && s[0] == '-' {
        assert(s@ =~= seq!['-']);
        true
    } else {
        false
    }
}

fn numstat_line(line: &Vec<char>) -> (r: Option<GitFileStat>)
    ensures
        match r {
            Some(st) => numstat_entry(line@) == Some(stat_view(st)),
            None => numstat_entry(line@) is None,
        },
{
    if trimmed(line).len() == 0 {
        return None;
    }
    let t1 = find_char(line, '\t', 0);
    if t1 >= line.len() {
        return None;
    }
    let t2 = find_char(line, '\t', t1 + 1);
    if t2 >= line.len() {
        return None;
    }
    let add = copy_range(line, 0, t1);
    assert(add@ =~= line@.take(t1 as int));
    let del = copy_range(line, t1 + 1, t2);
    let path = copy_range(line, t2 + 1, line.len());
    if trimmed(&path).len() == 0 {
        return None;
    }
    let additions = match parse_u32(&add) {
        Some(n) => n,
        None => 0,
    };
    let deletions = match parse_u32(&del) {
        Some(n) => n,
        None => 0,
    };
    let is_binary = is_dash(&add) || is_dash(&del);
    Some(GitFileStat { path: string_of(&path), additions, deletions, is_binary })
}

/// Reads the output of `git diff --numstat`, one entry per line that
/// names a path, in order.
pub fn parse_numstat(stdout: &str) -> (r: Vec<GitFileStat>)
    ensures
        stat_views(r@) == numstat_entries(lines_of(stdout@)),
{
    let s = chars_of(stdout);
    let ghost ls = lines_of(s@);
    let mut stats: Vec<GitFileStat> = Vec::new();
    let mut pos: usize = 0;
    let mut k: usize = 0;
    assert(ls.skip(0) =~= ls);
    while pos < s.len()
        invariant
            pos <= s.len(),
            k <= pos,
            k <= ls.len(),
            ls == lines_of(s@),
            lines_from(s@, pos as int) == ls.skip(k as int),
            stat_views(stats@) == numstat_entries(ls.take(k as int)),
        decreases s.len() - pos,
    {
        let (line, next) = next_line(&s, pos);
        assert(ls.take(k + 1).drop_last() =~= ls.take(k as int));
        assert(ls.skip(k as int).drop_first() =~= ls.skip(k + 1));
        let ghost before = stats@;
        match numstat_line(&line) {
            Some(st) => {
                stats.push(st);
                assert(stat_views(stats@) =~= stat_views(before).push(stat_view(st)));
            },
            None => {},
        }
        k += 1;
        pos = next;
    }
    assert(ls.skip(k as int).len() == 0);
    assert(ls.take(k as int) =~= ls);
    stats
}

} // verus!
