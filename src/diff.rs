//! Change units and the line-based budgeting heuristics applied to them.

use vstd::prelude::*;

use crate::text::{
    chars_of, concat_lines, contains, has_infix, has_prefix, is_whitespace, is_ws, join,
    lemma_concat_lines_step, lemma_join_step, lines_from, lines_of, next_line, push_all,
    starts_with, string_of, trim, trimmed, trimmed_end, trim_end,
};

verus! {

/// One file's contribution to the prompt.
#[derive(Debug, Clone)]
pub struct DiffFile {
    pub path: String,
    pub content: String,
    pub is_binary: bool,
    pub truncated: bool,
    pub additions: u32,
    pub deletions: u32,
    pub token_estimate: usize,
}

/// Character count divided by four, rounded up.
pub open spec fn token_estimate(s: Seq<char>) -> nat {
    ((s.len() + 3) / 4) as nat
}

pub fn estimate_chars(v: &Vec<char>) -> (r: usize)
    ensures
        r == token_estimate(v@),
{
    let n = v.len();
    if n % 4 == 0 {
        n / 4
    } else {
        n / 4 + 1
    }
}

/// The token estimate of `text`.
pub fn estimate_tokens(text: &str) -> (r: usize)
    ensures
        r == token_estimate(text@),
{
    estimate_chars(&chars_of(text))
}

/// What `truncate_lines` returns: at most `max` lines, each ended by a
/// newline, trailing whitespace dropped; and whether anything was cut.
/// Asking for no line at all cuts any non-empty text.
pub open spec fn truncated_lines(s: Seq<char>, max: nat) -> (Seq<char>, bool) {
    if max == 0 {
        (Seq::empty(), s.len() > 0)
    } else if lines_of(s).len() > max {
        (trim_end(concat_lines(lines_of(s).take(max as int))), true)
    } else {
        (trim_end(concat_lines(lines_of(s))), false)
    }
}

fn truncate_lines_chars(s: &Vec<char>, max_lines: u32) -> (r: (Vec<char>, bool))
    ensures
        (r.0@, r.1) == truncated_lines(s@, max_lines as nat),
{
    if max_lines == 0 {
        return (Vec::new(), s.len() > 0);
    }
    let ghost ls = lines_of(s@);
    let mut buffer: Vec<char> = Vec::new();
    let mut pos: usize = 0;
    let mut count: u32 = 0;
    while pos < s.len()
        invariant
            pos <= s.len(),
            0 < max_lines,
            count <= max_lines,
            count <= ls.len(),
            count <= pos,
            ls == lines_of(s@),
            lines_from(s@, pos as int) == ls.skip(count as int),
            buffer@ == concat_lines(ls.take(count as int)),
        decreases s.len() - pos,
    {
        let (line, next) = next_line(s, pos);
        if count >= max_lines {
            assert(ls.skip(count as int).len() > 0);
            let out = trimmed_end(&buffer);
            return (out, true);
        }
        proof {
            lemma_concat_lines_step(ls, count as int);
            assert(ls.skip(count as int).drop_first() =~= ls.skip(count + 1));
        }
        let mut line = line;
        buffer.append(&mut line);
        buffer.push('\n');
        assert(buffer@ =~= concat_lines(ls.take(count as int)) + ls[count as int] + seq!['\n']);
        count += 1;
        pos = next;
    }
    assert(ls.take(count as int) =~= ls);
    let out = trimmed_end(&buffer);
    (out, false)
}

/// Keeps at most `max_lines` lines of `text`; the flag tells whether text
/// was cut.
pub fn truncate_lines(text: &str, max_lines: u32) -> (r: (String, bool))
    ensures
        (r.0@, r.1) == truncated_lines(text@, max_lines as nat),
{
    let (out, cut) = truncate_lines_chars(&chars_of(text), max_lines);
    (string_of(&out), cut)
}

/// How many leading lines fit, one after another, into `budget` tokens.
pub open spec fn fit_count(ls: Seq<Seq<char>>, budget: int) -> nat
    decreases ls.len(),
{
    if ls.len() == 0 || token_estimate(ls[0]) > budget {
        0
    } else {
        1 + fit_count(ls.drop_first(), budget - token_estimate(ls[0]))
    }
}

/// What `truncate_to_tokens` returns: the longest run of leading lines
/// whose estimates sum to at most `max`, newline-ended, trailing
/// whitespace dropped.
pub open spec fn truncated_to_tokens(s: Seq<char>, max: nat) -> Seq<char> {
    trim_end(concat_lines(lines_of(s).take(fit_count(lines_of(s), max as int) as int)))
}

pub proof fn lemma_fit_count_bound(ls: Seq<Seq<char>>, budget: int)
    ensures
        fit_count(ls, budget) <= ls.len(),
    decreases ls.len(),
{
    if ls.len() > 0 && token_estimate(ls[0]) <= budget {
        lemma_fit_count_bound(ls.drop_first(), budget - token_estimate(ls[0]));
    }
}

pub fn truncate_chars_to_tokens(s: &Vec<char>, max_tokens: usize) -> (r: Vec<char>)
    ensures
        r@ == truncated_to_tokens(s@, max_tokens as nat),
{
    let ghost ls = lines_of(s@);
    let mut buffer: Vec<char> = Vec::new();
    let mut pos: usize = 0;
    let mut used: usize = 0;
    let mut k: usize = 0;
    let mut full = false;
    assert(ls.skip(0) =~= ls);
    while pos < s.len() && !full
        invariant
            full ==> fit_count(ls.skip(k as int), max_tokens - used) == 0,
            pos <= s.len(),
            used <= max_tokens,
            k <= ls.len(),
            k <= pos,
            ls == lines_of(s@),
            lines_from(s@, pos as int) == ls.skip(k as int),
            fit_count(ls, max_tokens as int) == k + fit_count(
                ls.skip(k as int),
                max_tokens - used,
            ),
            buffer@ == concat_lines(ls.take(k as int)),
        decreases s.len() - pos + (if full { 0int } else { 1int }),
    {
        let (line, next) = next_line(s, pos);
        let line_tokens = estimate_chars(&line);
        assert(line@ == ls.skip(k as int)[0]);
        if line_tokens > max_tokens - used {
            assert(fit_count(ls.skip(k as int), max_tokens - used) == 0);
            full = true;
            continue;
        }
        proof {
            lemma_concat_lines_step(ls, k as int);
            assert(ls.skip(k as int).drop_first() =~= ls.skip(k + 1));
        }
        let mut line = line;
        buffer.append(&mut line);
        buffer.push('\n');
        assert(buffer@ =~= concat_lines(ls.take(k as int)) + ls[k as int] + seq!['\n']);
        used = used + line_tokens;
        k += 1;
        pos = next;
    }
    proof {
        if pos >= s.len() {
            assert(ls.skip(k as int) =~= Seq::<Seq<char>>::empty());
            assert(fit_count(ls.skip(k as int), max_tokens - used) == 0);
        }
        assert(fit_count(ls, max_tokens as int) == k);
    }
    trimmed_end(&buffer)
}

/// Keeps the leading lines of `text` that fit into `max_tokens`.
pub fn truncate_to_tokens(text: &str, max_tokens: usize) -> (r: String)
    ensures
        r@ == truncated_to_tokens(text@, max_tokens as nat),
{
    string_of(&truncate_chars_to_tokens(&chars_of(text), max_tokens))
}

pub open spec fn contents(files: Seq<DiffFile>) -> Seq<Seq<char>> {
    files.map_values(|f: DiffFile| f.content@)
}

/// The contents of all files, in order, separated by blank lines.
pub fn diff_files_to_string(files: &[DiffFile]) -> (r: String)
    ensures
        r@ == join(contents(files@), seq!['\n', '\n']),
{
    let ghost cs = contents(files@);
    let mut buffer: Vec<char> = Vec::new();
    let mut i: usize = 0;
    while i < files.len()
        invariant
            i <= files.len(),
            cs == contents(files@),
            buffer@ == join(cs.take(i as int), seq!['\n', '\n']),
        decreases files.len() - i,
    {
        proof {
            lemma_join_step(cs, seq!['\n', '\n'], i as int);
        }
        if i > 0 {
            buffer.push('\n');
            buffer.push('\n');
        }
        let c = chars_of(files[i].content.as_str());
        push_all(&mut buffer, &c);
        i += 1;
    }
    assert(cs.take(i as int) =~= cs);
    string_of(&buffer)
}


/// First index at or after `i` that is not whitespace, or `s.len()`.
pub open spec fn skip_space(s: Seq<char>, i: int) -> int
    decreases s.len() - i,
{
    if i >= s.len() {
        s.len() as int
    } else if is_ws(s[i]) {
        skip_space(s, i + 1)
    } else {
        i
    }
}

/// First index at or after `i` that is whitespace, or `s.len()`.
pub open spec fn skip_word(s: Seq<char>, i: int) -> int
    decreases s.len() - i,
{
    if i >= s.len() {
        s.len() as int
    } else if !is_ws(s[i]) {
        skip_word(s, i + 1)
    } else {
        i
    }
}

/// The word number `n` (from zero) of `s[i..]`, words being runs of
/// non-whitespace as `str::split_whitespace` yields them.
pub open spec fn nth_word(s: Seq<char>, i: int, n: nat) -> Option<Seq<char>>
    decreases n,
{
    let a = skip_space(s, i);
    if a >= s.len() {
        None
    } else {
        let b = skip_word(s, a);
        if n == 0 {
            Some(s.subrange(a, b))
        } else {
            nth_word(s, b, (n - 1) as nat)
        }
    }
}

/// `w` with every leading `p` removed, as `str::trim_start_matches` does.
pub open spec fn strip_prefixes(w: Seq<char>, p: Seq<char>) -> Seq<char>
    decreases w.len(),
{
    if p.len() > 0 && has_prefix(w, p) {
        strip_prefixes(w.skip(p.len() as int), p)
    } else {
        w
    }
}

/// The path a `diff --git a/x b/x` header names: its fourth word without
/// leading `b/`; `unknown` when there is no fourth word.
pub open spec fn header_path(line: Seq<char>) -> Seq<char> {
    match nth_word(line, 0, 3) {
        Some(w) => strip_prefixes(w, "b/"@),
        None => "unknown"@,
    }
}

proof fn lemma_skip_bounds(s: Seq<char>, i: int)
    requires
        0 <= i <= s.len(),
    ensures
        i <= skip_space(s, i) <= s.len(),
        i <= skip_word(s, i) <= s.len(),
    decreases s.len() - i,
{
    if i < s.len() {
        lemma_skip_bounds(s, i + 1);
    }
}

fn skip_space_exec(s: &Vec<char>, i: usize) -> (r: usize)
    requires
        i <= s.len(),
    ensures
        r == skip_space(s@, i as int),
{
    let mut k = i;
    while k < s.len() && is_whitespace(s[k])
        invariant
            i <= k <= s.len(),
            skip_space(s@, i as int) == skip_space(s@, k as int),
        decreases s.len() - k,
    {
        k += 1;
    }
    k
}

fn skip_word_exec(s: &Vec<char>, i: usize) -> (r: usize)
    requires
        i <= s.len(),
    ensures
        r == skip_word(s@, i as int),
{
    let mut k = i;
    while k < s.len() && !is_whitespace(s[k])
        invariant
            i <= k <= s.len(),
            skip_word(s@, i as int) == skip_word(s@, k as int),
        decreases s.len() - k,
    {
        k += 1;
    }
    k
}

fn strip_prefixes_exec(w: &Vec<char>, p: &Vec<char>) -> (r: Vec<char>)
    requires
        p.len() > 0,
    ensures
        r@ == strip_prefixes(w@, p@),
{
    let mut start: usize = 0;
    assert(w@.skip(0) =~= w@);
    while starts_with(&crate::text::copy_range(w, start, w.len()), p)
        invariant
            start <= w.len(),
            p.len() > 0,
            strip_prefixes(w@, p@) == strip_prefixes(w@.skip(start as int), p@),
        decreases w.len() - start,
    {
        assert(w@.skip(start as int) =~= w@.subrange(start as int, w.len() as int));
        assert(w@.skip(start as int).skip(p.len() as int) =~= w@.skip(start + p.len()));
        start = start + p.len();
    }
    assert(w@.skip(start as int) =~= w@.subrange(start as int, w.len() as int));
    crate::text::copy_range(w, start, w.len())
}

/// Reads the path out of a `diff --git` header line.
pub fn parse_path_from_diff_header(header: &Vec<char>) -> (r: Option<Vec<char>>)
    ensures
        match r {
            Some(p) => nth_word(header@, 0, 3) is Some && p@ == header_path(header@),
            None => nth_word(header@, 0, 3) is None,
        },
{
    let mut i: usize = 0;
    let mut n: usize = 3;
    loop
        invariant
            i <= header.len(),
            n <= 3,
            nth_word(header@, 0, 3) == nth_word(header@, i as int, n as nat),
        decreases n,
    {
        let a = skip_space_exec(header, i);
        proof {
            lemma_skip_bounds(header@, i as int);
        }
        if a >= header.len() {
            return None;
        }
        let b = skip_word_exec(header, a);
        proof {
            lemma_skip_bounds(header@, a as int);
        }
        if n == 0 {
            let word = crate::text::copy_range(header, a, b);
            let prefix = chars_of("b/");
            proof {
                reveal_strlit("b/");
            }
            return Some(strip_prefixes_exec(&word, &prefix));
        }
        i = b;
        n -= 1;
    }
}

/// One file's section of a unified diff.
#[derive(Debug, Clone)]
pub struct DiffSection {
    pub path: String,
    pub content: String,
    pub is_binary: bool,
}

pub open spec fn marks_binary(line: Seq<char>) -> bool {
    has_prefix(line, "Binary files "@) || has_infix(line, "GIT binary patch"@)
}

/// The sections of a diff read line by line: a `diff --git ` line opens a
/// section named by its header; the lines that follow are added to it,
/// each with a newline; lines before the first header are dropped.
pub open spec fn diff_sections(ls: Seq<Seq<char>>) -> Seq<(Seq<char>, Seq<char>, bool)>
    decreases ls.len(),
{
    if ls.len() == 0 {
        Seq::empty()
    } else {
        let prev = diff_sections(ls.drop_last());
        let l = ls.last();
        if has_prefix(l, "diff --git "@) {
            prev.push((header_path(l), l + seq!['\n'], false))
        } else if prev.len() == 0 {
            prev
        } else {
            let cur = prev.last();
            prev.drop_last().push((cur.0, cur.1 + l + seq!['\n'], cur.2 || marks_binary(l)))
        }
    }
}

pub open spec fn section_view(d: DiffSection) -> (Seq<char>, Seq<char>, bool) {
    (d.path@, d.content@, d.is_binary)
}

/// Splits a unified diff into its per-file sections, in order.
pub fn parse_diff(diff: &str) -> (r: Vec<DiffSection>)
    ensures
        r@.map_values(|d: DiffSection| section_view(d)) == diff_sections(lines_of(diff@)),
{
    let s = chars_of(diff);
    let ghost ls = lines_of(s@);
    let header = chars_of("diff --git ");
    let binary_start = chars_of("Binary files ");
    let binary_patch = chars_of("GIT binary patch");
    let mut done: Vec<DiffSection> = Vec::new();
    let mut current: Option<(Vec<char>, Vec<char>, bool)> = None;
    let mut pos: usize = 0;
    let mut k: usize = 0;
    assert(ls.skip(0) =~= ls);
    while pos < s.len()
        invariant
            pos <= s.len(),
            k <= pos,
            k <= ls.len(),
            ls == lines_of(s@),
            header@ == "diff --git "@,
            binary_start@ == "Binary files "@,
            binary_patch@ == "GIT binary patch"@,
            lines_from(s@, pos as int) == ls.skip(k as int),
            ({
                let secs = diff_sections(ls.take(k as int));
                let dv = done@.map_values(|d: DiffSection| section_view(d));
                match current {
                    None => secs.len() == 0 && dv.len() == 0,
                    Some(c) => secs.len() > 0 && dv == secs.drop_last() && secs.last() == (
                        c.0@,
                        c.1@,
                        c.2,
                    ),
                }
            }),
        decreases s.len() - pos,
    {
        let (line, next) = next_line(&s, pos);
        assert(ls.take(k + 1).drop_last() =~= ls.take(k as int));
        assert(ls.skip(k as int).drop_first() =~= ls.skip(k + 1));
        assert(ls.take(k + 1).last() == line@);
        if starts_with(&line, &header) {
            let path = match parse_path_from_diff_header(&line) {
                Some(p) => p,
                None => {
                    proof {
                        reveal_strlit("unknown");
                    }
                    chars_of("unknown")
                },
            };
            let mut content = line.clone();
            assert(content@ =~= line@);
            content.push('\n');
            match current.take() {
                Some((p, c, b)) => {
                    let ghost before = done@.map_values(|d: DiffSection| section_view(d));
                    done.push(DiffSection { path: string_of(&p), content: string_of(&c), is_binary: b });
                    assert(done@.map_values(|d: DiffSection| section_view(d)) =~= before.push(
                        (p@, c@, b),
                    ));
                },
                None => {},
            }
            current = Some((path, content, false));
        } else {
            match current.take() {
                Some((p, c, b)) => {
                    let mut c = c;
                    push_all(&mut c, &line);
                    c.push('\n');
                    let bin = b || starts_with(&line, &binary_start) || contains(&line, &binary_patch);
                    current = Some((p, c, bin));
                },
                None => {},
            }
        }
        k += 1;
        pos = next;
    }
    assert(ls.skip(k as int).len() == 0);
    assert(ls.take(k as int) =~= ls);
    match current {
        Some((p, c, b)) => {
            let ghost before = done@.map_values(|d: DiffSection| section_view(d));
            done.push(DiffSection { path: string_of(&p), content: string_of(&c), is_binary: b });
            assert(done@.map_values(|d: DiffSection| section_view(d)) =~= before.push((p@, c@, b)));
        },
        None => {},
    }
    done
}


/// `d` is one of `files`.
pub open spec fn one_of(files: Seq<DiffSection>, d: DiffSection) -> bool {
    exists|j: int| 0 <= j < files.len() && section_view(#[trigger] files[j]) == section_view(d)
}

/// Every section of `r` is one of `files`.
pub open spec fn drawn_from(r: Seq<DiffSection>, files: Seq<DiffSection>) -> bool {
    forall|k: int| 0 <= k < r.len() ==> one_of(files, #[trigger] r[k])
}

/// The sections that are not binary and whose path `ignore` does not
/// match, in order.
pub fn filter_diff_files<I: crate::pipeline::IgnoreRule>(files: Vec<DiffSection>, ignore: &I) -> (r:
    Vec<DiffSection>)
    ensures
        r.len() <= files.len(),
        forall|i: int| 0 <= i < r.len() ==> !(#[trigger] r[i]).is_binary,
        drawn_from(r@, files@),
{
    let mut kept: Vec<DiffSection> = Vec::new();
    let ghost mut from: Seq<int> = Seq::empty();
    let mut i: usize = 0;
    while i < files.len()
        invariant
            i <= files.len(),
            kept.len() <= i,
            from.len() == kept.len(),
            forall|k: int| 0 <= k < kept.len() ==> !(#[trigger] kept[k]).is_binary,
            forall|k: int|
                0 <= k < kept.len() ==> 0 <= #[trigger] from[k] < files.len() && section_view(
                    files[from[k]],
                ) == section_view(kept[k]),
        decreases files.len() - i,
    {
        let f = &files[i];
        if !f.is_binary && !ignore.is_ignored(f.path.as_str()) {
            let copy = DiffSection {
                path: f.path.clone(),
                content: f.content.clone(),
                is_binary: f.is_binary,
            };
            assert(section_view(files[i as int]) == section_view(copy));
            kept.push(copy);
            proof {
                from = from.push(i as int);
            }
        }
        i += 1;
    }
    assert forall|k: int| 0 <= k < kept@.len() implies one_of(files@, #[trigger] kept@[k]) by {
        assert(section_view(files@[from[k]]) == section_view(kept@[k]));
    }
    kept
}

} // verus!
