//! Cleaning generated text against formatting policy, and the
//! deterministic message used when generation is unavailable.

use vstd::prelude::*;

use crate::config::EffectiveConfig;
use crate::text::{
    chars_of, first_line, first_line_of, join, lacks, lemma_first_line_lacks, lemma_join_step,
    lemma_lines_lack, lemma_single_line, lemma_strip_lacking, lemma_trim_idempotent,
    lemma_trim_lacks, lines_from, lines_of, next_line, push_all, string_of, strip, stripped, trim,
    trimmed,
};

verus! {

/// The shape of a conventional commit header: a type, an optional
/// parenthesised scope of word, dot, slash and hyphen characters, a colon,
/// a space and a non-empty subject.
pub const CONVENTIONAL_PATTERN: &'static str = r"^(feat|fix|build|chore|ci|docs|style|refactor|perf|test)(\([\w./-]+\))?: .+";

/// Whether `regex` finds `CONVENTIONAL_PATTERN` in a line.
pub uninterp spec fn conventional_header(line: Seq<char>) -> bool;

/// Relies on `regex::Regex::new` to compile `CONVENTIONAL_PATTERN` (a valid
/// pattern, so the error arm is not taken) and on `Regex::is_match`, whose
/// answer depends on the pattern and the text alone.
#[verifier::external_body]
fn is_conventional_header(line: &str) -> (r: bool)
    ensures
        r == conventional_header(line@),
{
    match regex::Regex::new(CONVENTIONAL_PATTERN) {
        Ok(re) => re.is_match(line),
        Err(_) => false,
    }
}

/// `s` without any occurrence of `c`.
pub open spec fn drop_char(s: Seq<char>, c: char) -> Seq<char>
    decreases s.len(),
{
    if s.len() == 0 {
        s
    } else if s.last() == c {
        drop_char(s.drop_last(), c)
    } else {
        drop_char(s.drop_last(), c).push(s.last())
    }
}

fn without_char(s: &Vec<char>, c: char) -> (r: Vec<char>)
    ensures
        r@ == drop_char(s@, c),
{
    let mut out: Vec<char> = Vec::new();
    let mut i: usize = 0;
    while i < s.len()
        invariant
            i <= s.len(),
            out@ == drop_char(s@.take(i as int), c),
        decreases s.len() - i,
    {
        assert(s@.take(i + 1).drop_last() =~= s@.take(i as int));
        if s[i] != c {
            out.push(s[i]);
        }
        i += 1;
    }
    assert(s@.take(i as int) =~= s@);
    out
}

/// Surrounding whitespace, then backticks, double quotes and backticks
/// again, removed from both ends.
pub open spec fn quotes_trimmed(s: Seq<char>) -> Seq<char> {
    strip(strip(strip(trim(s), '`'), '"'), '`')
}

fn trim_quotes_chars(input: &Vec<char>) -> (r: Vec<char>)
    ensures
        r@ == quotes_trimmed(input@),
{
    let t = trimmed(input);
    let a = stripped(&t, '`');
    let b = stripped(&a, '"');
    stripped(&b, '`')
}

/// Removes the surrounding whitespace, backticks and quotes of a message.
pub fn trim_quotes(input: &str) -> (r: String)
    ensures
        r@ == quotes_trimmed(input@),
{
    string_of(&trim_quotes_chars(&chars_of(input)))
}

/// The first line whose trimmed form is a conventional header, trimmed.
pub open spec fn first_conventional(ls: Seq<Seq<char>>) -> Option<Seq<char>>
    decreases ls.len(),
{
    if ls.len() == 0 {
        None
    } else if conventional_header(trim(ls[0])) {
        Some(trim(ls[0]))
    } else {
        first_conventional(ls.drop_first())
    }
}

/// What `sanitize_message` returns.
pub open spec fn sanitized(
    raw: Seq<char>,
    one_line: bool,
    conventional: bool,
    fallback: Seq<char>,
) -> Seq<char> {
    let cleaned = quotes_trimmed(raw);
    let m0 = trim(cleaned);
    let m1 = if one_line {
        trim(first_line(m0))
    } else {
        m0
    };
    let m2 = drop_char(m1, '`');
    let m3 = if conventional && !conventional_header(trim(first_line(m2))) {
        match first_conventional(lines_of(cleaned)) {
            Some(l) => l,
            None => fallback,
        }
    } else {
        m2
    };
    if m3.len() == 0 {
        fallback
    } else {
        m3
    }
}

fn find_conventional(s: &Vec<char>) -> (r: Option<Vec<char>>)
    ensures
        match r {
            Some(l) => first_conventional(lines_of(s@)) == Some(l@),
            None => first_conventional(lines_of(s@)) is None,
        },
{
    let mut pos: usize = 0;
    while pos < s.len()
        invariant
            pos <= s.len(),
            first_conventional(lines_of(s@)) == first_conventional(lines_from(s@, pos as int)),
        decreases s.len() - pos,
    {
        let (line, next) = next_line(s, pos);
        let t = trimmed(&line);
        if is_conventional_header(string_of(&t).as_str()) {
            return Some(t);
        }
        pos = next;
    }
    None
}

/// Cleans generated text: strips wrapping quotes and fences, keeps one
/// line where policy asks, removes backticks, and where conventional
/// commits are required keeps the first conforming line or else the
/// fallback. An empty result becomes the fallback.
pub fn sanitize_message(raw: &str, config: &EffectiveConfig, fallback: &str) -> (r: String)
    ensures
        r@ == sanitized(raw@, config.one_line, config.conventional, fallback@),
{
    let cleaned = trim_quotes_chars(&chars_of(raw));
    let mut message = trimmed(&cleaned);
    if config.one_line {
        message = trimmed(&first_line_of(&message));
    }
    message = without_char(&message, '`');
    if config.conventional {
        let first = trimmed(&first_line_of(&message));
        if !is_conventional_header(string_of(&first).as_str()) {
            message = match find_conventional(&cleaned) {
                Some(l) => l,
                None => chars_of(fallback),
            };
        }
    }
    if message.len() == 0 {
        String::from_str(fallback)
    } else {
        string_of(&message)
    }
}


pub open spec fn path_views(paths: Seq<String>) -> Seq<Seq<char>> {
    paths.map_values(|p: String| p@)
}

/// Longest subject a fallback message has, in characters.
pub const MAX_SUBJECT_CHARS: usize = 50;

/// "update" and the first three paths, or "update files" when there are
/// none, cut to `MAX_SUBJECT_CHARS` characters.
pub open spec fn fallback_subject(paths: Seq<Seq<char>>) -> Seq<char> {
    let s = if paths.len() == 0 {
        "update files"@
    } else {
        "update "@ + join(paths.take(if paths.len() < 3 { paths.len() as int } else { 3 }), ", "@)
    };
    if s.len() > MAX_SUBJECT_CHARS {
        s.take(MAX_SUBJECT_CHARS as int)
    } else {
        s
    }
}

/// What `fallback_message` returns.
pub open spec fn fallback_text(paths: Seq<Seq<char>>, conventional: bool) -> Seq<char> {
    if conventional {
        "chore: "@ + fallback_subject(paths)
    } else {
        fallback_subject(paths)
    }
}

/// The message used when no generated one can be had, built from the
/// changed paths alone.
pub fn fallback_message(paths: &[String], config: &EffectiveConfig) -> (r: String)
    ensures
        r@ == fallback_text(path_views(paths@), config.conventional),
        config.conventional ==> r@.len() <= MAX_SUBJECT_CHARS + 7,
        !config.conventional ==> r@.len() <= MAX_SUBJECT_CHARS,
{
    let ghost ps = path_views(paths@);
    let mut subject: Vec<char>;
    if paths.len() == 0 {
        subject = chars_of("update files");
    } else {
        let n: usize = if paths.len() < 3 {
            paths.len()
        } else {
            3
        };
        let sep = chars_of(", ");
        let mut joined: Vec<char> = Vec::new();
        let mut i: usize = 0;
        while i < n
            invariant
                n <= paths.len(),
                i <= n,
                ps == path_views(paths@),
                sep@ == ", "@,
                joined@ == join(ps.take(i as int), ", "@),
            decreases n - i,
        {
            proof {
                lemma_join_step(ps, ", "@, i as int);
            }
            if i > 0 {
                push_all(&mut joined, &sep);
            }
            let p = chars_of(paths[i].as_str());
            push_all(&mut joined, &p);
            i += 1;
        }
        subject = chars_of("update ");
        push_all(&mut subject, &joined);
    }
    if subject.len() > MAX_SUBJECT_CHARS {
        subject.truncate(MAX_SUBJECT_CHARS);
    }
    assert(subject@ == fallback_subject(ps));
    if config.conventional {
        let mut out = chars_of("chore: ");
        push_all(&mut out, &subject);
        proof {
            reveal_strlit("chore: ");
        }
        string_of(&out)
    } else {
        string_of(&subject)
    }
}


proof fn lemma_drop_char_lacking(s: Seq<char>, c: char)
    requires
        lacks(s, c),
    ensures
        drop_char(s, c) == s,
    decreases s.len(),
{
    if s.len() > 0 {
        lemma_drop_char_lacking(s.drop_last(), c);
        assert(s.drop_last().push(s.last()) =~= s);
    }
}

proof fn lemma_first_conventional_found(ls: Seq<Seq<char>>)
    ensures
        first_conventional(ls) matches Some(l) ==> conventional_header(l) && exists|k: int|
            0 <= k < ls.len() && l == trim(#[trigger] ls[k]),
    decreases ls.len(),
{
    if ls.len() > 0 && !conventional_header(trim(ls[0])) {
        lemma_first_conventional_found(ls.drop_first());
        if first_conventional(ls) is Some {
            let l = first_conventional(ls)->Some_0;
            let k = choose|k: int| 0 <= k < ls.drop_first().len() && l == trim(
                #[trigger] ls.drop_first()[k],
            );
            assert(l == trim(ls[k + 1]));
        }
    } else if ls.len() > 0 {
        assert(trim(ls[0]) == trim(ls[0]));
    }
}

/// A message in final form: no backtick or double quote, already trimmed,
/// one line where policy asks, a conforming first line where policy asks,
/// and not empty.
pub open spec fn settled(m: Seq<char>, one_line: bool, conventional: bool) -> bool {
    &&& lacks(m, '`')
    &&& lacks(m, '"')
    &&& trim(m) == m
    &&& (one_line ==> lacks(m, '\n'))
    &&& (conventional ==> conventional_header(trim(first_line(m))))
    &&& m.len() > 0
}

/// A message in final form comes out of the sanitizer unchanged.
pub proof fn lemma_settled_fixed(m: Seq<char>, one_line: bool, conventional: bool, fallback: Seq<char>)
    requires
        settled(m, one_line, conventional),
    ensures
        sanitized(m, one_line, conventional, fallback) == m,
{
    lemma_strip_lacking(m, '`');
    lemma_strip_lacking(m, '"');
    assert(quotes_trimmed(m) == m);
    if one_line {
        lemma_single_line(m);
    }
    lemma_drop_char_lacking(m, '`');
}

/// Cleaning an empty text gives the fallback, whatever the policy: so a
/// fan-out in which every summary call failed ends in the fallback.
pub proof fn lemma_empty_falls_back(one_line: bool, conventional: bool, fallback: Seq<char>)
    ensures
        sanitized(Seq::empty(), one_line, conventional, fallback) == fallback,
{
    let e = Seq::<char>::empty();
    assert(crate::text::trim_start(e) == e && crate::text::trim_end(e) == e);
    assert(quotes_trimmed(e) =~= e);
    assert(lines_of(e) =~= Seq::<Seq<char>>::empty());
    assert(drop_char(e, '`') =~= e);
}

/// Sanitizing is idempotent: cleaning a message twice gives what cleaning
/// it once gives, for any text that has no backtick or double quote left
/// once its wrapping is stripped, and a fallback that cleaning leaves
/// unchanged.
pub proof fn lemma_sanitize_idempotent(
    raw: Seq<char>,
    one_line: bool,
    conventional: bool,
    fallback: Seq<char>,
)
    requires
        lacks(quotes_trimmed(raw), '`'),
        lacks(quotes_trimmed(raw), '"'),
        sanitized(fallback, one_line, conventional, fallback) == fallback,
    ensures
        sanitized(sanitized(raw, one_line, conventional, fallback), one_line, conventional, fallback)
            == sanitized(raw, one_line, conventional, fallback),
{
    let y = sanitized(raw, one_line, conventional, fallback);
    if y == fallback {
        return;
    }
    let cleaned = quotes_trimmed(raw);
    lemma_trim_lacks(cleaned, '`');
    lemma_trim_lacks(cleaned, '"');
    let m0 = trim(cleaned);
    let m1 = if one_line {
        trim(first_line(m0))
    } else {
        m0
    };
    if !one_line {
        lemma_trim_idempotent(cleaned);
    }
    lemma_first_line_lacks(m0, '`');
    lemma_first_line_lacks(m0, '"');
    if one_line {
        lemma_trim_lacks(first_line(m0), '`');
        lemma_trim_lacks(first_line(m0), '"');
        lemma_trim_lacks(first_line(m0), '\n');
        lemma_trim_idempotent(first_line(m0));
    }
    assert(lacks(m1, '`') && lacks(m1, '"') && trim(m1) == m1);
    lemma_drop_char_lacking(m1, '`');
    let m2 = drop_char(m1, '`');
    assert(m2 == m1);
    if conventional && !conventional_header(trim(first_line(m2))) {
        lemma_first_conventional_found(lines_of(cleaned));
        let found = first_conventional(lines_of(cleaned));
        assert(found is Some);
        let l = found->Some_0;
        assert(y == l);
        let ls = lines_of(cleaned);
        let k = choose|k: int| 0 <= k < ls.len() && l == trim(#[trigger] ls[k]);
        lemma_lines_lack(cleaned, 0, '`');
        lemma_lines_lack(cleaned, 0, '"');
        assert(lacks(ls[k], '`') && lacks(ls[k], '"') && lacks(ls[k], '\n'));
        lemma_trim_lacks(ls[k], '`');
        lemma_trim_lacks(ls[k], '"');
        lemma_trim_lacks(ls[k], '\n');
        lemma_trim_idempotent(ls[k]);
        lemma_single_line(l);
        assert(settled(y, one_line, conventional));
    } else {
        assert(y == m2);
        assert(settled(y, one_line, conventional));
    }
    lemma_settled_fixed(y, one_line, conventional, fallback);
}

} // verus!
