//! Command-line settings: the overrides they make, the staging flags, and
//! the program name a run was invoked under.

use vstd::prelude::*;

use crate::config::{Config, OpenAiMode, ProviderKind, StageMode, parsed_mode, parsed_provider};
use crate::text::{chars_of, contains, copy_range, has_infix, join, lemma_join_step, lower_of, push_all, string_of};

verus! {

/// The options and flags of a command line, subcommand aside.
#[derive(Debug, Default, Clone)]
pub struct Cli {
    pub message: Vec<String>,
    pub provider: Option<String>,
    pub model: Option<String>,
    pub openai_mode: Option<String>,
    pub openai_base_url: Option<String>,
    pub ollama_endpoint: Option<String>,
    pub timeout: Option<u64>,
    pub max_input_tokens: Option<u32>,
    pub max_output_tokens: Option<u32>,
    pub max_file_bytes: Option<u64>,
    pub max_file_lines: Option<u32>,
    pub summary_concurrency: Option<u32>,
    pub max_files: Option<u32>,
    pub lang: Option<String>,
    pub local: bool,
    pub conventional: bool,
    pub no_conventional: bool,
    pub one_line: bool,
    pub no_one_line: bool,
    pub emoji: bool,
    pub no_emoji: bool,
    pub push: bool,
    pub no_push: bool,
    pub stage_all: bool,
    pub no_stage: bool,
    pub interactive: bool,
    pub yes: bool,
    pub dry_run: bool,
    pub edit: bool,
    pub bypass_hooks: bool,
    pub skip_verify: bool,
    pub verbose: bool,
}

/// The words of a message given on the command line, joined by spaces;
/// none when no word was given.
pub fn join_message_args(args: &[String]) -> (r: Option<String>)
    ensures
        args@.len() == 0 ==> r is None,
        args@.len() > 0 ==> (r matches Some(m) && m@ == join(
            args@.map_values(|a: String| a@),
            " "@,
        )),
{
    if args.len() == 0 {
        return None;
    }
    let ghost ws = args@.map_values(|a: String| a@);
    let sep = chars_of(" ");
    let mut out: Vec<char> = Vec::new();
    let mut i: usize = 0;
    while i < args.len()
        invariant
            i <= args.len(),
            ws == args@.map_values(|a: String| a@),
            sep@ == " "@,
            out@ == join(ws.take(i as int), " "@),
        decreases args.len() - i,
    {
        proof {
            lemma_join_step(ws, " "@, i as int);
        }
        if i > 0 {
            push_all(&mut out, &sep);
        }
        push_all(&mut out, &chars_of(args[i].as_str()));
        i += 1;
    }
    assert(ws.take(i as int) =~= ws);
    Some(string_of(&out))
}

pub open spec fn stage_flag_count(cli: Cli) -> int {
    (if cli.stage_all { 1int } else { 0 }) + (if cli.no_stage { 1int } else { 0 }) + (if cli.interactive {
        1int
    } else {
        0
    })
}

/// At most one of the staging flags may be given.
pub fn stage_mode_conflicts(cli: &Cli) -> (r: Result<(), String>)
    ensures
        r is Ok <==> stage_flag_count(*cli) <= 1,
        r matches Err(m) ==> m@ == "stage flags are mutually exclusive"@,
{
    let mut count: u32 = 0;
    if cli.stage_all {
        count += 1;
    }
    if cli.no_stage {
        count += 1;
    }
    if cli.interactive {
        count += 1;
    }
    if count > 1 {
        Err(String::from_str("stage flags are mutually exclusive"))
    } else {
        Ok(())
    }
}

pub fn has_stage_flag(cli: &Cli) -> (r: bool)
    ensures
        r == (cli.stage_all || cli.no_stage || cli.interactive),
{
    cli.stage_all || cli.no_stage || cli.interactive
}

/// `s` without its trailing slashes.
pub open spec fn trim_slashes(s: Seq<char>) -> Seq<char>
    decreases s.len(),
{
    if s.len() > 0 && s.last() == '/' {
        trim_slashes(s.drop_last())
    } else {
        s
    }
}

/// Index just after the last `/` of `s`, or 0.
pub open spec fn after_last_slash(s: Seq<char>) -> int
    decreases s.len(),
{
    if s.len() == 0 {
        0
    } else if s.last() == '/' {
        s.len() as int
    } else {
        after_last_slash(s.drop_last())
    }
}

/// The last component of a path, or the whole text when that component
/// is empty or `..`.
pub open spec fn program_name(s: Seq<char>) -> Seq<char> {
    let t = trim_slashes(s);
    let name = t.subrange(after_last_slash(t), t.len() as int);
    if name.len() == 0 || name == ".."@ {
        s
    } else {
        name
    }
}

proof fn lemma_after_last_slash_bound(s: Seq<char>)
    ensures
        0 <= after_last_slash(s) <= s.len(),
    decreases s.len(),
{
    if s.len() > 0 && s.last() != '/' {
        lemma_after_last_slash_bound(s.drop_last());
    }
}

fn program_name_of(s: &Vec<char>) -> (r: Vec<char>)
    ensures
        r@ == program_name(s@),
{
    let mut end = s.len();
    assert(s@.take(end as int) =~= s@);
    while end > 0 && s[end - 1] == '/'
        invariant
            end <= s.len(),
            trim_slashes(s@) == trim_slashes(s@.take(end as int)),
        decreases end,
    {
        assert(s@.take(end as int).drop_last() =~= s@.take(end - 1));
        end -= 1;
    }
    let ghost t = s@.take(end as int);
    assert(trim_slashes(s@) == t);
    let mut start = end;
    assert(t.take(start as int) =~= t);
    while start > 0 && s[start - 1] != '/'
        invariant
            start <= end <= s.len(),
            t == s@.take(end as int),
            after_last_slash(t) == after_last_slash(t.take(start as int)),
        decreases start,
    {
        assert(t.take(start as int).drop_last() =~= t.take(start - 1));
        start -= 1;
    }
    proof {
        lemma_after_last_slash_bound(t);
        assert(t.take(start as int).len() == start);
    }
    let name = copy_range(s, start, end);
    assert(name@ =~= t.subrange(after_last_slash(t), t.len() as int));
    if name.len() == 0 || crate::text::equals_str(&name, "..") {
        copy_range(s, 0, s.len())
    } else {
        name
    }
}

/// A run invoked as `g.` stages everything.
pub fn stage_mode_for_invocation(invocation: &str) -> (r: Option<StageMode>)
    ensures
        program_name(invocation@) == "g."@ ==> r == Some(StageMode::All),
        program_name(invocation@) != "g."@ ==> r is None,
{
    let s = chars_of(invocation);
    let name = program_name_of(&s);
    if crate::text::equals_str(&name, "g.") {
        Some(StageMode::All)
    } else {
        None
    }
}

/// Whether a warning points at the backend: a failed generation or the
/// provider.
pub open spec fn is_provider_warning(w: Seq<char>) -> bool {
    has_infix(w, "ai generation failed"@) || has_infix(w, "provider"@)
}

pub fn has_provider_warning(warnings: &[String]) -> (r: bool)
    ensures
        r == exists|i: int| 0 <= i < warnings@.len() && is_provider_warning(#[trigger] warnings@[i]@),
{
    let a = chars_of("ai generation failed");
    let p = chars_of("provider");
    let mut i: usize = 0;
    while i < warnings.len()
        invariant
            i <= warnings.len(),
            a@ == "ai generation failed"@,
            p@ == "provider"@,
            forall|j: int| 0 <= j < i ==> !is_provider_warning(#[trigger] warnings@[j]@),
        decreases warnings.len() - i,
    {
        let w = chars_of(warnings[i].as_str());
        if contains(&w, &a) || contains(&w, &p) {
            return true;
        }
        i += 1;
    }
    false
}


pub open spec fn flag_pair(on: bool, off: bool) -> Option<bool> {
    if off {
        Some(false)
    } else if on {
        Some(true)
    } else {
        None
    }
}

pub open spec fn push_override(cli: Cli) -> Option<bool> {
    if cli.no_push {
        Some(false)
    } else if cli.push {
        Some(true)
    } else if cli.local {
        Some(false)
    } else {
        None
    }
}

pub open spec fn stage_override(cli: Cli) -> Option<StageMode> {
    if cli.interactive {
        Some(StageMode::Interactive)
    } else if cli.no_stage {
        Some(StageMode::Off)
    } else if cli.stage_all {
        Some(StageMode::All)
    } else {
        None
    }
}

pub open spec fn bad_provider(cli: Cli) -> bool {
    cli.provider matches Some(p) && parsed_provider(lower_of(p@)) is None
}

pub open spec fn bad_mode(cli: Cli) -> bool {
    cli.openai_mode matches Some(m) && parsed_mode(lower_of(m@)) is None
}

fn clone_text(v: &Option<String>) -> (r: Option<String>)
    ensures
        r == *v,
{
    match v {
        Some(s) => {
            let c = s.clone();
            Some(c)
        },
        None => None,
    }
}

/// The settings a command line sets; everything it leaves out stays
/// absent. A provider or mode name that cannot be read is an error.
pub fn build_cli_overrides(cli: &Cli) -> (r: Result<Config, String>)
    ensures
        r is Err <==> bad_provider(*cli) || bad_mode(*cli),
        bad_provider(*cli) ==> (r matches Err(m) && m@ == "unknown provider: "@ + lower_of(
            cli.provider->Some_0@,
        )),
        !bad_provider(*cli) && bad_mode(*cli) ==> (r matches Err(m) && m@
            == "unknown openai mode: "@ + lower_of(cli.openai_mode->Some_0@)),
        r matches Ok(c) ==> {
            &&& c.provider == (match cli.provider {
                Some(p) => parsed_provider(lower_of(p@)),
                None => None,
            })
            &&& c.openai_mode == (match cli.openai_mode {
                Some(m) => parsed_mode(lower_of(m@)),
                None => None,
            })
            &&& c.model == cli.model
            &&& c.openai_base_url == cli.openai_base_url
            &&& c.openai_api_key is None
            &&& c.ollama_endpoint == cli.ollama_endpoint
            &&& c.conventional == flag_pair(cli.conventional, cli.no_conventional)
            &&& c.one_line == flag_pair(cli.one_line, cli.no_one_line)
            &&& c.emoji == flag_pair(cli.emoji, cli.no_emoji)
            &&& c.lang == cli.lang
            &&& c.push == push_override(*cli)
            &&& c.timeout_secs == cli.timeout
            &&& c.max_input_tokens == cli.max_input_tokens
            &&& c.max_output_tokens == cli.max_output_tokens
            &&& c.max_file_bytes == cli.max_file_bytes
            &&& c.max_file_lines == cli.max_file_lines
            &&& c.summary_concurrency == cli.summary_concurrency
            &&& c.max_files == cli.max_files
            &&& c.stage_mode == stage_override(*cli)
            &&& c.confirm == (if cli.yes { Some(false) } else { None::<bool> })
            &&& c.temperature_bits is None
            &&& c.ignore is None
        },
{
    let provider = match &cli.provider {
        Some(p) => match ProviderKind::parse(p.as_str()) {
            Ok(k) => Some(k),
            Err(m) => {
                return Err(m);
            },
        },
        None => None,
    };
    let openai_mode = match &cli.openai_mode {
        Some(m) => match OpenAiMode::parse(m.as_str()) {
            Ok(k) => Some(k),
            Err(e) => {
                return Err(e);
            },
        },
        None => None,
    };
    let conventional = if cli.no_conventional {
        Some(false)
    } else if cli.conventional {
        Some(true)
    } else {
        None
    };
    let one_line = if cli.no_one_line {
        Some(false)
    } else if cli.one_line {
        Some(true)
    } else {
        None
    };
    let emoji = if cli.no_emoji {
        Some(false)
    } else if cli.emoji {
        Some(true)
    } else {
        None
    };
    let push = if cli.no_push {
        Some(false)
    } else if cli.push {
        Some(true)
    } else if cli.local {
        Some(false)
    } else {
        None
    };
    let stage_mode = if cli.interactive {
        Some(StageMode::Interactive)
    } else if cli.no_stage {
        Some(StageMode::Off)
    } else if cli.stage_all {
        Some(StageMode::All)
    } else {
        None
    };
    Ok(
        Config {
            provider,
            model: clone_text(&cli.model),
            openai_mode,
            openai_base_url: clone_text(&cli.openai_base_url),
            openai_api_key: None,
            ollama_endpoint: clone_text(&cli.ollama_endpoint),
            conventional,
            one_line,
            emoji,
            lang: clone_text(&cli.lang),
            push,
            timeout_secs: cli.timeout,
            max_input_tokens: cli.max_input_tokens,
            max_output_tokens: cli.max_output_tokens,
            max_file_bytes: cli.max_file_bytes,
            max_file_lines: cli.max_file_lines,
            summary_concurrency: cli.summary_concurrency,
            max_files: cli.max_files,
            stage_mode,
            confirm: if cli.yes {
                Some(false)
            } else {
                None
            },
            temperature_bits: None,
            ignore: None,
        },
    )
}

} // verus!
