//! The prompts sent to the text-generation backend.

use vstd::prelude::*;

use crate::config::EffectiveConfig;

verus! {

pub open spec fn conventional_task() -> Seq<char> {
    "TASK: Generate a commit message in Conventional Commits format.\n"@
        + "FORMAT: <type>(<scope>): <subject>\n"@
        + "<type> MUST be one of: feat, fix, build, chore, ci, docs, style, refactor, perf, test\n"@
        + "(<scope>) is optional and should be a short noun.\n"@
}

pub open spec fn prompt_rules() -> Seq<char> {
    "RULES:\n"@ + "- Subject must be imperative, lowercase, and concise (max 50 chars).\n"@
        + "- Entire message should be plain text, no markdown.\n"@
        + "- Do not wrap in quotes or code fences.\n"@
        + "- Respond with only the commit message text.\n"@
}

/// The system prompt for the commit message call.
pub open spec fn commit_system_text(conventional: bool, one_line: bool, emoji: bool) -> Seq<char> {
    "You are a Git commit message generator that follows the Conventional Commits specification.\n\n"@
        + (if conventional {
        conventional_task()
    } else {
        "TASK: Generate a concise commit message.\n"@
    }) + (if one_line {
        "OUTPUT: Single line only. No body.\n"@
    } else {
        "OUTPUT: A short subject line, optional blank line, and short body.\n"@
    }) + (if emoji {
        "If possible, prefix the subject with a relevant emoji for the change type.\n"@
    } else {
        Seq::empty()
    }) + prompt_rules()
}

pub fn commit_system_prompt(config: &EffectiveConfig) -> (r: String)
    ensures
        r@ == commit_system_text(config.conventional, config.one_line, config.emoji),
{
    let mut prompt = String::from_str(
        "You are a Git commit message generator that follows the Conventional Commits specification.\n\n",
    );
    let ghost start = prompt@;
    if config.conventional {
        prompt.append("TASK: Generate a commit message in Conventional Commits format.\n");
        prompt.append("FORMAT: <type>(<scope>): <subject>\n");
        prompt.append(
            "<type> MUST be one of: feat, fix, build, chore, ci, docs, style, refactor, perf, test\n",
        );
        prompt.append("(<scope>) is optional and should be a short noun.\n");
    } else {
        prompt.append("TASK: Generate a concise commit message.\n");
    }
    if config.one_line {
        prompt.append("OUTPUT: Single line only. No body.\n");
    } else {
        prompt.append("OUTPUT: A short subject line, optional blank line, and short body.\n");
    }
    let ghost before_emoji = prompt@;
    if config.emoji {
        prompt.append("If possible, prefix the subject with a relevant emoji for the change type.\n");
    } else {
        assert(prompt@ =~= before_emoji + Seq::<char>::empty());
    }
    prompt.append("RULES:\n");
    prompt.append("- Subject must be imperative, lowercase, and concise (max 50 chars).\n");
    prompt.append("- Entire message should be plain text, no markdown.\n");
    prompt.append("- Do not wrap in quotes or code fences.\n");
    prompt.append("- Respond with only the commit message text.\n");
    assert(prompt@ =~= commit_system_text(config.conventional, config.one_line, config.emoji));
    prompt
}

/// The user prompt for the commit message call over `diff`.
pub open spec fn commit_user_text(diff: Seq<char>, lang: Option<Seq<char>>) -> Seq<char> {
    match lang {
        Some(l) => "Generate the commit message in "@ + l + ".\n\nDiff:\n"@ + diff,
        None => "Generate the commit message from this diff:\n\n"@ + diff,
    }
}

pub open spec fn lang_view(lang: Option<String>) -> Option<Seq<char>> {
    match lang {
        Some(l) => Some(l@),
        None => None,
    }
}

pub fn commit_user_prompt(diff: &str, config: &EffectiveConfig) -> (r: String)
    ensures
        r@ == commit_user_text(diff@, lang_view(config.lang)),
{
    match &config.lang {
        Some(lang) => {
            let mut p = String::from_str("Generate the commit message in ");
            p.append(lang.as_str());
            p.append(".\n\nDiff:\n");
            p.append(diff);
            p
        },
        None => {
            let mut p = String::from_str("Generate the commit message from this diff:\n\n");
            p.append(diff);
            p
        },
    }
}

pub open spec fn summary_system_text() -> Seq<char> {
    "You summarize code diffs. Summarize the changes briefly and factually.\nRULES:\n- Use short bullet points.\n- Mention files and key changes.\n- No markdown code blocks.\n"@
}

pub fn summary_system_prompt() -> (r: String)
    ensures
        r@ == summary_system_text(),
{
    String::from_str(
        "You summarize code diffs. Summarize the changes briefly and factually.\nRULES:\n- Use short bullet points.\n- Mention files and key changes.\n- No markdown code blocks.\n",
    )
}

pub open spec fn summary_user_text(path: Seq<char>, diff: Seq<char>) -> Seq<char> {
    "Summarize changes for "@ + path + ":\n\n"@ + diff
}

pub fn summary_user_prompt(path: &str, diff: &str) -> (r: String)
    ensures
        r@ == summary_user_text(path@, diff@),
{
    let mut p = String::from_str("Summarize changes for ");
    p.append(path);
    p.append(":\n\n");
    p.append(diff);
    p
}

} // verus!
