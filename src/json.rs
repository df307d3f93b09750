//! The backend wire format: request bodies, and reading the generated
//! text out of responses. JSON values are held in a model of the library's
//! own; numbers the logic never reads arrive as their decimal text.

use vstd::prelude::*;

use crate::error::{CoreError, CoreResult};
use crate::text::{chars_of, decimal, push_all, push_decimal, same, string_of, trim, trimmed};

verus! {

/// A JSON value. Numbers are kept as the text that spells them.
#[derive(Debug)]
pub enum JsonValue {
    Null,
    Bool(bool),
    Number(String),
    /// A number given as the bit pattern of an `f32`, as sampling
    /// temperatures are.
    Float(u32),
    Text(String),
    Array(Vec<JsonValue>),
    Object(Vec<(String, JsonValue)>),
}

/// The value of the first member named `key`.
pub open spec fn member(entries: Seq<(String, JsonValue)>, key: Seq<char>) -> Option<JsonValue>
    decreases entries.len(),
{
    if entries.len() == 0 {
        None
    } else if entries[0].0@ == key {
        Some(entries[0].1)
    } else {
        member(entries.drop_first(), key)
    }
}

pub proof fn lemma_member_at(entries: Seq<(String, JsonValue)>, key: Seq<char>, i: int)
    requires
        0 <= i < entries.len(),
        entries[i].0@ == key,
        forall|j: int| 0 <= j < i ==> (#[trigger] entries[j]).0@ != key,
    ensures
        member(entries, key) == Some(entries[i].1),
    decreases i,
{
    if i > 0 {
        lemma_member_at(entries.drop_first(), key, i - 1);
    }
}

pub proof fn lemma_member_absent(entries: Seq<(String, JsonValue)>, key: Seq<char>)
    requires
        forall|j: int| 0 <= j < entries.len() ==> (#[trigger] entries[j]).0@ != key,
    ensures
        member(entries, key) is None,
    decreases entries.len(),
{
    if entries.len() > 0 {
        lemma_member_absent(entries.drop_first(), key);
    }
}

/// `v[key]` when `v` is an object holding that key.
pub open spec fn get(v: JsonValue, key: Seq<char>) -> Option<JsonValue> {
    match v {
        JsonValue::Object(entries) => member(entries@, key),
        _ => None,
    }
}

/// The text of `v[key]`, when it is a string.
pub open spec fn text_at(v: JsonValue, key: Seq<char>) -> Option<Seq<char>> {
    match get(v, key) {
        Some(JsonValue::Text(t)) => Some(t@),
        _ => None,
    }
}

/// The member of an object named `key`.
pub fn get_member<'a>(v: &'a JsonValue, key: &str) -> (r: Option<&'a JsonValue>)
    ensures
        match r {
            Some(x) => get(*v, key@) == Some(*x),
            None => get(*v, key@) is None,
        },
{
    match v {
        JsonValue::Object(entries) => {
            let k = chars_of(key);
            let mut i: usize = 0;
            assert(entries@.skip(0) =~= entries@);
            while i < entries.len()
                invariant
                    i <= entries.len(),
                    k@ == key@,
                    get(*v, key@) == member(entries@, key@),
                    member(entries@, key@) == member(entries@.skip(i as int), key@),
                decreases entries.len() - i,
            {
                assert(entries@.skip(i as int).drop_first() =~= entries@.skip(i + 1));
                if same(&chars_of(entries[i].0.as_str()), &k) {
                    assert(entries@.skip(i as int)[0] == entries@[i as int]);
                    return Some(&entries[i].1);
                }
                i += 1;
            }
            None
        },
        _ => None,
    }
}

/// The text of `v[key]`, when it is a string.
pub fn get_text<'a>(v: &'a JsonValue, key: &str) -> (r: Option<&'a String>)
    ensures
        match r {
            Some(t) => text_at(*v, key@) == Some(t@),
            None => text_at(*v, key@) is None,
        },
{
    match get_member(v, key) {
        Some(JsonValue::Text(t)) => Some(t),
        _ => None,
    }
}

/// `choices[0].message.content` of a chat-style response.
pub open spec fn chat_content(json: JsonValue) -> Option<Seq<char>> {
    match get(json, "choices"@) {
        Some(JsonValue::Array(choices)) => if choices@.len() > 0 {
            match get(choices@[0], "message"@) {
                Some(message) => text_at(message, "content"@),
                None => None,
            }
        } else {
            None
        },
        _ => None,
    }
}

/// Reads the generated text of a chat-style response: the trimmed
/// `choices[0].message.content`, which must not be empty.
pub fn parse_chat_output(json: &JsonValue) -> (r: CoreResult<String>)
    ensures
        match chat_content(*json) {
            Some(t) if trim(t).len() > 0 => r matches Ok(s) && s@ == trim(t),
            _ => r matches Err(CoreError::Provider(m)) && m@ == "openai response missing content"@,
        },
{
    let content = match get_member(json, "choices") {
        Some(JsonValue::Array(choices)) => if choices.len() > 0 {
            match get_member(&choices[0], "message") {
                Some(message) => get_text(message, "content"),
                None => None,
            }
        } else {
            None
        },
        _ => None,
    };
    if let Some(text) = content {
        let t = trimmed(&chars_of(text.as_str()));
        if t.len() > 0 {
            return Ok(string_of(&t));
        }
    }
    Err(CoreError::Provider(String::from_str("openai response missing content")))
}

/// The text parts of one output item's `content` array, run together.
pub open spec fn parts_text(parts: Seq<JsonValue>) -> Seq<char>
    decreases parts.len(),
{
    if parts.len() == 0 {
        Seq::empty()
    } else {
        parts_text(parts.drop_last()) + match text_at(parts.last(), "text"@) {
            Some(t) => t,
            None => Seq::empty(),
        }
    }
}

pub open spec fn item_text(item: JsonValue) -> Seq<char> {
    match get(item, "content"@) {
        Some(JsonValue::Array(parts)) => parts_text(parts@),
        _ => Seq::empty(),
    }
}

/// All text parts of all items of an `output` array, run together.
pub open spec fn output_text(items: Seq<JsonValue>) -> Seq<char>
    decreases items.len(),
{
    if items.len() == 0 {
        Seq::empty()
    } else {
        output_text(items.drop_last()) + item_text(items.last())
    }
}

/// What a response-style reply yields: a non-blank `output_text`, else
/// the text parts of `output`, trimmed; `None` when both are blank.
pub open spec fn responses_text(json: JsonValue) -> Option<Seq<char>> {
    match text_at(json, "output_text"@) {
        Some(t) if trim(t).len() > 0 => Some(trim(t)),
        _ => match get(json, "output"@) {
            Some(JsonValue::Array(items)) => if trim(output_text(items@)).len() > 0 {
                Some(trim(output_text(items@)))
            } else {
                None
            },
            _ => None,
        },
    }
}

fn collect_parts(parts: &Vec<JsonValue>, out: &mut Vec<char>)
    ensures
        final(out)@ == old(out)@ + parts_text(parts@),
{
    let ghost start = out@;
    let mut i: usize = 0;
    while i < parts.len()
        invariant
            i <= parts.len(),
            out@ == start + parts_text(parts@.take(i as int)),
        decreases parts.len() - i,
    {
        assert(parts@.take(i + 1).drop_last() =~= parts@.take(i as int));
        let ghost before = out@;
        match get_text(&parts[i], "text") {
            Some(t) => push_all(out, &chars_of(t.as_str())),
            None => {},
        }
        assert(out@ =~= start + parts_text(parts@.take(i + 1)));
        i += 1;
    }
    assert(parts@.take(i as int) =~= parts@);
}

/// Reads the generated text of a response-style reply.
pub fn parse_responses_output(json: &JsonValue) -> (r: CoreResult<String>)
    ensures
        match responses_text(*json) {
            Some(t) => r matches Ok(s) && s@ == t,
            None => r matches Err(CoreError::Provider(m)) && m@
                == "openai response missing output text"@,
        },
{
    if let Some(text) = get_text(json, "output_text") {
        let t = trimmed(&chars_of(text.as_str()));
        if t.len() > 0 {
            return Ok(string_of(&t));
        }
    }
    if let Some(JsonValue::Array(items)) = get_member(json, "output") {
        let mut collected: Vec<char> = Vec::new();
        let mut i: usize = 0;
        while i < items.len()
            invariant
                i <= items.len(),
                collected@ == output_text(items@.take(i as int)),
            decreases items.len() - i,
        {
            assert(items@.take(i + 1).drop_last() =~= items@.take(i as int));
            match get_member(&items[i], "content") {
                Some(JsonValue::Array(parts)) => collect_parts(parts, &mut collected),
                _ => {},
            }
            i += 1;
        }
        assert(items@.take(i as int) =~= items@);
        let t = trimmed(&collected);
        if t.len() > 0 {
            return Ok(string_of(&t));
        }
    }
    Err(CoreError::Provider(String::from_str("openai response missing output text")))
}


fn text_value(s: &str) -> (r: JsonValue)
    ensures
        r matches JsonValue::Text(t) && t@ == s@,
{
    JsonValue::Text(String::from_str(s))
}

fn number_value(n: u32) -> (r: JsonValue)
    ensures
        r matches JsonValue::Number(t) && t@ == decimal(n as nat),
{
    let mut digits: Vec<char> = Vec::new();
    push_decimal(&mut digits, n as u64);
    assert(digits@ =~= decimal(n as nat));
    JsonValue::Number(string_of(&digits))
}

fn entry(key: &str, value: JsonValue) -> (r: (String, JsonValue))
    ensures
        r.0@ == key@,
        r.1 == value,
{
    (String::from_str(key), value)
}

/// `{role, content}` with both given as text.
pub open spec fn is_chat_message(v: JsonValue, role: Seq<char>, content: Seq<char>) -> bool {
    text_at(v, "role"@) == Some(role) && text_at(v, "content"@) == Some(content)
}

/// `{role, content: [{type: "input_text", text}]}`.
pub open spec fn is_input_message(v: JsonValue, role: Seq<char>, text: Seq<char>) -> bool {
    &&& text_at(v, "role"@) == Some(role)
    &&& get(v, "content"@) matches Some(JsonValue::Array(parts)) && parts@.len() == 1
        && text_at(parts@[0], "type"@) == Some("input_text"@) && text_at(parts@[0], "text"@)
        == Some(text)
}

fn chat_message(role: &str, content: &str) -> (r: JsonValue)
    ensures
        is_chat_message(r, role@, content@),
{
    let mut entries: Vec<(String, JsonValue)> = Vec::new();
    entries.push(entry("role", text_value(role)));
    entries.push(entry("content", text_value(content)));
    proof {
        reveal_strlit("role");
        reveal_strlit("content");
        assert("role"@.len() == 4 && "content"@.len() == 7);
        lemma_member_at(entries@, "role"@, 0);
        lemma_member_at(entries@, "content"@, 1);
    }
    JsonValue::Object(entries)
}

fn input_message(role: &str, text: &str) -> (r: JsonValue)
    ensures
        is_input_message(r, role@, text@),
{
    let mut part: Vec<(String, JsonValue)> = Vec::new();
    part.push(entry("type", text_value("input_text")));
    part.push(entry("text", text_value(text)));
    let mut parts: Vec<JsonValue> = Vec::new();
    parts.push(JsonValue::Object(part));
    let mut entries: Vec<(String, JsonValue)> = Vec::new();
    entries.push(entry("role", text_value(role)));
    entries.push(entry("content", JsonValue::Array(parts)));
    proof {
        reveal_strlit("role");
        reveal_strlit("content");
        reveal_strlit("type");
        reveal_strlit("text");
        assert("role"@.len() == 4 && "content"@.len() == 7);
        assert("type"@[1] == 'y' && "text"@[1] == 'e');
        lemma_member_at(entries@, "role"@, 0);
        lemma_member_at(entries@, "content"@, 1);
        lemma_member_at(part@, "type"@, 0);
        lemma_member_at(part@, "text"@, 1);
    }
    JsonValue::Object(entries)
}

/// The chat-style request body: model, the system and user messages, the
/// output token limit, and the temperature when one is given.
pub fn chat_payload(
    model: &str,
    system_prompt: &str,
    user_prompt: &str,
    max_tokens: u32,
    temperature_bits: Option<u32>,
) -> (r: JsonValue)
    ensures
        text_at(r, "model"@) == Some(model@),
        get(r, "messages"@) matches Some(JsonValue::Array(ms)) && ms@.len() == 2
            && is_chat_message(ms@[0], "system"@, system_prompt@) && is_chat_message(
            ms@[1],
            "user"@,
            user_prompt@,
        ),
        get(r, "max_tokens"@) matches Some(JsonValue::Number(n)) && n@ == decimal(
            max_tokens as nat,
        ),
        match temperature_bits {
            Some(b) => get(r, "temperature"@) == Some(JsonValue::Float(b)),
            None => get(r, "temperature"@) is None,
        },
{
    let mut messages: Vec<JsonValue> = Vec::new();
    messages.push(chat_message("system", system_prompt));
    messages.push(chat_message("user", user_prompt));
    let mut entries: Vec<(String, JsonValue)> = Vec::new();
    entries.push(entry("model", text_value(model)));
    entries.push(entry("messages", JsonValue::Array(messages)));
    entries.push(entry("max_tokens", number_value(max_tokens)));
    match temperature_bits {
        Some(b) => entries.push(entry("temperature", JsonValue::Float(b))),
        None => {},
    }
    proof {
        reveal_strlit("model");
        reveal_strlit("messages");
        reveal_strlit("max_tokens");
        reveal_strlit("temperature");
        assert("model"@.len() == 5 && "messages"@.len() == 8 && "max_tokens"@.len() == 10
            && "temperature"@.len() == 11);
        lemma_member_at(entries@, "model"@, 0);
        lemma_member_at(entries@, "messages"@, 1);
        lemma_member_at(entries@, "max_tokens"@, 2);
        if temperature_bits is Some {
            lemma_member_at(entries@, "temperature"@, 3);
        } else {
            lemma_member_absent(entries@, "temperature"@);
        }
    }
    JsonValue::Object(entries)
}

/// The response-style request body: model and the system and user input
/// messages; for gpt-5 models minimal reasoning effort and plain text
/// output; the temperature when one is given. The token limit is added
/// per attempt by `with_token_limit`.
pub fn responses_base_payload(
    model: &str,
    system_prompt: &str,
    user_prompt: &str,
    temperature_bits: Option<u32>,
    gpt5: bool,
) -> (r: JsonValue)
    ensures
        text_at(r, "model"@) == Some(model@),
        get(r, "input"@) matches Some(JsonValue::Array(ms)) && ms@.len() == 2
            && is_input_message(ms@[0], "system"@, system_prompt@) && is_input_message(
            ms@[1],
            "user"@,
            user_prompt@,
        ),
        gpt5 ==> (get(r, "reasoning"@) matches Some(v) && text_at(v, "effort"@) == Some(
            "minimal"@,
        )) && (get(r, "text"@) matches Some(t) && (get(t, "format"@) matches Some(f)
            && text_at(f, "type"@) == Some("text"@))),
        !gpt5 ==> get(r, "reasoning"@) is None && get(r, "text"@) is None,
        match temperature_bits {
            Some(b) => get(r, "temperature"@) == Some(JsonValue::Float(b)),
            None => get(r, "temperature"@) is None,
        },
{
    let mut input: Vec<JsonValue> = Vec::new();
    input.push(input_message("system", system_prompt));
    input.push(input_message("user", user_prompt));
    let mut entries: Vec<(String, JsonValue)> = Vec::new();
    entries.push(entry("model", text_value(model)));
    entries.push(entry("input", JsonValue::Array(input)));
    if gpt5 {
        let mut effort: Vec<(String, JsonValue)> = Vec::new();
        effort.push(entry("effort", text_value("minimal")));
        proof {
            lemma_member_at(effort@, "effort"@, 0);
        }
        let mut format_type: Vec<(String, JsonValue)> = Vec::new();
        format_type.push(entry("type", text_value("text")));
        proof {
            lemma_member_at(format_type@, "type"@, 0);
        }
        let mut format: Vec<(String, JsonValue)> = Vec::new();
        format.push(entry("format", JsonValue::Object(format_type)));
        proof {
            lemma_member_at(format@, "format"@, 0);
        }
        entries.push(entry("reasoning", JsonValue::Object(effort)));
        entries.push(entry("text", JsonValue::Object(format)));
    }
    let ghost before_temperature = entries@;
    match temperature_bits {
        Some(b) => entries.push(entry("temperature", JsonValue::Float(b))),
        None => {},
    }
    proof {
        reveal_strlit("model");
        reveal_strlit("input");
        reveal_strlit("reasoning");
        reveal_strlit("text");
        reveal_strlit("temperature");
        reveal_strlit("effort");
        assert("model"@.len() == 5 && "input"@.len() == 5 && "reasoning"@.len() == 9
            && "text"@.len() == 4 && "temperature"@.len() == 11);
        assert("model"@[0] == 'm' && "input"@[0] == 'i');
        let e = entries@;
        let n = before_temperature.len() as int;
        assert(forall|i: int| 0 <= i < n ==> e[i] == before_temperature[i]);
        lemma_member_at(e, "model"@, 0);
        lemma_member_at(e, "input"@, 1);
        if gpt5 {
            lemma_member_at(e, "reasoning"@, 2);
            lemma_member_at(e, "text"@, 3);
        } else {
            lemma_member_absent(e, "reasoning"@);
            lemma_member_absent(e, "text"@);
        }
        if temperature_bits is Some {
            lemma_member_at(e, "temperature"@, n);
        } else {
            lemma_member_absent(e, "temperature"@);
        }
    }
    JsonValue::Object(entries)
}


pub proof fn lemma_member_push(entries: Seq<(String, JsonValue)>, e: (String, JsonValue), key: Seq<char>)
    ensures
        member(entries.push(e), key) == (if member(entries, key) is Some {
            member(entries, key)
        } else if e.0@ == key {
            Some(e.1)
        } else {
            None
        }),
    decreases entries.len(),
{
    let p = entries.push(e);
    if entries.len() > 0 {
        assert(p[0] == entries[0]);
        assert(p.len() > 0);
        assert(member(p, key) == (if p[0].0@ == key {
            Some(p[0].1)
        } else {
            member(p.drop_first(), key)
        }));
        assert(entries.push(e).drop_first() =~= entries.drop_first().push(e));
        lemma_member_push(entries.drop_first(), e, key);
    } else {
        assert(p[0] == e);
        assert(p.drop_first() =~= Seq::<(String, JsonValue)>::empty());
        assert(member(p, key) == (if p[0].0@ == key {
            Some(p[0].1)
        } else {
            member(p.drop_first(), key)
        }));
    }
}

/// `v` with the member `key` added when `v` is an object that lacks it;
/// otherwise `v` as it is.
pub fn with_member(v: JsonValue, key: &str, value: JsonValue) -> (r: JsonValue)
    ensures
        (v matches JsonValue::Object(_)) && get(v, key@) is None ==> get(r, key@) == Some(value),
        forall|k: Seq<char>| k != key@ ==> #[trigger] get(r, k) == get(v, k),
        get(v, key@) is Some ==> get(r, key@) == get(v, key@),
{
    if get_member(&v, key).is_some() {
        return v;
    }
    match v {
        JsonValue::Object(mut entries) => {
            let ghost before = entries@;
            let e = entry(key, value);
            entries.push(e);
            proof {
                assert forall|k: Seq<char>| true implies member(entries@, k) == (if member(before, k) is Some {
                    member(before, k)
                } else if e.0@ == k {
                    Some(e.1)
                } else {
                    None
                }) by {
                    lemma_member_push(before, e, k);
                }
            }
            JsonValue::Object(entries)
        },
        other => other,
    }
}

/// The response-style request body of one attempt: the base body with
/// the output token limit under the field name `limit_field`.
pub fn with_token_limit(base: JsonValue, limit_field: &str, max_tokens: u32) -> (r: JsonValue)
    ensures
        (base matches JsonValue::Object(_)) && get(base, limit_field@) is None ==> (get(
            r,
            limit_field@,
        ) matches Some(JsonValue::Number(n)) && n@ == decimal(max_tokens as nat)),
        forall|k: Seq<char>| k != limit_field@ ==> #[trigger] get(r, k) == get(base, k),
{
    let n = number_value(max_tokens);
    with_member(base, limit_field, n)
}


/// The local-server request body: model, the system and user messages,
/// no streaming, and the temperature and output token limit as options.
pub fn ollama_payload(
    model: &str,
    system_prompt: &str,
    user_prompt: &str,
    temperature_bits: u32,
    max_output_tokens: u32,
) -> (r: JsonValue)
    ensures
        text_at(r, "model"@) == Some(model@),
        get(r, "messages"@) matches Some(JsonValue::Array(ms)) && ms@.len() == 2
            && is_chat_message(ms@[0], "system"@, system_prompt@) && is_chat_message(
            ms@[1],
            "user"@,
            user_prompt@,
        ),
        get(r, "stream"@) == Some(JsonValue::Bool(false)),
        get(r, "options"@) matches Some(o) && get(o, "temperature"@) == Some(
            JsonValue::Float(temperature_bits),
        ) && (get(o, "num_predict"@) matches Some(JsonValue::Number(n)) && n@ == decimal(
            max_output_tokens as nat,
        )),
{
    let mut messages: Vec<JsonValue> = Vec::new();
    messages.push(chat_message("system", system_prompt));
    messages.push(chat_message("user", user_prompt));
    let mut options: Vec<(String, JsonValue)> = Vec::new();
    options.push(entry("temperature", JsonValue::Float(temperature_bits)));
    options.push(entry("num_predict", number_value(max_output_tokens)));
    proof {
        reveal_strlit("temperature");
        reveal_strlit("num_predict");
        assert("temperature"@.len() == 11 && "num_predict"@.len() == 11);
        assert("temperature"@[0] == 't' && "num_predict"@[0] == 'n');
        lemma_member_at(options@, "temperature"@, 0);
        lemma_member_at(options@, "num_predict"@, 1);
    }
    let mut entries: Vec<(String, JsonValue)> = Vec::new();
    entries.push(entry("model", text_value(model)));
    entries.push(entry("messages", JsonValue::Array(messages)));
    entries.push(entry("stream", JsonValue::Bool(false)));
    entries.push(entry("options", JsonValue::Object(options)));
    proof {
        reveal_strlit("model");
        reveal_strlit("messages");
        reveal_strlit("stream");
        reveal_strlit("options");
        assert("model"@.len() == 5 && "messages"@.len() == 8 && "stream"@.len() == 6
            && "options"@.len() == 7);
        lemma_member_at(entries@, "model"@, 0);
        lemma_member_at(entries@, "messages"@, 1);
        lemma_member_at(entries@, "stream"@, 2);
        lemma_member_at(entries@, "options"@, 3);
    }
    JsonValue::Object(entries)
}

} // verus!
