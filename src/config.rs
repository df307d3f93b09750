//! Configuration: the partial layers that are merged, and the resolved
//! settings that the pipeline runs with.

use vstd::prelude::*;

use crate::error::CoreResult;
use crate::git::{parse_u32, parse_u64, parsed_u32, parsed_u64};
use crate::text::{chars_of, equals_str, has_prefix, lower_of, lowercase, string_of, trim, trimmed, starts_with};

verus! {

#[derive(Debug, Clone, Copy, PartialEq, Eq, Structural)]
pub enum ProviderKind {
    OpenAi,
    Ollama,
}

#[derive(Debug, Clone, Copy, PartialEq, Eq, Structural)]
pub enum OpenAiMode {
    Auto,
    Responses,
    Chat,
}

#[derive(Debug, Clone, Copy, PartialEq, Eq, Structural)]
pub enum StageMode {
    Auto,
    All,
    Off,
    Interactive,
}

pub open spec fn provider_name(k: ProviderKind) -> Seq<char> {
    match k {
        ProviderKind::OpenAi => "openai"@,
        ProviderKind::Ollama => "ollama"@,
    }
}

pub open spec fn parsed_provider(w: Seq<char>) -> Option<ProviderKind> {
    if w == "openai"@ {
        Some(ProviderKind::OpenAi)
    } else if w == "ollama"@ {
        Some(ProviderKind::Ollama)
    } else {
        None
    }
}

pub open spec fn parsed_mode(w: Seq<char>) -> Option<OpenAiMode> {
    if w == "auto"@ {
        Some(OpenAiMode::Auto)
    } else if w == "responses"@ {
        Some(OpenAiMode::Responses)
    } else if w == "chat"@ {
        Some(OpenAiMode::Chat)
    } else {
        None
    }
}

pub open spec fn parsed_stage(w: Seq<char>) -> Option<StageMode> {
    if w == "auto"@ {
        Some(StageMode::Auto)
    } else if w == "all"@ {
        Some(StageMode::All)
    } else if w == "none"@ {
        Some(StageMode::Off)
    } else if w == "interactive"@ {
        Some(StageMode::Interactive)
    } else {
        None
    }
}

impl ProviderKind {
    pub fn as_str(&self) -> (r: &'static str)
        ensures
            r@ == provider_name(*self),
    {
        match self {
            ProviderKind::OpenAi => "openai",
            ProviderKind::Ollama => "ollama",
        }
    }

    /// Reads a provider name, in any letter case.
    pub fn parse(value: &str) -> (r: Result<ProviderKind, String>)
        ensures
            match r {
                Ok(k) => parsed_provider(lower_of(value@)) == Some(k),
                Err(m) => parsed_provider(lower_of(value@)) is None && m@ == "unknown provider: "@
                    + lower_of(value@),
            },
    {
        let lower = lowercase(value);
        let v = chars_of(lower.as_str());
        if equals_str(&v, "openai") {
            Ok(ProviderKind::OpenAi)
        } else if equals_str(&v, "ollama") {
            Ok(ProviderKind::Ollama)
        } else {
            let mut m = String::from_str("unknown provider: ");
            m.append(lower.as_str());
            Err(m)
        }
    }
}

impl OpenAiMode {
    /// Reads a mode name, in any letter case.
    pub fn parse(value: &str) -> (r: Result<OpenAiMode, String>)
        ensures
            match r {
                Ok(k) => parsed_mode(lower_of(value@)) == Some(k),
                Err(m) => parsed_mode(lower_of(value@)) is None && m@ == "unknown openai mode: "@
                    + lower_of(value@),
            },
    {
        let lower = lowercase(value);
        let v = chars_of(lower.as_str());
        if equals_str(&v, "auto") {
            Ok(OpenAiMode::Auto)
        } else if equals_str(&v, "responses") {
            Ok(OpenAiMode::Responses)
        } else if equals_str(&v, "chat") {
            Ok(OpenAiMode::Chat)
        } else {
            let mut m = String::from_str("unknown openai mode: ");
            m.append(lower.as_str());
            Err(m)
        }
    }
}

impl StageMode {
    /// Reads a staging mode name, in any letter case.
    pub fn parse(value: &str) -> (r: Result<StageMode, String>)
        ensures
            match r {
                Ok(k) => parsed_stage(lower_of(value@)) == Some(k),
                Err(m) => parsed_stage(lower_of(value@)) is None && m@ == "unknown stage mode: "@
                    + lower_of(value@),
            },
    {
        let lower = lowercase(value);
        let v = chars_of(lower.as_str());
        if equals_str(&v, "auto") {
            Ok(StageMode::Auto)
        } else if equals_str(&v, "all") {
            Ok(StageMode::All)
        } else if equals_str(&v, "none") {
            Ok(StageMode::Off)
        } else if equals_str(&v, "interactive") {
            Ok(StageMode::Interactive)
        } else {
            let mut m = String::from_str("unknown stage mode: ");
            m.append(lower.as_str());
            Err(m)
        }
    }
}

impl std::str::FromStr for ProviderKind {
    type Err = String;

    fn from_str(value: &str) -> Result<ProviderKind, String> {
        ProviderKind::parse(value)
    }
}

impl std::str::FromStr for OpenAiMode {
    type Err = String;

    fn from_str(value: &str) -> Result<OpenAiMode, String> {
        OpenAiMode::parse(value)
    }
}

impl std::str::FromStr for StageMode {
    type Err = String;

    fn from_str(value: &str) -> Result<StageMode, String> {
        StageMode::parse(value)
    }
}

pub open spec fn parsed_bool(w: Seq<char>) -> Option<bool> {
    if w == "1"@ || w == "true"@ || w == "yes"@ || w == "on"@ {
        Some(true)
    } else if w == "0"@ || w == "false"@ || w == "no"@ || w == "off"@ {
        Some(false)
    } else {
        None
    }
}

/// Reads a boolean flag: 1/true/yes/on or 0/false/no/off, in any case.
pub fn parse_bool(value: &str) -> (r: Result<bool, String>)
    ensures
        match r {
            Ok(b) => parsed_bool(lower_of(value@)) == Some(b),
            Err(m) => parsed_bool(lower_of(value@)) is None && m@ == "invalid bool: "@ + value@,
        },
{
    let lower = lowercase(value);
    let v = chars_of(lower.as_str());
    if equals_str(&v, "1") || equals_str(&v, "true") || equals_str(&v, "yes") || equals_str(
        &v,
        "on",
    ) {
        Ok(true)
    } else if equals_str(&v, "0") || equals_str(&v, "false") || equals_str(&v, "no")
        || equals_str(&v, "off") {
        Ok(false)
    } else {
        let mut m = String::from_str("invalid bool: ");
        m.append(value);
        Err(m)
    }
}

/// A model of the gpt-5 family, whose name starts so once trimmed and
/// lowercased.
pub open spec fn is_gpt5_name(model: Seq<char>) -> bool {
    has_prefix(lower_of(trim(model)), "gpt-5"@)
}

pub fn is_gpt5_model(model: &str) -> (r: bool)
    ensures
        r == is_gpt5_name(model@),
{
    let t = string_of(&trimmed(&chars_of(model)));
    let lower = chars_of(lowercase(t.as_str()).as_str());
    starts_with(&lower, &chars_of("gpt-5"))
}

pub open spec fn mode_for(model: Seq<char>, mode: OpenAiMode) -> OpenAiMode {
    if is_gpt5_name(model) {
        OpenAiMode::Responses
    } else if mode != OpenAiMode::Auto {
        mode
    } else {
        OpenAiMode::Chat
    }
}

/// The protocol to speak to a model: gpt-5 models only take the
/// response-style one; otherwise an explicit choice stands and `Auto`
/// means chat.
pub fn openai_mode_for(model: &str, mode: OpenAiMode) -> (r: OpenAiMode)
    ensures
        r == mode_for(model@, mode),
{
    if is_gpt5_model(model) {
        OpenAiMode::Responses
    } else if mode != OpenAiMode::Auto {
        mode
    } else {
        OpenAiMode::Chat
    }
}


/// Built-in values, used where no layer sets one.
pub const DEFAULT_TIMEOUT_SECS: u64 = 20;
pub const DEFAULT_MAX_INPUT_TOKENS: u32 = 6000;
pub const DEFAULT_MAX_OUTPUT_TOKENS: u32 = 2048;
pub const DEFAULT_MAX_FILE_BYTES: u64 = 200_000;
pub const DEFAULT_MAX_FILE_LINES: u32 = 2_000;
pub const DEFAULT_SUMMARY_CONCURRENCY: u32 = 4;
pub const DEFAULT_MAX_FILES: u32 = 40;
/// The bit pattern of the `f32` value 0.2.
pub const DEFAULT_TEMPERATURE_BITS: u32 = 0x3e4c_cccd;

/// One layer of settings, as a file or the environment gives it; absent
/// values are left to other layers. The sampling temperature is held as the
/// bit pattern of an `f32`.
#[derive(Debug, Default, Clone)]
pub struct Config {
    pub provider: Option<ProviderKind>,
    pub model: Option<String>,
    pub openai_mode: Option<OpenAiMode>,
    pub openai_base_url: Option<String>,
    pub openai_api_key: Option<String>,
    pub ollama_endpoint: Option<String>,
    pub conventional: Option<bool>,
    pub one_line: Option<bool>,
    pub emoji: Option<bool>,
    pub lang: Option<String>,
    pub push: Option<bool>,
    pub timeout_secs: Option<u64>,
    pub max_input_tokens: Option<u32>,
    pub max_output_tokens: Option<u32>,
    pub max_file_bytes: Option<u64>,
    pub max_file_lines: Option<u32>,
    pub summary_concurrency: Option<u32>,
    pub max_files: Option<u32>,
    pub stage_mode: Option<StageMode>,
    pub confirm: Option<bool>,
    pub temperature_bits: Option<u32>,
    pub ignore: Option<Vec<String>>,
}

/// The settings a pipeline run uses. The sampling temperature is held as
/// the bit pattern of an `f32`.
#[derive(Debug, Clone)]
pub struct EffectiveConfig {
    pub provider: ProviderKind,
    pub model: String,
    pub openai_mode: OpenAiMode,
    pub openai_base_url: String,
    pub openai_api_key: Option<String>,
    pub ollama_endpoint: String,
    pub conventional: bool,
    pub one_line: bool,
    pub emoji: bool,
    pub lang: Option<String>,
    pub push: bool,
    pub timeout_secs: u64,
    pub max_input_tokens: u32,
    pub max_output_tokens: u32,
    pub max_file_bytes: u64,
    pub max_file_lines: u32,
    pub summary_concurrency: usize,
    pub max_files: usize,
    pub stage_mode: StageMode,
    pub confirm: bool,
    pub temperature_bits: u32,
    pub ignore: Vec<String>,
}

fn or_else<T>(first: Option<T>, second: Option<T>) -> (r: Option<T>)
    ensures
        r == (if first is Some { first } else { second }),
{
    match first {
        Some(v) => Some(v),
        None => second,
    }
}

fn text_or(v: Option<String>, default: &str) -> (r: String)
    ensures
        r@ == (match v { Some(s) => s@, None => default@ }),
{
    match v {
        Some(s) => s,
        None => String::from_str(default),
    }
}

pub open spec fn is_some_text(v: Option<String>, t: Seq<char>) -> bool {
    v matches Some(s) && s@ == t
}

pub open spec fn text_or_spec(v: Option<String>, default: Seq<char>) -> Seq<char> {
    match v {
        Some(s) => s@,
        None => default,
    }
}

impl Config {
    /// The built-in settings, every value present.
    pub fn defaults() -> (r: Config)
        ensures
            r.provider == Some(ProviderKind::Ollama),
            is_some_text(r.model, "qwen2.5-coder:1.5b"@),
            r.openai_mode == Some(OpenAiMode::Auto),
            is_some_text(r.openai_base_url, "https://api.openai.com/v1"@),
            r.openai_api_key is None,
            is_some_text(r.ollama_endpoint, "http://localhost:11434/api/chat"@),
            r.conventional == Some(true),
            r.one_line == Some(true),
            r.emoji == Some(false),
            r.lang is None,
            r.push == Some(true),
            r.timeout_secs == Some(DEFAULT_TIMEOUT_SECS),
            r.max_input_tokens == Some(DEFAULT_MAX_INPUT_TOKENS),
            r.max_output_tokens == Some(DEFAULT_MAX_OUTPUT_TOKENS),
            r.max_file_bytes == Some(DEFAULT_MAX_FILE_BYTES),
            r.max_file_lines == Some(DEFAULT_MAX_FILE_LINES),
            r.summary_concurrency == Some(DEFAULT_SUMMARY_CONCURRENCY),
            r.max_files == Some(DEFAULT_MAX_FILES),
            r.stage_mode == Some(StageMode::Auto),
            r.confirm == Some(true),
            r.temperature_bits == Some(DEFAULT_TEMPERATURE_BITS),
            r.ignore matches Some(v) && v@.len() == 0,
    {
        Config {
            provider: Some(ProviderKind::Ollama),
            model: Some(String::from_str("qwen2.5-coder:1.5b")),
            openai_mode: Some(OpenAiMode::Auto),
            openai_base_url: Some(String::from_str("https://api.openai.com/v1")),
            openai_api_key: None,
            ollama_endpoint: Some(String::from_str("http://localhost:11434/api/chat")),
            conventional: Some(true),
            one_line: Some(true),
            emoji: Some(false),
            lang: None,
            push: Some(true),
            timeout_secs: Some(DEFAULT_TIMEOUT_SECS),
            max_input_tokens: Some(DEFAULT_MAX_INPUT_TOKENS),
            max_output_tokens: Some(DEFAULT_MAX_OUTPUT_TOKENS),
            max_file_bytes: Some(DEFAULT_MAX_FILE_BYTES),
            max_file_lines: Some(DEFAULT_MAX_FILE_LINES),
            summary_concurrency: Some(DEFAULT_SUMMARY_CONCURRENCY),
            max_files: Some(DEFAULT_MAX_FILES),
            stage_mode: Some(StageMode::Auto),
            confirm: Some(true),
            temperature_bits: Some(DEFAULT_TEMPERATURE_BITS),
            ignore: Some(Vec::new()),
        }
    }

    /// Lays `other` over `self`: each value present in `other` wins.
    pub fn merge(self, other: Config) -> (r: Config)
        ensures
            r.provider == (if other.provider is Some { other.provider } else { self.provider }),
            r.model == (if other.model is Some { other.model } else { self.model }),
            r.openai_mode == (if other.openai_mode is Some { other.openai_mode } else { self.openai_mode }),
            r.openai_base_url == (if other.openai_base_url is Some { other.openai_base_url } else { self.openai_base_url }),
            r.openai_api_key == (if other.openai_api_key is Some { other.openai_api_key } else { self.openai_api_key }),
            r.ollama_endpoint == (if other.ollama_endpoint is Some { other.ollama_endpoint } else { self.ollama_endpoint }),
            r.conventional == (if other.conventional is Some { other.conventional } else { self.conventional }),
            r.one_line == (if other.one_line is Some { other.one_line } else { self.one_line }),
            r.emoji == (if other.emoji is Some { other.emoji } else { self.emoji }),
            r.lang == (if other.lang is Some { other.lang } else { self.lang }),
            r.push == (if other.push is Some { other.push } else { self.push }),
            r.timeout_secs == (if other.timeout_secs is Some { other.timeout_secs } else { self.timeout_secs }),
            r.max_input_tokens == (if other.max_input_tokens is Some { other.max_input_tokens } else { self.max_input_tokens }),
            r.max_output_tokens == (if other.max_output_tokens is Some { other.max_output_tokens } else { self.max_output_tokens }),
            r.max_file_bytes == (if other.max_file_bytes is Some { other.max_file_bytes } else { self.max_file_bytes }),
            r.max_file_lines == (if other.max_file_lines is Some { other.max_file_lines } else { self.max_file_lines }),
            r.summary_concurrency == (if other.summary_concurrency is Some { other.summary_concurrency } else { self.summary_concurrency }),
            r.max_files == (if other.max_files is Some { other.max_files } else { self.max_files }),
            r.stage_mode == (if other.stage_mode is Some { other.stage_mode } else { self.stage_mode }),
            r.confirm == (if other.confirm is Some { other.confirm } else { self.confirm }),
            r.temperature_bits == (if other.temperature_bits is Some { other.temperature_bits } else { self.temperature_bits }),
            r.ignore == (if other.ignore is Some { other.ignore } else { self.ignore }),
    {
        Config {
            provider: or_else(other.provider, self.provider),
            model: or_else(other.model, self.model),
            openai_mode: or_else(other.openai_mode, self.openai_mode),
            openai_base_url: or_else(other.openai_base_url, self.openai_base_url),
            openai_api_key: or_else(other.openai_api_key, self.openai_api_key),
            ollama_endpoint: or_else(other.ollama_endpoint, self.ollama_endpoint),
            conventional: or_else(other.conventional, self.conventional),
            one_line: or_else(other.one_line, self.one_line),
            emoji: or_else(other.emoji, self.emoji),
            lang: or_else(other.lang, self.lang),
            push: or_else(other.push, self.push),
            timeout_secs: or_else(other.timeout_secs, self.timeout_secs),
            max_input_tokens: or_else(other.max_input_tokens, self.max_input_tokens),
            max_output_tokens: or_else(other.max_output_tokens, self.max_output_tokens),
            max_file_bytes: or_else(other.max_file_bytes, self.max_file_bytes),
            max_file_lines: or_else(other.max_file_lines, self.max_file_lines),
            summary_concurrency: or_else(other.summary_concurrency, self.summary_concurrency),
            max_files: or_else(other.max_files, self.max_files),
            stage_mode: or_else(other.stage_mode, self.stage_mode),
            confirm: or_else(other.confirm, self.confirm),
            temperature_bits: or_else(other.temperature_bits, self.temperature_bits),
            ignore: or_else(other.ignore, self.ignore),
        }
    }

    /// Fills every absent value with its default. A gpt-5 model on the
    /// OpenAI provider always uses the response-style protocol.
    pub fn resolve(self) -> (r: CoreResult<EffectiveConfig>)
        ensures
            r matches Ok(e) && resolved_from(self, e),
    {
        let provider = match self.provider {
            Some(p) => p,
            None => ProviderKind::Ollama,
        };
        let model = text_or(self.model, "qwen2.5-coder:1.5b");
        let mut openai_mode = match self.openai_mode {
            Some(m) => m,
            None => OpenAiMode::Auto,
        };
        if provider == ProviderKind::OpenAi && is_gpt5_model(model.as_str()) {
            openai_mode = OpenAiMode::Responses;
        }
        Ok(EffectiveConfig {
            provider,
            model,
            openai_mode,
            openai_base_url: text_or(self.openai_base_url, "https://api.openai.com/v1"),
            openai_api_key: self.openai_api_key,
            ollama_endpoint: text_or(self.ollama_endpoint, "http://localhost:11434/api/chat"),
            conventional: self.conventional.unwrap_or(true),
            one_line: self.one_line.unwrap_or(true),
            emoji: self.emoji.unwrap_or(false),
            lang: self.lang,
            push: self.push.unwrap_or(true),
            timeout_secs: self.timeout_secs.unwrap_or(DEFAULT_TIMEOUT_SECS),
            max_input_tokens: self.max_input_tokens.unwrap_or(DEFAULT_MAX_INPUT_TOKENS),
            max_output_tokens: self.max_output_tokens.unwrap_or(DEFAULT_MAX_OUTPUT_TOKENS),
            max_file_bytes: self.max_file_bytes.unwrap_or(DEFAULT_MAX_FILE_BYTES),
            max_file_lines: self.max_file_lines.unwrap_or(DEFAULT_MAX_FILE_LINES),
            summary_concurrency: self.summary_concurrency.unwrap_or(DEFAULT_SUMMARY_CONCURRENCY) as usize,
            max_files: self.max_files.unwrap_or(DEFAULT_MAX_FILES) as usize,
            stage_mode: self.stage_mode.unwrap_or(StageMode::Auto),
            confirm: self.confirm.unwrap_or(true),
            temperature_bits: self.temperature_bits.unwrap_or(DEFAULT_TEMPERATURE_BITS),
            ignore: match self.ignore {
                Some(v) => v,
                None => Vec::new(),
            },
        })
    }
}

/// `e` is `c` with its absent values filled by the defaults.
pub open spec fn resolved_from(c: Config, e: EffectiveConfig) -> bool {
    let provider = c.provider.unwrap_or(ProviderKind::Ollama);
    let model = text_or_spec(c.model, "qwen2.5-coder:1.5b"@);
    let mode = c.openai_mode.unwrap_or(OpenAiMode::Auto);
    &&& e.provider == provider
    &&& e.model@ == model
    &&& e.openai_mode == (if provider == ProviderKind::OpenAi && is_gpt5_name(model) {
        OpenAiMode::Responses
    } else {
        mode
    })
    &&& e.openai_base_url@ == text_or_spec(c.openai_base_url, "https://api.openai.com/v1"@)
    &&& e.openai_api_key == c.openai_api_key
    &&& e.ollama_endpoint@ == text_or_spec(c.ollama_endpoint, "http://localhost:11434/api/chat"@)
    &&& e.conventional == c.conventional.unwrap_or(true)
    &&& e.one_line == c.one_line.unwrap_or(true)
    &&& e.emoji == c.emoji.unwrap_or(false)
    &&& e.lang == c.lang
    &&& e.push == c.push.unwrap_or(true)
    &&& e.timeout_secs == c.timeout_secs.unwrap_or(DEFAULT_TIMEOUT_SECS)
    &&& e.max_input_tokens == c.max_input_tokens.unwrap_or(DEFAULT_MAX_INPUT_TOKENS)
    &&& e.max_output_tokens == c.max_output_tokens.unwrap_or(DEFAULT_MAX_OUTPUT_TOKENS)
    &&& e.max_file_bytes == c.max_file_bytes.unwrap_or(DEFAULT_MAX_FILE_BYTES)
    &&& e.max_file_lines == c.max_file_lines.unwrap_or(DEFAULT_MAX_FILE_LINES)
    &&& e.summary_concurrency == c.summary_concurrency.unwrap_or(DEFAULT_SUMMARY_CONCURRENCY)
    &&& e.max_files == c.max_files.unwrap_or(DEFAULT_MAX_FILES)
    &&& e.stage_mode == c.stage_mode.unwrap_or(StageMode::Auto)
    &&& e.confirm == c.confirm.unwrap_or(true)
    &&& e.temperature_bits == c.temperature_bits.unwrap_or(DEFAULT_TEMPERATURE_BITS)
    &&& e.ignore@ == (match c.ignore { Some(v) => v@, None => Seq::empty() })
}

fn clamp_u32(n: usize) -> (r: u32)
    ensures
        r == (if n > u32::MAX { u32::MAX as int } else { n as int }),
{
    if n > u32::MAX as usize {
        u32::MAX
    } else {
        n as u32
    }
}

impl EffectiveConfig {
    /// The settings as a layer with every value present; counts beyond
    /// `u32::MAX` are capped.
    pub fn to_config(&self) -> (r: Config)
        ensures
            r.provider == Some(self.provider),
            is_some_text(r.model, self.model@),
            r.openai_mode == Some(self.openai_mode),
            is_some_text(r.openai_base_url, self.openai_base_url@),
            r.openai_api_key is Some <==> self.openai_api_key is Some,
            self.openai_api_key matches Some(k) ==> is_some_text(r.openai_api_key, k@),
            is_some_text(r.ollama_endpoint, self.ollama_endpoint@),
            r.conventional == Some(self.conventional),
            r.one_line == Some(self.one_line),
            r.emoji == Some(self.emoji),
            r.lang is Some <==> self.lang is Some,
            self.lang matches Some(l) ==> is_some_text(r.lang, l@),
            r.push == Some(self.push),
            r.timeout_secs == Some(self.timeout_secs),
            r.max_input_tokens == Some(self.max_input_tokens),
            r.max_output_tokens == Some(self.max_output_tokens),
            r.max_file_bytes == Some(self.max_file_bytes),
            r.max_file_lines == Some(self.max_file_lines),
            r.summary_concurrency matches Some(n) && n == (if self.summary_concurrency > u32::MAX {
                u32::MAX as int
            } else {
                self.summary_concurrency as int
            }),
            r.max_files matches Some(n) && n == (if self.max_files > u32::MAX {
                u32::MAX as int
            } else {
                self.max_files as int
            }),
            r.stage_mode == Some(self.stage_mode),
            r.confirm == Some(self.confirm),
            r.temperature_bits == Some(self.temperature_bits),
            r.ignore matches Some(v) && v.len() == self.ignore.len(),
    {
        Config {
            provider: Some(self.provider),
            model: Some(self.model.clone()),
            openai_mode: Some(self.openai_mode),
            openai_base_url: Some(self.openai_base_url.clone()),
            openai_api_key: match &self.openai_api_key {
                Some(k) => Some(k.clone()),
                None => None,
            },
            ollama_endpoint: Some(self.ollama_endpoint.clone()),
            conventional: Some(self.conventional),
            one_line: Some(self.one_line),
            emoji: Some(self.emoji),
            lang: match &self.lang {
                Some(l) => Some(l.clone()),
                None => None,
            },
            push: Some(self.push),
            timeout_secs: Some(self.timeout_secs),
            max_input_tokens: Some(self.max_input_tokens),
            max_output_tokens: Some(self.max_output_tokens),
            max_file_bytes: Some(self.max_file_bytes),
            max_file_lines: Some(self.max_file_lines),
            summary_concurrency: Some(clamp_u32(self.summary_concurrency)),
            max_files: Some(clamp_u32(self.max_files)),
            stage_mode: Some(self.stage_mode),
            confirm: Some(self.confirm),
            temperature_bits: Some(self.temperature_bits),
            ignore: Some(self.ignore.clone()),
        }
    }
}


/// The values of the `GOODCOMMIT_*` environment variables (and of
/// `OPENAI_API_KEY`) that are set. The temperature arrives already read,
/// as the bit pattern of an `f32`.
#[derive(Debug, Default, Clone)]
pub struct EnvValues {
    pub provider: Option<String>,
    pub model: Option<String>,
    pub openai_mode: Option<String>,
    pub openai_base_url: Option<String>,
    pub goodcommit_openai_api_key: Option<String>,
    pub openai_api_key: Option<String>,
    pub ollama_endpoint: Option<String>,
    pub conventional: Option<String>,
    pub one_line: Option<String>,
    pub emoji: Option<String>,
    pub lang: Option<String>,
    pub push: Option<String>,
    pub timeout_secs: Option<String>,
    pub max_input_tokens: Option<String>,
    pub max_output_tokens: Option<String>,
    pub max_file_bytes: Option<String>,
    pub max_file_lines: Option<String>,
    pub summary_concurrency: Option<String>,
    pub max_files: Option<String>,
    pub stage: Option<String>,
    pub confirm: Option<String>,
    pub temperature_bits: Option<u32>,
}

/// The first of two values that is set and not empty.
pub open spec fn first_non_empty(a: Option<String>, b: Option<String>) -> Option<String> {
    if a matches Some(x) && x@.len() > 0 {
        a
    } else if b matches Some(y) && y@.len() > 0 {
        b
    } else {
        None
    }
}

/// The API key the environment gives: `GOODCOMMIT_OPENAI_API_KEY`, else
/// `OPENAI_API_KEY`, ignoring empty values.
pub fn api_key_from(primary: Option<String>, secondary: Option<String>) -> (r: Option<String>)
    ensures
        r == first_non_empty(primary, secondary),
{
    match primary {
        Some(a) if !a.as_str().is_empty() => Some(a),
        _ => match secondary {
            Some(b) if !b.as_str().is_empty() => Some(b),
            _ => None,
        },
    }
}

pub open spec fn opt_bool(v: Option<String>) -> Option<bool> {
    match v {
        Some(s) => parsed_bool(lower_of(s@)),
        None => None,
    }
}

pub open spec fn opt_u32(v: Option<String>) -> Option<u32> {
    match v {
        Some(s) => parsed_u32(s@),
        None => None,
    }
}

pub open spec fn opt_u64(v: Option<String>) -> Option<u64> {
    match v {
        Some(s) => parsed_u64(s@),
        None => None,
    }
}

fn read_bool(v: &Option<String>) -> (r: Option<bool>)
    ensures
        r == opt_bool(*v),
{
    match v {
        Some(s) => match parse_bool(s.as_str()) {
            Ok(b) => Some(b),
            Err(_) => None,
        },
        None => None,
    }
}

fn read_u32(v: &Option<String>) -> (r: Option<u32>)
    ensures
        r == opt_u32(*v),
{
    match v {
        Some(s) => parse_u32(&chars_of(s.as_str())),
        None => None,
    }
}

fn read_u64(v: &Option<String>) -> (r: Option<u64>)
    ensures
        r == opt_u64(*v),
{
    match v {
        Some(s) => parse_u64(&chars_of(s.as_str())),
        None => None,
    }
}

/// The layer of settings the environment gives. A value that cannot be
/// read is left out, as if the variable were not set.
pub fn config_from_env_values(env: EnvValues) -> (r: Config)
    ensures
        r.provider == (match env.provider {
            Some(p) => parsed_provider(lower_of(p@)),
            None => None,
        }),
        r.model == env.model,
        r.openai_mode == (match env.openai_mode {
            Some(m) => parsed_mode(lower_of(m@)),
            None => None,
        }),
        r.openai_base_url == env.openai_base_url,
        r.openai_api_key == first_non_empty(env.goodcommit_openai_api_key, env.openai_api_key),
        r.ollama_endpoint == env.ollama_endpoint,
        r.conventional == opt_bool(env.conventional),
        r.one_line == opt_bool(env.one_line),
        r.emoji == opt_bool(env.emoji),
        r.lang == env.lang,
        r.push == opt_bool(env.push),
        r.timeout_secs == opt_u64(env.timeout_secs),
        r.max_input_tokens == opt_u32(env.max_input_tokens),
        r.max_output_tokens == opt_u32(env.max_output_tokens),
        r.max_file_bytes == opt_u64(env.max_file_bytes),
        r.max_file_lines == opt_u32(env.max_file_lines),
        r.summary_concurrency == opt_u32(env.summary_concurrency),
        r.max_files == opt_u32(env.max_files),
        r.stage_mode == (match env.stage {
            Some(m) => parsed_stage(lower_of(m@)),
            None => None,
        }),
        r.confirm == opt_bool(env.confirm),
        r.temperature_bits == env.temperature_bits,
        r.ignore is None,
{
    let provider = match &env.provider {
        Some(p) => match ProviderKind::parse(p.as_str()) {
            Ok(k) => Some(k),
            Err(_) => None,
        },
        None => None,
    };
    let openai_mode = match &env.openai_mode {
        Some(m) => match OpenAiMode::parse(m.as_str()) {
            Ok(k) => Some(k),
            Err(_) => None,
        },
        None => None,
    };
    let stage_mode = match &env.stage {
        Some(m) => match StageMode::parse(m.as_str()) {
            Ok(k) => Some(k),
            Err(_) => None,
        },
        None => None,
    };
    let conventional = read_bool(&env.conventional);
    let one_line = read_bool(&env.one_line);
    let emoji = read_bool(&env.emoji);
    let push = read_bool(&env.push);
    let confirm = read_bool(&env.confirm);
    let timeout_secs = read_u64(&env.timeout_secs);
    let max_input_tokens = read_u32(&env.max_input_tokens);
    let max_output_tokens = read_u32(&env.max_output_tokens);
    let max_file_bytes = read_u64(&env.max_file_bytes);
    let max_file_lines = read_u32(&env.max_file_lines);
    let summary_concurrency = read_u32(&env.summary_concurrency);
    let max_files = read_u32(&env.max_files);
    Config {
        provider,
        model: env.model,
        openai_mode,
        openai_base_url: env.openai_base_url,
        openai_api_key: api_key_from(env.goodcommit_openai_api_key, env.openai_api_key),
        ollama_endpoint: env.ollama_endpoint,
        conventional,
        one_line,
        emoji,
        lang: env.lang,
        push,
        timeout_secs,
        max_input_tokens,
        max_output_tokens,
        max_file_bytes,
        max_file_lines,
        summary_concurrency,
        max_files,
        stage_mode,
        confirm,
        temperature_bits: env.temperature_bits,
        ignore: None,
    }
}

/// The patterns of paths never sent to the backend: dependency and build
/// output directories, lock files, generated project files and minified
/// or mapped assets.
pub fn default_patterns() -> (r: Vec<String>)
    ensures
        r@.len() == 36,
        r@[0]@ == "node_modules"@,
        r@[1]@ == "**/node_modules/**"@,
        r@[2]@ == "dist"@,
        r@[3]@ == "**/dist/**"@,
        r@[4]@ == "build"@,
        r@[5]@ == "**/build/**"@,
        r@[6]@ == ".next"@,
        r@[7]@ == "**/.next/**"@,
        r@[8]@ == ".turbo"@,
        r@[9]@ == "**/.turbo/**"@,
        r@[10]@ == ".vite"@,
        r@[11]@ == "**/.vite/**"@,
        r@[12]@ == "coverage"@,
        r@[13]@ == "**/coverage/**"@,
        r@[14]@ == "*.lock"@,
        r@[15]@ == "**/*.lock"@,
        r@[16]@ == "bun.lock"@,
        r@[17]@ == "bun.lockb"@,
        r@[18]@ == "package-lock.json"@,
        r@[19]@ == "pnpm-lock.yaml"@,
        r@[20]@ == "yarn.lock"@,
        r@[21]@ == "Pods"@,
        r@[22]@ == "**/Pods/**"@,
        r@[23]@ == "*.xcworkspace"@,
        r@[24]@ == "**/*.xcworkspace/**"@,
        r@[25]@ == "*.pbxproj"@,
        r@[26]@ == "**/*.pbxproj"@,
        r@[27]@ == "*.xcodeproj"@,
        r@[28]@ == "**/*.xcodeproj/**"@,
        r@[29]@ == "DerivedData"@,
        r@[30]@ == "**/DerivedData/**"@,
        r@[31]@ == "target"@,
        r@[32]@ == "**/target/**"@,
        r@[33]@ == "**/*.min.js"@,
        r@[34]@ == "**/*.min.css"@,
        r@[35]@ == "**/*.map"@,
{
    let mut v: Vec<String> = Vec::new();
    v.push(String::from_str("node_modules"));
    v.push(String::from_str("**/node_modules/**"));
    v.push(String::from_str("dist"));
    v.push(String::from_str("**/dist/**"));
    v.push(String::from_str("build"));
    v.push(String::from_str("**/build/**"));
    v.push(String::from_str(".next"));
    v.push(String::from_str("**/.next/**"));
    v.push(String::from_str(".turbo"));
    v.push(String::from_str("**/.turbo/**"));
    v.push(String::from_str(".vite"));
    v.push(String::from_str("**/.vite/**"));
    v.push(String::from_str("coverage"));
    v.push(String::from_str("**/coverage/**"));
    v.push(String::from_str("*.lock"));
    v.push(String::from_str("**/*.lock"));
    v.push(String::from_str("bun.lock"));
    v.push(String::from_str("bun.lockb"));
    v.push(String::from_str("package-lock.json"));
    v.push(String::from_str("pnpm-lock.yaml"));
    v.push(String::from_str("yarn.lock"));
    v.push(String::from_str("Pods"));
    v.push(String::from_str("**/Pods/**"));
    v.push(String::from_str("*.xcworkspace"));
    v.push(String::from_str("**/*.xcworkspace/**"));
    v.push(String::from_str("*.pbxproj"));
    v.push(String::from_str("**/*.pbxproj"));
    v.push(String::from_str("*.xcodeproj"));
    v.push(String::from_str("**/*.xcodeproj/**"));
    v.push(String::from_str("DerivedData"));
    v.push(String::from_str("**/DerivedData/**"));
    v.push(String::from_str("target"));
    v.push(String::from_str("**/target/**"));
    v.push(String::from_str("**/*.min.js"));
    v.push(String::from_str("**/*.min.css"));
    v.push(String::from_str("**/*.map"));
    v
}


/// The patterns an ignore file lists: its lines trimmed, without blank
/// lines and `#` comments, in order.
pub open spec fn ignore_file_patterns(ls: Seq<Seq<char>>) -> Seq<Seq<char>>
    decreases ls.len(),
{
    if ls.len() == 0 {
        Seq::empty()
    } else {
        let rest = ignore_file_patterns(ls.drop_last());
        let t = trim(ls.last());
        if t.len() == 0 || t[0] == '#' {
            rest
        } else {
            rest.push(t)
        }
    }
}

pub fn parse_ignore_file(content: &str) -> (r: Vec<String>)
    ensures
        r@.map_values(|p: String| p@) == ignore_file_patterns(crate::text::lines_of(content@)),
{
    let s = chars_of(content);
    let ghost ls = crate::text::lines_of(s@);
    let mut out: Vec<String> = Vec::new();
    let mut pos: usize = 0;
    let mut k: usize = 0;
    assert(ls.skip(0) =~= ls);
    while pos < s.len()
        invariant
            pos <= s.len(),
            k <= pos,
            k <= ls.len(),
            ls == crate::text::lines_of(s@),
            crate::text::lines_from(s@, pos as int) == ls.skip(k as int),
            out@.map_values(|p: String| p@) == ignore_file_patterns(ls.take(k as int)),
        decreases s.len() - pos,
    {
        let (line, next) = crate::text::next_line(&s, pos);
        assert(ls.take(k + 1).drop_last() =~= ls.take(k as int));
        assert(ls.skip(k as int).drop_first() =~= ls.skip(k + 1));
        let t = trimmed(&line);
        if t.len() > 0 && t[0] != '#' {
            let ghost before = out@;
            out.push(string_of(&t));
            assert(out@.map_values(|p: String| p@) =~= before.map_values(|p: String| p@).push(t@));
        }
        k += 1;
        pos = next;
    }
    assert(ls.skip(k as int).len() == 0);
    assert(ls.take(k as int) =~= ls);
    out
}


/// The model suggested for a provider by the setup dialogue.
pub fn suggested_model(provider: ProviderKind) -> (r: &'static str)
    ensures
        provider == ProviderKind::OpenAi ==> r@ == "gpt-5-nano-2025-08-07"@,
        provider == ProviderKind::Ollama ==> r@ == "qwen2.5-coder:1.5b"@,
{
    match provider {
        ProviderKind::OpenAi => "gpt-5-nano-2025-08-07",
        ProviderKind::Ollama => "qwen2.5-coder:1.5b",
    }
}

/// The settings file the setup dialogue writes from its answers: the
/// chosen provider, model, key and push default, conventional one-line
/// messages, automatic staging and the built-in limits, with 200 output
/// tokens.
pub fn setup_config(
    provider: ProviderKind,
    model: String,
    openai_api_key: Option<String>,
    push: bool,
) -> (r: Config)
    ensures
        r.provider == Some(provider),
        r.model == Some(model),
        r.openai_api_key == openai_api_key,
        r.push == Some(push),
        r.conventional == Some(true),
        r.one_line == Some(true),
        r.timeout_secs == Some(DEFAULT_TIMEOUT_SECS),
        r.max_input_tokens == Some(DEFAULT_MAX_INPUT_TOKENS),
        r.max_output_tokens == Some(200u32),
        r.stage_mode == Some(StageMode::Auto),
        r.openai_mode is None && r.openai_base_url is None && r.ollama_endpoint is None,
        r.emoji is None && r.lang is None && r.max_file_bytes is None && r.max_file_lines is None,
        r.summary_concurrency is None && r.max_files is None && r.confirm is None,
        r.temperature_bits is None && r.ignore is None,
{
    Config {
        provider: Some(provider),
        model: Some(model),
        openai_mode: None,
        openai_base_url: None,
        openai_api_key,
        ollama_endpoint: None,
        conventional: Some(true),
        one_line: Some(true),
        emoji: None,
        lang: None,
        push: Some(push),
        timeout_secs: Some(DEFAULT_TIMEOUT_SECS),
        max_input_tokens: Some(DEFAULT_MAX_INPUT_TOKENS),
        max_output_tokens: Some(200),
        max_file_bytes: None,
        max_file_lines: None,
        summary_concurrency: None,
        max_files: None,
        stage_mode: Some(StageMode::Auto),
        confirm: None,
        temperature_bits: None,
        ignore: None,
    }
}

/// Whether a commit message file already holds a message: a line that is
/// neither blank nor a `#` comment.
pub fn has_message_line(content: &str) -> (r: bool)
    ensures
        r == (ignore_file_patterns(crate::text::lines_of(content@)).len() > 0),
{
    parse_ignore_file(content).len() > 0
}

} // verus!
