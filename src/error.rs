//! The library's error type.

use vstd::prelude::*;

use crate::text::{decimal, push_decimal};

verus! {

/// What can go wrong; errors of outside libraries arrive as their message.
#[derive(Debug, Clone, PartialEq, Eq)]
pub enum CoreError {
    Git(String),
    GitCommand { command: String, stderr: String },
    Provider(String),
    Config(String),
    Diff(String),
    Timeout(u64),
    Cancelled,
    Io(String),
    Http(String),
    Json(String),
    Yaml(String),
    TomlDe(String),
    TomlSer(String),
    Utf8(String),
}

pub type CoreResult<T> = Result<T, CoreError>;

/// The human-readable text of an error.
pub open spec fn error_text(e: CoreError) -> Seq<char> {
    match e {
        CoreError::Git(m) => "git error: "@ + m@,
        CoreError::GitCommand { command, stderr } => "git command failed: "@ + command@ + ": "@
            + stderr@,
        CoreError::Provider(m) => "provider error: "@ + m@,
        CoreError::Config(m) => "config error: "@ + m@,
        CoreError::Diff(m) => "diff error: "@ + m@,
        CoreError::Timeout(n) => "timeout after "@ + decimal(n as nat) + " seconds"@,
        CoreError::Cancelled => "cancelled"@,
        CoreError::Io(m) => m@,
        CoreError::Http(m) => m@,
        CoreError::Json(m) => m@,
        CoreError::Yaml(m) => m@,
        CoreError::TomlDe(m) => m@,
        CoreError::TomlSer(m) => m@,
        CoreError::Utf8(m) => m@,
    }
}

fn prefixed(prefix: &str, m: &String) -> (r: String)
    ensures
        r@ == prefix@ + m@,
{
    let mut out = String::from_str(prefix);
    out.append(m.as_str());
    out
}

impl CoreError {
    /// The text of the error, as it is shown to a user.
    pub fn message(&self) -> (r: String)
        ensures
            r@ == error_text(*self),
    {
        match self {
            CoreError::Git(m) => prefixed("git error: ", m),
            CoreError::GitCommand { command, stderr } => {
                let mut out = prefixed("git command failed: ", command);
                out.append(": ");
                out.append(stderr.as_str());
                out
            },
            CoreError::Provider(m) => prefixed("provider error: ", m),
            CoreError::Config(m) => prefixed("config error: ", m),
            CoreError::Diff(m) => prefixed("diff error: ", m),
            CoreError::Timeout(n) => {
                let mut digits: Vec<char> = Vec::new();
                push_decimal(&mut digits, *n);
                assert(digits@ =~= decimal(*n as nat));
                let mut out = String::from_str("timeout after ");
                out.append(crate::text::string_of(&digits).as_str());
                out.append(" seconds");
                out
            },
            CoreError::Cancelled => String::from_str("cancelled"),
            CoreError::Io(m) => m.clone(),
            CoreError::Http(m) => m.clone(),
            CoreError::Json(m) => m.clone(),
            CoreError::Yaml(m) => m.clone(),
            CoreError::TomlDe(m) => m.clone(),
            CoreError::TomlSer(m) => m.clone(),
            CoreError::Utf8(m) => m.clone(),
        }
    }
}

} // verus!
