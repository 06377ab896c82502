use vstd::prelude::*;

use crate::json::Json;
use crate::text::signed_decimal;

verus! {

/// Typed errors that carry a semantic CLI exit code.
/// Every variant holds the full human-readable message, so the top level can
/// report it without walking an error chain.
#[derive(Debug)]
pub enum CliError {
    /// HTTP 404: resource not found. Exit code 3.
    NotFound(String),
    /// HTTP 401/403 or missing credentials. Exit code 4.
    Auth(String),
    /// Any other failure (network, server 5xx, parse). Exit code 1.
    Other(String),
}

impl CliError {
    /// The process exit code that belongs to each kind of error.
    pub open spec fn spec_exit_code(&self) -> i32 {
        match self {
            CliError::NotFound(_) => 3,
            CliError::Auth(_) => 4,
            CliError::Other(_) => 1,
        }
    }

    /// The `type` tag reported in the structured error document.
    pub open spec fn spec_error_type(&self) -> Seq<char> {
        match self {
            CliError::NotFound(_) => "not_found"@,
            CliError::Auth(_) => "auth_error"@,
            CliError::Other(_) => "error"@,
        }
    }

    /// The human-readable message carried by the error.
    pub open spec fn spec_message(&self) -> Seq<char> {
        match self {
            CliError::NotFound(m) => m@,
            CliError::Auth(m) => m@,
            CliError::Other(m) => m@,
        }
    }

    pub fn exit_code(&self) -> (code: i32)
        ensures
            code == self.spec_exit_code(),
    {
        match self {
            CliError::NotFound(_) => 3,
            CliError::Auth(_) => 4,
            CliError::Other(_) => 1,
        }
    }

    pub fn error_type(&self) -> (tag: &'static str)
        ensures
            tag@ == self.spec_error_type(),
    {
        match self {
            CliError::NotFound(_) => "not_found",
            CliError::Auth(_) => "auth_error",
            CliError::Other(_) => "error",
        }
    }

    /// The message as displayed to the user (the whole text of the error).
    pub fn message(&self) -> (m: &String)
        ensures
            m@ == self.spec_message(),
    {
        match self {
            CliError::NotFound(m) => m,
            CliError::Auth(m) => m,
            CliError::Other(m) => m,
        }
    }
}

/// The reported type follows the exit code: 3 is `not_found`, 4 is
/// `auth_error`, and every other code is `error`.
pub proof fn error_type_follows_exit_code(err: CliError)
    ensures
        err.spec_error_type() == (if err.spec_exit_code() == 3 {
            "not_found"@
        } else if err.spec_exit_code() == 4 {
            "auth_error"@
        } else {
            "error"@
        }),
{
}

/// The structured error document printed on standard error:
/// `{"cli_error": {"type": <type>, "message": <message>}}`.
pub open spec fn is_error_report(j: Json, err: CliError) -> bool {
    &&& j matches Json::Object(outer)
    &&& outer@.len() == 1
    &&& outer@[0].0@ == "cli_error"@
    &&& outer@[0].1 matches Json::Object(inner)
    &&& inner@.len() == 2
    &&& inner@[0].0@ == "type"@
    &&& (inner@[0].1 matches Json::String(t) && t@ == err.spec_error_type())
    &&& inner@[1].0@ == "message"@
    &&& (inner@[1].1 matches Json::String(m) && m@ == err.spec_message())
}

/// The structured error document for `err`.
pub fn error_report(err: &CliError) -> (j: Json)
    ensures
        is_error_report(j, *err),
{
    let mut inner: Vec<(String, Json)> = Vec::new();
    inner.push((String::from_str("type"), Json::String(String::from_str(err.error_type()))));
    inner.push((String::from_str("message"), Json::String(err.message().clone())));
    let mut outer: Vec<(String, Json)> = Vec::new();
    outer.push((String::from_str("cli_error"), Json::Object(inner)));
    Json::Object(outer)
}

/// A process exit code carried along with an error.
#[derive(Debug)]
pub struct ExitCode(pub i32);

impl ExitCode {
    /// The exit code of an error.
    pub fn of(err: &CliError) -> (c: ExitCode)
        ensures
            c.0 == err.spec_exit_code(),
    {
        ExitCode(err.exit_code())
    }

    /// The exit code as displayed: `exit <code>`.
    pub fn describe(&self) -> (s: String)
        ensures
            s@ == "exit "@ + signed_decimal(self.0 as int),
    {
        crate::text::concat2("exit ", crate::text::i64_to_decimal(self.0 as i64).as_str())
    }
}

} // verus!
