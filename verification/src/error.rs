//! What can go wrong, and how it is told.

use vstd::prelude::*;
use vstd::string::StringExecFns;

use crate::text::{decimal, number_text};

verus! {

/// All errors of the memory system.
#[derive(Debug)]
pub enum MemoryError {
    /// A GitHub API call was answered with a status that is not a success.
    GithubApi {
        /// HTTP status code of the answer.
        status: u16,
        /// Human-readable message from GitHub.
        message: String,
    },
    /// The search rate limit was hit.
    RateLimit {
        /// Suggested number of seconds to wait before retrying.
        retry_after_secs: u64,
    },
    /// JSON parsing failed.
    Parse(serde_json::Error),
    /// An HTTP request failed, for the reason given.
    Http(String),
    /// A requested memory entry was not found.
    NotFound {
        /// GitHub issue number of the missing entry.
        issue_number: u64,
    },
    /// The caller provided invalid input, for the reason given.
    InvalidInput(String),
}

/// `Result` with [`MemoryError`] as the error.
pub type Result<T> = std::result::Result<T, MemoryError>;

/// The text by which a `serde_json::Error` tells itself.
pub uninterp spec fn json_error_message(e: serde_json::Error) -> Seq<char>;

/// Calls `to_string` on a `serde_json::Error`, which writes its message and, where it has
/// one, the place in the text.
#[verifier::external_body]
fn json_error_text(e: &serde_json::Error) -> (r: String)
    ensures
        r@ == json_error_message(*e),
{
    e.to_string()
}

impl MemoryError {
    /// The text that tells the error.
    pub open spec fn text(self) -> Seq<char> {
        match self {
            MemoryError::GithubApi { status, message } => "GitHub API error "@ + decimal(
                status as nat,
            ) + ": "@ + message@,
            MemoryError::RateLimit { retry_after_secs } => "Rate limited — retry after "@
                + decimal(retry_after_secs as nat) + "s"@,
            MemoryError::Parse(e) => "Parse error: "@ + json_error_message(e),
            MemoryError::Http(message) => "HTTP error: "@ + message@,
            MemoryError::NotFound { issue_number } => "Memory entry not found: issue #"@ + decimal(
                issue_number as nat,
            ),
            MemoryError::InvalidInput(message) => "Invalid input: "@ + message@,
        }
    }

    /// The text that tells the error.
    pub fn to_string(&self) -> (r: String)
        ensures
            r@ == self.text(),
    {
        let mut r = String::new();
        match self {
            MemoryError::GithubApi { status, message } => {
                r.append("GitHub API error ");
                r.append(number_text(*status as u64).as_str());
                r.append(": ");
                r.append(message.as_str());
            },
            MemoryError::RateLimit { retry_after_secs } => {
                r.append("Rate limited — retry after ");
                r.append(number_text(*retry_after_secs).as_str());
                r.append("s");
            },
            MemoryError::Parse(e) => {
                r.append("Parse error: ");
                r.append(json_error_text(e).as_str());
            },
            MemoryError::Http(message) => {
                r.append("HTTP error: ");
                r.append(message.as_str());
            },
            MemoryError::NotFound { issue_number } => {
                r.append("Memory entry not found: issue #");
                r.append(number_text(*issue_number).as_str());
            },
            MemoryError::InvalidInput(message) => {
                r.append("Invalid input: ");
                r.append(message.as_str());
            },
        }
        assert(r@ =~= self.text());
        r
    }
}

impl From<serde_json::Error> for MemoryError {
    fn from(e: serde_json::Error) -> (r: MemoryError) {
        MemoryError::Parse(e)
    }
}

impl vstd::std_specs::convert::FromSpecImpl<serde_json::Error> for MemoryError {
    open spec fn obeys_from_spec() -> bool {
        true
    }

    open spec fn from_spec(e: serde_json::Error) -> MemoryError {
        MemoryError::Parse(e)
    }
}

} // verus!
