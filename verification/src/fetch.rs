//! What one fetch brought back, and what the run makes of it.

use vstd::prelude::*;
use vstd::string::*;
use crate::text::{decimal, decimal_text, occurs_at, occurs_in};

verus! {

/// What came back from one HTTP GET.
#[derive(Debug)]
pub enum FetchReply {
    /// The server answered and the body was received in full.
    Response { status: u16, body: Vec<u8> },
    /// No full answer arrived: a network error, a timeout, a body cut short.
    Failure { cause: String },
}

/// The status codes that count as success: the 2xx range.
pub open spec fn is_success_status(status: u16) -> bool {
    200 <= status < 300
}

/// The text that the cause of a refused status starts with.
pub open spec fn status_cause_prefix() -> Seq<char> {
    "HTTP status "@
}

/// The text that a failure line starts with.
pub open spec fn failure_prefix() -> Seq<char> {
    "Failed to download "@
}

/// The text between the URL and the cause in a failure line.
pub open spec fn failure_separator() -> Seq<char> {
    ": "@
}

/// The log line for a fetch of `url` that failed for `cause`.
pub open spec fn failure_line(url: Seq<char>, cause: Seq<char>) -> Seq<char> {
    failure_prefix() + url + failure_separator() + cause
}

impl FetchReply {
    /// The payload that the fetch yields: the body of an answer with a 2xx
    /// status. Any other reply is a failure and yields none.
    pub open spec fn payload(&self) -> Option<Seq<u8>> {
        match self {
            FetchReply::Response { status, body } => if is_success_status(*status) {
                Some(body@)
            } else {
                None
            },
            FetchReply::Failure { .. } => None,
        }
    }

    /// Why the fetch failed, for a reply that yields no payload: the status
    /// that was refused, or the cause that the transport gave.
    pub open spec fn cause(&self) -> Seq<char> {
        match self {
            FetchReply::Response { status, .. } => status_cause_prefix() + decimal(*status as nat),
            FetchReply::Failure { cause } => cause@,
        }
    }

    /// Whether the fetch succeeded.
    pub fn succeeded(&self) -> (success: bool)
        ensures
            success == self.payload() is Some,
    {
        match self {
            FetchReply::Response { status, .. } => 200 <= *status && *status < 300,
            FetchReply::Failure { .. } => false,
        }
    }

    /// Splits the reply into the payload of a success or the cause of a failure.
    pub fn into_outcome(self) -> (outcome: Result<Vec<u8>, String>)
        ensures
            match outcome {
                Ok(body) => self.payload() == Some(body@),
                Err(cause) => self.payload() is None && cause@ == self.cause(),
            },
    {
        match self {
            FetchReply::Response { status, body } => {
                if 200 <= status && status < 300 {
                    Ok(body)
                } else {
                    let mut cause = String::from_str("HTTP status ");
                    let code = decimal_text(status as u64);
                    cause.append(code.as_str());
                    Err(cause)
                }
            },
            FetchReply::Failure { cause } => Err(cause),
        }
    }
}

/// A failure line holds the URL that it is about.
pub proof fn law_failure_line_names_url(url: Seq<char>, cause: Seq<char>)
    ensures
        occurs_at(failure_line(url, cause), failure_prefix().len() as int, url),
        occurs_in(failure_line(url, cause), url),
{
    let line = failure_line(url, cause);
    let at: int = failure_prefix().len() as int;
    assert(line.subrange(at, at + url.len()) =~= url);
    assert(occurs_at(line, at, url));
}

/// Renders the log line for a fetch of `url` that failed for `cause`. The
/// line holds the URL right after its fixed beginning.
pub fn failure_line_text(url: &str, cause: &str) -> (line: String)
    ensures
        line@ == failure_line(url@, cause@),
        occurs_at(line@, failure_prefix().len() as int, url@),
        occurs_in(line@, url@),
{
    let mut line = String::from_str("Failed to download ");
    line.append(url);
    line.append(": ");
    line.append(cause);
    proof {
        law_failure_line_names_url(url@, cause@);
    }
    line
}

} // verus!
