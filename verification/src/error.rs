//! The library's error values and their printed diagnostics.

use vstd::prelude::*;
use vstd::string::*;

use crate::text::spec_u64_string;
use crate::text::u64_to_string;

verus! {

/// A failure surfaced to the caller.  Rate-limited responses are not errors:
/// they are retried by the caller and never appear here.
#[derive(Clone, Debug)]
pub enum Error {
    /// A response status that neither matched the expected one nor carried a
    /// retry delay.  Carries the full diagnostic context.
    UnexpectedStatus {
        expected: u16,
        actual: u16,
        url: String,
        /// Header names with their values; a value that could not be read as
        /// text is `None` and printed as a placeholder.
        headers: Vec<(String, Option<String>)>,
        /// Response body; `None` when reading it failed, printed as a
        /// placeholder.
        body: Option<String>,
    },
    /// The pagination header has no `rel="last"` entry.
    MissingLastRel,
    /// The `rel="last"` link carries no readable page number.
    MalformedPageNumber,
    /// A notification id that is not a decimal thread id.
    MalformedThreadId { id: String },
    /// A filter pattern that is not a valid regular expression.
    InvalidRegex { message: String },
}

/// The line printed for one response header.
pub open spec fn spec_header_line(h: (String, Option<String>)) -> Seq<char> {
    "\n"@ + h.0@ + " : "@ + match h.1 {
        Some(v) => v@,
        None => "<Not representable in string>"@,
    }
}

/// The lines printed for a header list, in order.
pub open spec fn spec_headers_text(hs: Seq<(String, Option<String>)>) -> Seq<char>
    decreases hs.len(),
{
    if hs.len() == 0 {
        Seq::empty()
    } else {
        spec_headers_text(hs.drop_last()) + spec_header_line(hs.last())
    }
}

/// The full diagnostic printed for an unexpected response status.
pub open spec fn spec_status_message(
    expected: u16,
    actual: u16,
    url: Seq<char>,
    headers: Seq<(String, Option<String>)>,
    body: Option<String>,
) -> Seq<char> {
    "Unexpected HTTP Status "@ + spec_u64_string(actual as int) + " (Expected "@
        + spec_u64_string(expected as int) + ")\nURL: "@ + url + "\nHeaders:"@
        + spec_headers_text(headers) + "\nBody: "@ + match body {
        Some(b) => b@,
        None => "<Failed to get body>"@,
    }
}

impl Error {
    /// What `message` returns for this error.
    pub open spec fn spec_message(self) -> Seq<char> {
        match self {
            Error::UnexpectedStatus { expected, actual, url, headers, body } =>
                spec_status_message(expected, actual, url@, headers@, body),
            Error::MissingLastRel => "no rel=\"last\" entry in the pagination header"@,
            Error::MalformedPageNumber => "malformed page number in the pagination header"@,
            Error::MalformedThreadId { id } => "malformed thread id: "@ + id@,
            Error::InvalidRegex { message } => "invalid filter regex: "@ + message@,
        }
    }

    /// The diagnostic text for this error, as it is printed.
    pub fn message(&self) -> (r: String)
        ensures
            r@ == self.spec_message(),
    {
        match self {
            Error::UnexpectedStatus { expected, actual, url, headers, body } => {
                let mut m = String::new();
                m.append("Unexpected HTTP Status ");
                let actual_s = u64_to_string(*actual as u64);
                m.append(actual_s.as_str());
                m.append(" (Expected ");
                let expected_s = u64_to_string(*expected as u64);
                m.append(expected_s.as_str());
                m.append(")\nURL: ");
                m.append(url.as_str());
                m.append("\nHeaders:");
                let ghost prefix: Seq<char> = m@;
                let mut i: usize = 0;
                while i < headers.len()
                    invariant
                        i <= headers@.len(),
                        m@ == prefix + spec_headers_text(headers@.take(i as int)),
                    decreases headers@.len() - i,
                {
                    m.append("\n");
                    m.append(headers[i].0.as_str());
                    m.append(" : ");
                    match &headers[i].1 {
                        Some(v) => m.append(v.as_str()),
                        None => m.append("<Not representable in string>"),
                    }
                    proof {
                        assert(headers@.take(i as int + 1).drop_last() =~= headers@.take(i as int));
                        assert(headers@.take(i as int + 1).last() == headers@[i as int]);
                        assert(m@ =~= prefix + spec_headers_text(headers@.take(i as int + 1)));
                    }
                    i = i + 1;
                }
                proof {
                    assert(headers@.take(headers@.len() as int) =~= headers@);
                }
                m.append("\nBody: ");
                match body {
                    Some(b) => m.append(b.as_str()),
                    None => m.append("<Failed to get body>"),
                }
                proof {
                    assert(m@ =~= self.spec_message());
                }
                m
            },
            Error::MissingLastRel => {
                String::from_str("no rel=\"last\" entry in the pagination header")
            },
            Error::MalformedPageNumber => {
                String::from_str("malformed page number in the pagination header")
            },
            Error::MalformedThreadId { id } => {
                let mut m = String::from_str("malformed thread id: ");
                m.append(id.as_str());
                m
            },
            Error::InvalidRegex { message } => {
                let mut m = String::from_str("invalid filter regex: ");
                m.append(message.as_str());
                m
            },
        }
    }
}

} // verus!
