use vstd::prelude::*;
use crate::text::{push_decimal, push_str, spec_decimal};

verus! {

/// A byte range of one resource, both ends included. Hashable because a low-latency
/// playlist routinely names several parts inside a single file, so a range is part of
/// what identifies an item.
#[derive(Debug, Clone, Copy, PartialEq, Eq, Hash, Structural)]
pub struct RequestRange {
    pub start: u64,
    pub end: u64,
}

/// The text of a range: its two ends, joined by a hyphen.
pub open spec fn spec_range_text(r: RequestRange) -> Seq<char> {
    spec_decimal(r.start as nat) + seq!['-'] + spec_decimal(r.end as nat)
}

impl RequestRange {
    /// The range of `length` bytes that starts at `offset`.
    pub fn from_length_with_offset(length: u64, offset: u64) -> (r: RequestRange)
        requires
            1 <= offset + length <= u64::MAX,
        ensures
            r.start == offset,
            r.end == offset + length - 1,
    {
        RequestRange { start: offset, end: (offset + length) - 1 }
    }

    /// The value of an HTTP `Range` header that asks for this range.
    pub fn range_header_value(&self) -> (r: String)
        ensures
            r@ == "bytes="@ + spec_range_text(*self),
    {
        let mut s = String::new();
        push_str(&mut s, "bytes=");
        self.push_text(&mut s);
        proof {
            reveal_strlit("bytes=");
        }
        s
    }

    /// Appends the range's text.
    pub fn push_text(&self, s: &mut String)
        ensures
            final(s)@ == old(s)@ + spec_range_text(*self),
    {
        push_decimal(s, self.start);
        push_str(s, "-");
        push_decimal(s, self.end);
        proof {
            reveal_strlit("-");
            assert(s@ =~= old(s)@ + spec_range_text(*self));
        }
    }

    /// The range as text, `start-end`.
    pub fn to_text(&self) -> (r: String)
        ensures
            r@ == spec_range_text(*self),
    {
        let mut s = String::new();
        self.push_text(&mut s);
        proof {
            assert(s@ =~= spec_range_text(*self));
        }
        s
    }
}

/// A text response and the response headers that its users read.
#[derive(Debug, Clone)]
pub struct FetchTextResponse {
    pub response_text: String,
    /// Final response URL after redirects (may differ from the request URL).
    pub final_url: String,
    pub content_encoding: Option<String>,
    /// `Content-Length` as the server sent it, which is the encoded length: a gzip
    /// response declares fewer bytes here than the text this struct carries.
    pub content_length: Option<u64>,
    pub last_modified: Option<String>,
    pub date: Option<String>,
}

/// Whether a response is the empty one: no text, no URL, no headers.
pub open spec fn spec_is_empty_response(r: FetchTextResponse) -> bool {
    &&& r.response_text@.len() == 0
    &&& r.final_url@.len() == 0
    &&& r.content_encoding is None
    &&& r.content_length is None
    &&& r.last_modified is None
    &&& r.date is None
}

impl Default for FetchTextResponse {
    fn default() -> (r: FetchTextResponse)
        ensures
            spec_is_empty_response(r),
    {
        FetchTextResponse {
            response_text: String::new(),
            final_url: String::new(),
            content_encoding: None,
            content_length: None,
            last_modified: None,
            date: None,
        }
    }
}

impl FetchTextResponse {
    /// The answer to a request for an empty URL, which is never sent.
    pub fn empty() -> (r: FetchTextResponse)
        ensures
            spec_is_empty_response(r),
    {
        FetchTextResponse::default()
    }
}

#[derive(Debug, Clone)]
pub struct FetchArrayBufferResonse {
    pub response_body: Vec<u8>,
    pub content_type: Option<String>,
    pub url: String,
    /// HTTP status code. A ranged request only got its range when this is 206.
    pub status: u16,
}

#[derive(Debug, Clone, PartialEq)]
pub struct FetchError {
    pub error: String,
    pub extra_info: Option<String>,
}

/// How a fetch error reads: the error, then the extra information on a line of its own.
pub open spec fn spec_fetch_error_text(e: FetchError) -> Seq<char> {
    match e.extra_info {
        Some(x) => e.error@ + seq!['\n'] + x@,
        None => e.error@,
    }
}

impl FetchError {
    /// The error as text.
    pub fn to_text(&self) -> (r: String)
        ensures
            r@ == spec_fetch_error_text(*self),
    {
        let mut s = String::new();
        push_str(&mut s, self.error.as_str());
        match &self.extra_info {
            Some(x) => {
                push_str(&mut s, "\n");
                push_str(&mut s, x.as_str());
                proof {
                    reveal_strlit("\n");
                }
            },
            None => {},
        }
        proof {
            assert(s@ =~= spec_fetch_error_text(*self));
        }
        s
    }
}

/// Why a measured fetch produced no measurement.
///
/// A run the user stopped is not a failure and must not be reported as one, and a missing
/// clock is not a duration of zero: both get their own variant so the results can say
/// what actually happened.
#[derive(Debug, Clone, PartialEq)]
pub enum MeasuredFetchError {
    /// The abort signal fired: either Stop, or a new probe superseding this run.
    Cancelled,
    /// `performance.now()` is unavailable, so nothing here can be timed honestly.
    ClockUnavailable,
    /// The server answered, but not with a status the request can be measured against.
    HttpStatus { status: u16, status_text: String },
    /// The fetch itself did not complete: network error, CORS, or a URL the browser
    /// refused to build a request from.
    Failed(FetchError),
}

/// How a measured-fetch error reads.
pub open spec fn spec_measured_error_text(e: MeasuredFetchError) -> Seq<char> {
    match e {
        MeasuredFetchError::Cancelled => "Cancelled"@,
        MeasuredFetchError::ClockUnavailable => "performance.now() is unavailable, so nothing was timed"@,
        MeasuredFetchError::HttpStatus { status, status_text } => "HTTP "@ + spec_decimal(
            status as nat,
        ) + seq![' '] + status_text@,
        MeasuredFetchError::Failed(f) => spec_fetch_error_text(f),
    }
}

impl MeasuredFetchError {
    /// Whether the user, or a newer run, stopped the fetch.
    pub fn is_cancelled(&self) -> (r: bool)
        ensures
            r == (*self is Cancelled),
    {
        match self {
            MeasuredFetchError::Cancelled => true,
            _ => false,
        }
    }

    /// The error as text.
    pub fn to_text(&self) -> (r: String)
        ensures
            r@ == spec_measured_error_text(*self),
    {
        match self {
            MeasuredFetchError::Cancelled => String::from_str("Cancelled"),
            MeasuredFetchError::ClockUnavailable => String::from_str(
                "performance.now() is unavailable, so nothing was timed",
            ),
            MeasuredFetchError::HttpStatus { status, status_text } => {
                let mut s = String::from_str("HTTP ");
                push_decimal(&mut s, *status as u64);
                push_str(&mut s, " ");
                push_str(&mut s, status_text.as_str());
                proof {
                    reveal_strlit(" ");
                    assert(s@ =~= spec_measured_error_text(*self));
                }
                s
            },
            MeasuredFetchError::Failed(f) => f.to_text(),
        }
    }
}

} // verus!
