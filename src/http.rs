//! Query-format negotiation and profiling defaults of the HTTP front end.
use vstd::prelude::*;
use vstd::slice::slice_to_vec;
use vstd::string::StringSliceAdditionalSpecFns;
use vstd::utf8::{decode_utf8, valid_utf8};
use std::string::FromUtf8Error;

verus! {

#[verifier::external_type_specification]
#[verifier::external_body]
pub struct ExFromUtf8Error(FromUtf8Error);

/// Relies on `String::from_utf8`: it succeeds exactly when the bytes are valid UTF-8, and the
/// string then holds the characters they encode.
#[verifier::external_body]
fn string_from_utf8(bytes: Vec<u8>) -> (r: Result<String, FromUtf8Error>)
    ensures
        r is Ok <==> valid_utf8(bytes@),
        r matches Ok(s) ==> s@ == decode_utf8(bytes@),
{
    String::from_utf8(bytes)
}

/// Errors in the parameters of a query request.
#[derive(Debug)]
pub enum QueryParamsError {
    /// The `Accept` header names a media type that no output format serves.
    InvalidMimeType(String),
    /// The `Accept` header is not valid UTF-8.
    NonUtf8MimeType(FromUtf8Error),
}

/// Output formats of query results.
#[derive(Clone, Copy, Debug, PartialEq, Eq, Structural)]
pub enum QueryFormat {
    Parquet,
    Csv,
    Pretty,
    Json,
}

/// The `Content-Type` of a response in format `f`.
pub open spec fn content_type_of(f: QueryFormat) -> Seq<char> {
    match f {
        QueryFormat::Parquet => "application/vnd.apache.parquet"@,
        QueryFormat::Csv => "text/csv"@,
        QueryFormat::Pretty => "text/plain; charset=utf-8"@,
        QueryFormat::Json => "application/json"@,
    }
}

/// The format that an `Accept` media type asks for, if any serves it.
pub open spec fn format_for_mime(mime: Seq<u8>) -> Option<QueryFormat> {
    if mime == "application/vnd.apache.parquet".spec_bytes() {
        Some(QueryFormat::Parquet)
    } else if mime == "text/csv".spec_bytes() {
        Some(QueryFormat::Csv)
    } else if mime == "text/plain".spec_bytes() {
        Some(QueryFormat::Pretty)
    } else if mime == "application/json".spec_bytes() || mime == "*/*".spec_bytes() {
        Some(QueryFormat::Json)
    } else {
        None
    }
}

/// `r` is the outcome of negotiating the format of a query that names `requested`, with
/// `Accept` header `accept`.
pub open spec fn negotiated(
    requested: Option<QueryFormat>,
    accept: Option<&[u8]>,
    r: Result<QueryFormat, QueryParamsError>,
) -> bool {
    match requested {
        Some(f) => r == Ok::<QueryFormat, QueryParamsError>(f),
        None => match accept {
            None => r == Ok::<QueryFormat, QueryParamsError>(QueryFormat::Json),
            Some(mime) => match format_for_mime(mime@) {
                Some(f) => r == Ok::<QueryFormat, QueryParamsError>(f),
                None => if valid_utf8(mime@) {
                    &&& r matches Err(QueryParamsError::InvalidMimeType(s))
                    &&& s@ == decode_utf8(mime@)
                } else {
                    r matches Err(QueryParamsError::NonUtf8MimeType(_))
                },
            },
        },
    }
}

fn bytes_eq(a: &[u8], b: &[u8]) -> (r: bool)
    ensures
        r == (a@ == b@),
{
    if a.len() != b.len() {
        return false;
    }
    let mut i: usize = 0;
    while i < a.len()
        invariant
            a@.len() == b@.len(),
            i <= a@.len(),
            a@.take(i as int) == b@.take(i as int),
        decreases a.len() - i,
    {
        if a[i] != b[i] {
            assert(a@[i as int] != b@[i as int]);
            return false;
        }
        assert(a@.take(i + 1) =~= a@.take(i as int).push(a@[i as int]));
        assert(b@.take(i + 1) =~= b@.take(i as int).push(b@[i as int]));
        i = i + 1;
    }
    assert(a@ =~= a@.take(i as int));
    assert(b@ =~= b@.take(i as int));
    true
}

impl QueryFormat {
    /// The `Content-Type` header value of a response in this format.
    pub fn as_content_type(&self) -> (r: &'static str)
        ensures
            r@ == content_type_of(*self),
    {
        match self {
            QueryFormat::Parquet => "application/vnd.apache.parquet",
            QueryFormat::Csv => "text/csv",
            QueryFormat::Pretty => "text/plain; charset=utf-8",
            QueryFormat::Json => "application/json",
        }
    }

    /// The format a query answers in: the one the request names, else the one its `Accept`
    /// header asks for, JSON when there is no such header.
    pub fn negotiate(requested: Option<QueryFormat>, accept: Option<&[u8]>) -> (r: Result<
        QueryFormat,
        QueryParamsError,
    >)
        ensures
            negotiated(requested, accept, r),
    {
        match requested {
            Some(f) => Ok(f),
            None => match accept {
                None => Ok(QueryFormat::Json),
                Some(mime) => {
                    if bytes_eq(mime, "application/vnd.apache.parquet".as_bytes()) {
                        Ok(QueryFormat::Parquet)
                    } else if bytes_eq(mime, "text/csv".as_bytes()) {
                        Ok(QueryFormat::Csv)
                    } else if bytes_eq(mime, "text/plain".as_bytes()) {
                        Ok(QueryFormat::Pretty)
                    } else if bytes_eq(mime, "application/json".as_bytes()) || bytes_eq(
                        mime,
                        "*/*".as_bytes(),
                    ) {
                        Ok(QueryFormat::Json)
                    } else {
                        match string_from_utf8(slice_to_vec(mime)) {
                            Ok(s) => Err(QueryParamsError::InvalidMimeType(s)),
                            Err(e) => Err(QueryParamsError::NonUtf8MimeType(e)),
                        }
                    }
                },
            },
        }
    }
}

/// Parameters of a CPU profile request.
#[derive(Clone, Copy, Debug, PartialEq, Eq, Structural)]
pub struct PProfArgs {
    /// How long to profile.
    pub seconds: u64,
    /// Samples per second; never zero.
    pub frequency: i32,
}

impl PProfArgs {
    pub open spec fn wf(self) -> bool {
        self.frequency != 0
    }

    /// Seconds to profile when the request does not say.
    pub fn default_seconds() -> (r: u64)
        ensures
            r == 30,
    {
        30
    }

    /// Sampling frequency when the request does not say: 99 Hz, off the round periods other
    /// activity tends to follow.
    pub fn default_frequency() -> (r: i32)
        ensures
            r == 99,
    {
        99
    }
}

/// Parameters of an allocation profile request.
#[derive(Clone, Copy, Debug, PartialEq, Eq, Structural)]
pub struct PProfAllocsArgs {
    /// How long to profile.
    pub seconds: u64,
    /// Bytes allocated between two samples; never zero.
    pub interval: i32,
}

impl PProfAllocsArgs {
    pub open spec fn wf(self) -> bool {
        self.interval != 0
    }

    /// Seconds to profile when the request does not say.
    pub fn default_seconds() -> (r: u64)
        ensures
            r == 30,
    {
        30
    }

    /// Sampling interval when the request does not say: every allocation is sampled.
    pub fn default_interval() -> (r: i32)
        ensures
            r == 1,
    {
        1
    }
}

} // verus!
