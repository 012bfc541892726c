use vstd::prelude::*;

verus! {

/// Everything that can go wrong while building or forwarding a request.
#[derive(Debug, Clone, Copy, PartialEq, Eq, Structural)]
pub enum HttpError {
    /// More than one `Host` or more than one `Content-Length` field.
    DuplicateHeader,
    /// A header value that is not valid UTF-8.
    InvalidUtf8HeaderValue,
    /// A `Content-Length` value that is not an unsigned decimal integer.
    ContentLengthParse,
    /// A relative request target without a `Host` field to resolve it.
    MissingHost,
    /// A request target that does not parse as a URL.
    InvalidUrl,
    /// A URL without a port whose scheme is neither `http` nor `https`.
    UnsupportedScheme,
    /// A URL whose host is missing.
    MissingUrlHost,
}

} // verus!
