use vstd::prelude::*;
use vstd::string::*;
use vstd::utf8::*;

use crate::error::HttpError;
use crate::headers::{
    fields_error, fields_fit, header_block, host_key, lookup, push_bytes, raw_fields, FieldView,
    Headers,
};

verus! {

#[verifier::external_type_specification]
#[verifier::external_body]
pub struct ExUrlParseError(url::ParseError);

/// A URL as the request reads it: scheme, host, explicit port and path.
pub type UrlParts = (Seq<char>, Option<Seq<char>>, Option<u16>, Seq<char>);

/// What `url::Url::parse` makes of a text, read back as its parts; `None`
/// where the text is no absolute URL.
pub uninterp spec fn parsed_url(text: Seq<char>) -> Option<UrlParts>;

/// The parts of a parsed URL that resolution and forwarding read.
#[derive(Debug)]
pub struct TargetUrl {
    pub scheme: String,
    pub host: Option<String>,
    pub port: Option<u16>,
    pub path: String,
}

impl View for TargetUrl {
    type V = UrlParts;

    open spec fn view(&self) -> UrlParts {
        (
            self.scheme@,
            match self.host {
                Some(h) => Some(h@),
                None => None,
            },
            self.port,
            self.path@,
        )
    }
}

/// Relies on url::Url::parse, read back through Url::scheme, Url::host_str,
/// Url::port and Url::path: the result depends on the text alone.
#[verifier::external_body]
fn parse_url(text: &str) -> (r: Result<TargetUrl, url::ParseError>)
    ensures
        r is Ok <==> parsed_url(text@) is Some,
        r matches Ok(u) ==> parsed_url(text@) == Some(u@),
{
    match url::Url::parse(text) {
        Ok(u) => Ok(
            TargetUrl {
                scheme: u.scheme().to_string(),
                host: u.host_str().map(|h| h.to_string()),
                port: u.port(),
                path: u.path().to_string(),
            },
        ),
        Err(e) => Err(e),
    }
}

/// Origin-form: a `/` occurs before any `:`.
pub open spec fn is_relative(target: Seq<char>) -> bool {
    exists|i: int|
        0 <= i < target.len() && target[i] == '/' && forall|j: int|
            0 <= j < i ==> #[trigger] target[j] != ':'
}

/// Whether a request target is a path rather than an absolute URL.
pub fn url_is_relative(url: &str) -> (r: bool)
    ensures
        r == is_relative(url@),
{
    let n = url.unicode_len();
    let mut i: usize = 0;
    while i < n
        invariant
            n == url@.len(),
            i <= n,
            forall|j: int| 0 <= j < i ==> #[trigger] url@[j] != '/' && url@[j] != ':',
        decreases n - i,
    {
        let c = url.get_char(i);
        if c == '/' {
            return true;
        }
        if c == ':' {
            assert forall|k: int| 0 <= k < url@.len() && url@[k] == '/' implies !(forall|j: int|
                0 <= j < k ==> #[trigger] url@[j] != ':') by {
                assert(k > i);
                assert(url@[i as int] == ':');
            }
            return false;
        }
        i = i + 1;
    }
    false
}

/// The text of the earliest `Host` field.
pub open spec fn host_text(fs: Seq<FieldView>) -> Option<Seq<char>> {
    match lookup(fs, host_key()) {
        Some(v) => Some(decode_utf8(v)),
        None => None,
    }
}

pub open spec fn scheme_prefix(secure: bool) -> Seq<char> {
    if secure {
        "https://"@
    } else {
        "http://"@
    }
}

/// The absolute form of a request target: a relative one is joined to the
/// scheme and the `Host` value; `None` where that value is missing.
pub open spec fn resolved_target(target: Seq<char>, host: Option<Seq<char>>, secure: bool) -> Option<
    Seq<char>,
> {
    if is_relative(target) {
        match host {
            Some(h) => Some(scheme_prefix(secure) + h + target),
            None => None,
        }
    } else {
        Some(target)
    }
}

/// Decimal digits of a number, most significant first.
pub open spec fn decimal_bytes(n: nat) -> Seq<u8>
    decreases n,
{
    if n < 10 {
        seq![(48 + n) as u8]
    } else {
        decimal_bytes(n / 10) + seq![(48 + n % 10) as u8]
    }
}

/// `METHOD path HTTP/1.minor\r\n`
pub open spec fn request_line(method: Seq<char>, path: Seq<char>, minor: u8) -> Seq<u8> {
    encode_utf8(method) + seq![32u8] + encode_utf8(path) + seq![32u8, 72u8, 84u8, 84u8, 80u8, 47u8, 49u8, 46u8]
        + decimal_bytes(minor as nat) + seq![13u8, 10u8]
}

/// The port to reach: the URL's own, else the scheme's default.
pub open spec fn port_of(url: UrlParts) -> Option<u16> {
    match url.2 {
        Some(p) => Some(p),
        None => if url.0 == "http"@ {
            Some(80u16)
        } else if url.0 == "https"@ {
            Some(443u16)
        } else {
            None
        },
    }
}

/// Appends the decimal digits of `n`.
fn push_decimal(out: &mut Vec<u8>, n: u8)
    ensures
        final(out)@ == old(out)@ + decimal_bytes(n as nat),
{
    reveal_with_fuel(decimal_bytes, 3);
    if n >= 100 {
        out.push(48 + n / 100);
        out.push(48 + (n / 10) % 10);
        out.push(48 + n % 10);
    } else if n >= 10 {
        out.push(48 + n / 10);
        out.push(48 + n % 10);
    } else {
        out.push(48 + n);
    }
    assert(final(out)@ =~= old(out)@ + decimal_bytes(n as nat));
}

/// An inbound request: method, resolved target, minor protocol version and
/// its validated header fields.
#[derive(Debug)]
pub struct Request {
    pub url: TargetUrl,
    pub method: String,
    pub version: u8,
    pub headers: Headers,
}

impl Request {
    /// Builds a request from its parsed request line and header list: the
    /// headers are built and validated first, then the target is resolved
    /// (against `Host` where it is relative) and parsed as a URL.
    pub fn from_raw(
        method: &str,
        path: &str,
        version: u8,
        raw: &[(&str, &[u8])],
        secure: bool,
    ) -> (r: Result<Request, HttpError>)
        requires
            fields_fit(raw_fields(raw@)),
        ensures
            match fields_error(raw_fields(raw@)) {
                Some(e) => r == Err::<Request, HttpError>(e),
                None => match resolved_target(path@, host_text(raw_fields(raw@)), secure) {
                    None => r == Err::<Request, HttpError>(HttpError::MissingHost),
                    Some(t) => match parsed_url(t) {
                        None => r == Err::<Request, HttpError>(HttpError::InvalidUrl),
                        Some(p) => r matches Ok(req) && req.headers.wf() && req.url@ == p
                            && req.method@ == method@ && req.version == version && req.headers@
                            == raw_fields(raw@),
                    },
                },
            },
    {
        let headers = match Headers::from_raw(raw) {
            Ok(h) => h,
            Err(e) => {
                return Err(e);
            },
        };
        let host = String::from_str("host");
        let text: String = if url_is_relative(path) {
            let mut t = if secure {
                String::from_str("https://")
            } else {
                String::from_str("http://")
            };
            match headers.get_text(&host) {
                Some(h) => t.append(h.as_str()),
                None => {
                    return Err(HttpError::MissingHost);
                },
            }
            t.append(path);
            t
        } else {
            path.to_owned()
        };
        match parse_url(text.as_str()) {
            Ok(url) => Ok(Request { url, method: method.to_owned(), version, headers }),
            Err(_) => Err(HttpError::InvalidUrl),
        }
    }

    /// The request line, then the header block; the body is not included.
    pub fn serialize(&self) -> (r: Vec<u8>)
        requires
            self.headers.wf(),
            header_block(self.headers@).len() <= usize::MAX,
        ensures
            r@ == request_line(self.method@, self.url@.3, self.version) + header_block(
                self.headers@,
            ),
    {
        let mut out: Vec<u8> = Vec::new();
        push_bytes(&mut out, self.method.as_str().as_bytes());
        out.push(32u8);
        push_bytes(&mut out, self.url.path.as_str().as_bytes());
        out.push(32u8);
        out.push(72u8);
        out.push(84u8);
        out.push(84u8);
        out.push(80u8);
        out.push(47u8);
        out.push(49u8);
        out.push(46u8);
        push_decimal(&mut out, self.version);
        out.push(13u8);
        out.push(10u8);
        let block = self.headers.to_utf8();
        push_bytes(&mut out, block.as_slice());
        assert(out@ =~= request_line(self.method@, self.url@.3, self.version) + header_block(
            self.headers@,
        ));
        out
    }

    /// Where to connect: the URL's host, and its port or the scheme's default.
    pub fn upstream_address(&self) -> (r: Result<(String, u16), HttpError>)
        ensures
            self.url@.1 is None ==> r == Err::<(String, u16), HttpError>(HttpError::MissingUrlHost),
            self.url@.1 is Some && port_of(self.url@) is None ==> r == Err::<(String, u16), HttpError>(
                HttpError::UnsupportedScheme,
            ),
            self.url@.1 is Some && port_of(self.url@) is Some ==> (r matches Ok(a) && Some(a.0@)
                == self.url@.1 && Some(a.1) == port_of(self.url@)),
    {
        let host = match &self.url.host {
            Some(h) => h.clone(),
            None => {
                return Err(HttpError::MissingUrlHost);
            },
        };
        let port = match self.url.port {
            Some(p) => p,
            None => {
                if self.url.scheme == String::from_str("http") {
                    80u16
                } else if self.url.scheme == String::from_str("https") {
                    443u16
                } else {
                    return Err(HttpError::UnsupportedScheme);
                }
            },
        };
        Ok((host, port))
    }
}

} // verus!
