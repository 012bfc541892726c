use octopus::error::HttpError;
use octopus::headers::{parse_decimal, Headers, OctopusHeader, DEFAULT_INTO_BUFFER_CAPACITY};

fn create_huge_headers() -> Headers {
    // Greatly exceed the default header capacity with demo headers.
    let mut headers = Headers::new();
    let test_value: Vec<u8> = "Test-Value".as_bytes().iter().cloned().collect();
    for _ in 0..DEFAULT_INTO_BUFFER_CAPACITY {
        headers.insert("Test-Header", &test_value).unwrap();
    }
    headers
}

fn create_standard_headers() -> (Vec<u8>, Headers) {
    let headers_buf = b"Cache-Control: private, max-age=0\r\nContent-Encoding: gzip\r\nContent-Type: text/html; charset=UTF-8\r\nDate: Sat 28 Jan 2017 10:10:10 GMT\r\nExpires: -1\r\nServer: Foobar Server\r\nStrict-Transport-Security: max-age=86400\r\nX-XSS-Protection: 1; mode=block\r\nX-Frame-Options: SAMEORIGIN\r\n\r\n";
    let mut headers = [httparse::EMPTY_HEADER; 64];
    let (_, parsed) = httparse::parse_headers(headers_buf, &mut headers).unwrap().unwrap();
    let raw: Vec<(&str, &[u8])> = parsed.iter().map(|h| (h.name, h.value)).collect();
    (headers_buf.iter().cloned().collect(), Headers::from_raw(&raw).unwrap())
}

fn from_buffer(buf: &[u8]) -> Result<Headers, HttpError> {
    let mut headers = [httparse::EMPTY_HEADER; 4];
    let (_, parsed) = httparse::parse_headers(buf, &mut headers).unwrap().unwrap();
    let raw: Vec<(&str, &[u8])> = parsed.iter().map(|h| (h.name, h.value)).collect();
    Headers::from_raw(&raw)
}

#[test]
fn test_headers() {
    let mut headers = Headers::new();
    let value: Vec<u8> = "google.com".as_bytes().iter().cloned().collect();
    headers.insert("Host", &value).unwrap();

    let host_result = headers.get("Host");
    assert!(host_result.is_some());
    assert_eq!(*host_result.unwrap(), value);
    assert_eq!(headers.get("Most"), None);
}

#[test]
fn test_multiple_content_length() {
    let mut headers = Headers::new();
    let value1: Vec<u8> = "1234".as_bytes().iter().cloned().collect();
    let value2: Vec<u8> = "5678".as_bytes().iter().cloned().collect();
    headers.insert("Content-Length", &value1).unwrap();
    headers.insert("Content-Length", &value2).unwrap();

    assert_eq!(headers.content_length(), Ok(Some(1234)));
}

#[test]
fn test_good_parse() {
    let result = from_buffer(b"Host: foo.bar\r\nContent-Length: 10\r\nAccept: *\r\n\r\n");
    assert!(result.is_ok());
}

#[test]
fn test_bad_parse_1() {
    let result =
        from_buffer(b"Host: foo.bar\r\nContent-Length: 10\r\nAccept: *\r\nHost: bar.baz\r\n\r\n");
    assert!(result.is_err());
}

#[test]
fn test_bad_parse_2() {
    let result = from_buffer(
        b"Host: foo.bar\r\nContent-Length: 10\r\nAccept: *\r\nContent-Length: 15\r\n\r\n",
    );
    assert!(result.is_err());
}

#[test]
fn test_small_into() {
    let (source, headers) = create_standard_headers();
    let buffer: Vec<u8> = headers.to_utf8();
    assert_eq!(String::from_utf8(buffer).unwrap(), String::from_utf8(source).unwrap());
}

#[test]
fn test_massive_into() {
    let headers = create_huge_headers();
    let buffer: Vec<u8> = headers.to_utf8();
    assert!(buffer.len() > DEFAULT_INTO_BUFFER_CAPACITY);
}

#[test]
fn massive_block_has_only_whole_lines() {
    let headers = create_huge_headers();
    let buffer = headers.to_utf8();
    let line = b"Test-Header: Test-Value\r\n";
    assert_eq!(buffer.len(), line.len() * DEFAULT_INTO_BUFFER_CAPACITY + 2);
    for i in 0..DEFAULT_INTO_BUFFER_CAPACITY {
        assert_eq!(&buffer[i * line.len()..(i + 1) * line.len()], &line[..]);
    }
    assert_eq!(&buffer[buffer.len() - 2..], b"\r\n");
}

#[test]
fn duplicate_names_keep_insertion_order() {
    let mut headers = Headers::new();
    headers.insert("A", &b"1".to_vec()).unwrap();
    headers.insert("B", &b"2".to_vec()).unwrap();
    headers.insert("a", &b"3".to_vec()).unwrap();
    headers.insert("C", &b"4".to_vec()).unwrap();
    assert_eq!(headers.len(), 4);
    assert_eq!(headers.to_utf8(), b"A: 1\r\nB: 2\r\na: 3\r\nC: 4\r\n\r\n".to_vec());
    assert_eq!(headers.get("A"), Some(&b"1".to_vec()));
    assert!(headers.validate());
}

#[test]
fn lookup_ignores_case() {
    let mut headers = Headers::new();
    let value = b"example.com".to_vec();
    headers.insert("Host", &value).unwrap();
    assert_eq!(headers.get("host"), Some(&value));
    assert_eq!(headers.get("HOST"), Some(&value));
    assert_eq!(headers.get("hOsT"), Some(&value));
    assert_eq!(headers.get("Hos"), None);
}

#[test]
fn two_host_fields_fail_validation() {
    let mut headers = Headers::new();
    headers.insert("Host", &b"a".to_vec()).unwrap();
    assert!(headers.validate());
    headers.insert("host", &b"b".to_vec()).unwrap();
    assert!(!headers.validate());
}

#[test]
fn two_content_length_fields_fail_validation() {
    let mut headers = Headers::new();
    headers.insert("Content-Length", &b"1".to_vec()).unwrap();
    headers.insert("CONTENT-LENGTH", &b"1".to_vec()).unwrap();
    assert!(!headers.validate());
}

#[test]
fn empty_store_serializes_to_terminator() {
    let headers = Headers::new();
    assert_eq!(headers.to_utf8(), b"\r\n".to_vec());
    assert!(headers.validate());
    assert_eq!(headers.content_length(), Ok(None));
}

#[test]
fn content_length_absent_and_invalid() {
    let mut headers = Headers::new();
    headers.insert("Accept", &b"*".to_vec()).unwrap();
    assert_eq!(headers.content_length(), Ok(None));
    headers.insert("Content-Length", &b"ten".to_vec()).unwrap();
    assert_eq!(headers.content_length(), Err(HttpError::ContentLengthParse));
}

#[test]
fn invalid_utf8_value_is_rejected() {
    let mut headers = Headers::new();
    assert_eq!(headers.insert("X", &vec![0xff, 0xfe]), Err(HttpError::InvalidUtf8HeaderValue));
    assert_eq!(headers.len(), 0);
    let raw: Vec<(&str, &[u8])> = vec![("Host", &b"a"[..]), ("X", &[0xc3u8][..])];
    assert_eq!(Headers::from_raw(&raw).err(), Some(HttpError::InvalidUtf8HeaderValue));
}

#[test]
fn duplicate_error_from_raw() {
    let raw: Vec<(&str, &[u8])> = vec![("Host", &b"a"[..]), ("Accept", &b"*"[..]), ("HOST", &b"b"[..])];
    assert_eq!(Headers::from_raw(&raw).err(), Some(HttpError::DuplicateHeader));
}

#[test]
fn header_field_accessors() {
    let h = OctopusHeader::new("X-Name".to_string(), &"vålue".as_bytes().to_vec(), 7).unwrap();
    assert_eq!(h.original_name(), "X-Name");
    assert_eq!(h.value(), &"vålue".as_bytes().to_vec());
    assert_eq!(h.value_str(), "vålue");
    assert_eq!(h.order(), 7);
    assert_eq!(h.length_hint(), 6 + 6 + 4);
    assert!(OctopusHeader::new("X".to_string(), &vec![0x80], 0).is_err());
}

#[test]
fn decimal_parsing_edges() {
    assert_eq!(parse_decimal(b"0"), Some(0));
    assert_eq!(parse_decimal(b"+42"), Some(42));
    assert_eq!(parse_decimal(b""), None);
    assert_eq!(parse_decimal(b"+"), None);
    assert_eq!(parse_decimal(b"-1"), None);
    assert_eq!(parse_decimal(b"12a"), None);
    assert_eq!(parse_decimal(b" 1"), None);
    let max = usize::MAX.to_string();
    assert_eq!(parse_decimal(max.as_bytes()), Some(usize::MAX));
    let over = format!("{}0", usize::MAX);
    assert_eq!(parse_decimal(over.as_bytes()), None);
    assert_eq!(parse_decimal(b"18446744073709551616"), None);
}

#[test]
fn scenario_content_length_ten() {
    let headers =
        from_buffer(b"Host: foo.bar\r\nContent-Length: 10\r\nAccept: *\r\n\r\n").unwrap();
    assert_eq!(headers.content_length(), Ok(Some(10)));
}

#[test]
fn scenario_two_hosts_is_duplicate_error() {
    let result =
        from_buffer(b"Host: foo.bar\r\nContent-Length: 10\r\nAccept: *\r\nHost: bar.baz\r\n\r\n");
    assert_eq!(result.err(), Some(HttpError::DuplicateHeader));
}

#[test]
fn lookup_folds_non_ascii_names() {
    let mut headers = Headers::new();
    let value = b"accent".to_vec();
    headers.insert("\u{c9}tiquette", &value).unwrap();
    assert_eq!(headers.get("\u{e9}tiquette"), Some(&value));
    assert_eq!(headers.get("\u{c9}TIQUETTE"), Some(&value));
    assert_eq!(headers.get("etiquette"), None);
    assert_eq!(headers.to_utf8(), "\u{c9}tiquette: accent\r\n\r\n".as_bytes().to_vec());
}

#[test]
fn value_text_matches_value_bytes() {
    let h = OctopusHeader::new("X".to_string(), &"caf\u{e9}".as_bytes().to_vec(), 0).unwrap();
    assert_eq!(h.value_str().as_bytes(), h.value().as_slice());
}
