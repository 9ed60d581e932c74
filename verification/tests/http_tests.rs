use diane::datetime::parse_http_date;
use diane::http::{extract_date_value, find_blank_line, http_get_request, response_body};

const RESPONSE: &[u8] = b"HTTP/1.1 200 OK\r\ndate: Sun, 06 Nov 1994 08:49:37 GMT\r\nconnection: close\r\n\r\nhello world";

#[test]
fn request_line_for_host() {
    let req = http_get_request(b"example.com");
    assert_eq!(
        req,
        b"GET / HTTP/1.1\r\nHost: example.com\r\nConnection: close\r\n\r\n".to_vec()
    );
}

#[test]
fn date_header_value_extracted() {
    let v = extract_date_value(RESPONSE).unwrap();
    assert_eq!(v, b"Sun, 06 Nov 1994 08:49:37 GMT");
    assert_eq!(parse_http_date(v), Some(784_111_777));
}

#[test]
fn date_header_value_is_trimmed() {
    let resp = b"HTTP/1.1 200 OK\r\ndate:   padded value \r\n\r\n";
    assert_eq!(extract_date_value(resp).unwrap(), b"padded value");
}

#[test]
fn all_space_date_value_is_empty() {
    let resp = b"HTTP/1.1 200 OK\r\ndate:    \r\n\r\n";
    assert_eq!(extract_date_value(resp).unwrap(), b"");
}

#[test]
fn missing_date_header() {
    let resp = b"HTTP/1.1 200 OK\r\nserver: x\r\n\r\nbody";
    assert_eq!(extract_date_value(resp), None);
    // The scan matches the lower-case header name only.
    let upper = b"HTTP/1.1 200 OK\r\nDate: Sun, 06 Nov 1994 08:49:37 GMT\r\n\r\n";
    assert_eq!(extract_date_value(upper), None);
}

#[test]
fn date_header_on_first_line() {
    let resp = b"date: x\r\n\r\n";
    assert_eq!(extract_date_value(resp).unwrap(), b"x");
}

#[test]
fn body_after_blank_line() {
    assert_eq!(response_body(RESPONSE), b"hello world");
    assert_eq!(find_blank_line(b"ab"), None);
    assert_eq!(response_body(b"no blank line"), b"");
    assert_eq!(response_body(b"x\r\n\r\n"), b"");
}
