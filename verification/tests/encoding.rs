use libnet::backend::request::{headers_to_strings, DoH3Request, Header};
use libnet::encoding::hex_dump;
use libnet::text::{cut, find_char, join, strip_prefix};

fn texts(headers: &Vec<Header>) -> Vec<(String, String)> {
    headers_to_strings(headers)
}

fn query(dns_payload: &[u8]) -> String {
    let headers = DoH3Request::make_dns_request_header("dns.google", None, dns_payload);
    texts(&headers)[3].1.clone()
}

#[test]
fn query_without_path() {
    let headers = DoH3Request::make_dns_request_header("dns.google", None, b"foobar");
    let expected: Vec<(String, String)> = vec![
        (":method".to_string(), "GET".to_string()),
        (":scheme".to_string(), "https".to_string()),
        (":authority".to_string(), "dns.google".to_string()),
        (":path".to_string(), "/dns-query?dns=Zm9vYmFy".to_string()),
        ("accept".to_string(), "application/dns-message".to_string()),
    ];
    assert_eq!(texts(&headers), expected);
}

#[test]
fn query_with_path() {
    let path = Some("/0a1b".to_string());
    let headers = DoH3Request::make_dns_request_header("dns.example", path, b"foobar");
    let expected: Vec<(String, String)> = vec![
        (
            ":method".to_string(),
            "GET /0a1b/dns-query?dns=Zm9vYmFy HTTP/1.1".to_string(),
        ),
        (":scheme".to_string(), "https".to_string()),
        (":host".to_string(), "dns.example".to_string()),
        ("accept".to_string(), "application/dns-message".to_string()),
    ];
    assert_eq!(texts(&headers), expected);
}

#[test]
fn base64_has_no_padding() {
    assert_eq!(query(b""), "/dns-query?dns=");
    assert_eq!(query(b"f"), "/dns-query?dns=Zg");
    assert_eq!(query(b"fo"), "/dns-query?dns=Zm8");
    assert_eq!(query(b"foo"), "/dns-query?dns=Zm9v");
    assert_eq!(query(b"foob"), "/dns-query?dns=Zm9vYg");
    assert_eq!(query(b"fooba"), "/dns-query?dns=Zm9vYmE");
}

#[test]
fn base64_uses_the_standard_alphabet() {
    assert_eq!(query(&[0xfb, 0xff, 0xbf]), "/dns-query?dns=+/+/");
    assert_eq!(query(&[0xff, 0xff, 0xff]), "/dns-query?dns=////");
    assert_eq!(query(&[0, 0, 0]), "/dns-query?dns=AAAA");
}

#[test]
fn different_messages_have_different_headers() {
    assert_ne!(query(&[1, 2, 3]), query(&[1, 2, 4]));
    assert_ne!(query(&[0]), query(&[0, 0]));
}

#[test]
fn request_keeps_its_parts() {
    let request = DoH3Request::new("dns.google", None, &[9, 8, 7], b"foo", 42);
    assert_eq!(request.creation_time, 42);
    assert_eq!(request.request_packet, vec![9, 8, 7]);
    assert_eq!(texts(&request.payload)[3].1, "/dns-query?dns=Zm9v");
}

#[test]
fn headers_that_are_no_text_are_shown_as_far_as_they_are() {
    let headers = vec![
        Header {
            name: b"server".to_vec(),
            value: vec![0x61, 0xff, 0x62],
        },
        Header {
            name: vec![0xc3, 0xa9],
            value: vec![],
        },
    ];
    let expected: Vec<(String, String)> = vec![
        ("server".to_string(), "a\u{fffd}b".to_string()),
        ("\u{e9}".to_string(), String::new()),
    ];
    assert_eq!(texts(&headers), expected);
}

#[test]
fn hex_dump_has_two_digits_for_each_byte() {
    assert_eq!(hex_dump(&[]), "");
    assert_eq!(hex_dump(&[0x00, 0x0f, 0xa0, 0xff, 0x19]), "000fa0ff19");
    assert_ne!(hex_dump(&[0x01, 0x10]), hex_dump(&[0x10, 0x01]));
}

#[test]
fn prefix_is_stripped_once() {
    assert_eq!(strip_prefix("https://dns.google", "https://"), "dns.google");
    assert_eq!(strip_prefix("https://https://x", "https://"), "https://x");
    assert_eq!(strip_prefix("http://x", "https://"), "http://x");
    assert_eq!(strip_prefix("x", "https://"), "x");
    assert_eq!(strip_prefix("https://", "https://"), "");
}

#[test]
fn text_is_cut_before_the_separator() {
    assert_eq!(cut("name/path/more", '/'), ("name", Some("/path/more")));
    assert_eq!(cut("name", '/'), ("name", None));
    assert_eq!(cut("/path", '/'), ("", Some("/path")));
    assert_eq!(cut("n\u{e4}me/", '/'), ("n\u{e4}me", Some("/")));
    assert_eq!(find_char("n\u{e4}me/", '/'), Some(4));
    assert_eq!(find_char("name", '/'), None);
}

#[test]
fn cut_parts_rejoin() {
    let (name, path) = cut("dns.example/0a1b", '/');
    assert_eq!(join(name, path.unwrap_or("")), "dns.example/0a1b");
}
