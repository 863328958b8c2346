use http_bridge::client::socks5::{
    auth_reply_bytes, connect_reply_bytes, format_ipv4, format_ipv6, offers_no_auth, ClientError,
    REP_CMD_NOT_SUPPORTED, REP_GENERAL_FAILURE, REP_SUCCESS,
};
use http_bridge::client::session::SessionError;
use http_bridge::codec::{decode_text, is_encodable};
use http_bridge::forward::WriteRequest;
use http_bridge::pump::READ_BUF_SIZE;
use http_bridge::text::{push_decimal, push_hex_byte, trim_trailing_slashes};

fn decimal(n: u64) -> String {
    let mut s = String::new();
    push_decimal(&mut s, n);
    s
}

#[test]
fn decimal_has_no_leading_zeros() {
    assert_eq!(decimal(0), "0");
    assert_eq!(decimal(9), "9");
    assert_eq!(decimal(10), "10");
    assert_eq!(decimal(443), "443");
    assert_eq!(decimal(65535), "65535");
    assert_eq!(decimal(u64::MAX), "18446744073709551615");
}

#[test]
fn decimal_is_appended() {
    let mut s = String::from("port ");
    push_decimal(&mut s, 8080);
    assert_eq!(s, "port 8080");
}

#[test]
fn every_byte_has_two_hex_digits() {
    for b in 0..=255u8 {
        let mut s = String::new();
        push_hex_byte(&mut s, b);
        assert_eq!(s, format!("{:02x}", b));
    }
}

#[test]
fn trailing_slashes_are_removed() {
    assert_eq!(trim_trailing_slashes("http://localhost:8080"), "http://localhost:8080");
    assert_eq!(trim_trailing_slashes("http://localhost:8080/"), "http://localhost:8080");
    assert_eq!(trim_trailing_slashes("http://h/a///"), "http://h/a");
    assert_eq!(trim_trailing_slashes("///"), "");
    assert_eq!(trim_trailing_slashes(""), "");
    assert_eq!(trim_trailing_slashes("http://b\u{fc}cher//"), "http://b\u{fc}cher");
    let once = trim_trailing_slashes("x//");
    assert_eq!(trim_trailing_slashes(&once), once);
}

#[test]
fn requests_carry_base64() {
    let cases: [(&[u8], &str); 8] = [
        (b"", ""),
        (b"f", "Zg=="),
        (b"fo", "Zm8="),
        (b"foo", "Zm9v"),
        (b"foob", "Zm9vYg=="),
        (b"fooba", "Zm9vYmE="),
        (b"foobar", "Zm9vYmFy"),
        (&[0xfb, 0xff, 0xfe], "+//+"),
    ];
    for (bytes, text) in cases {
        assert_eq!(WriteRequest::carrying(bytes).data, text);
        assert_eq!(decode_text(text), Some(bytes.to_vec()));
    }
}

#[test]
fn base64_round_trips() {
    let all: Vec<u8> = (0..=255u8).collect();
    for n in 0..all.len() {
        let text = WriteRequest::carrying(&all[..n]).data;
        assert_eq!(text.len(), (n + 2) / 3 * 4);
        assert_eq!(decode_text(&text), Some(all[..n].to_vec()));
    }
}

#[test]
fn text_that_is_no_base64_is_refused() {
    assert_eq!(decode_text("Zg"), None);
    assert_eq!(decode_text("Zg="), None);
    assert_eq!(decode_text("Zh=="), None);
    assert_eq!(decode_text("Zm9v\n"), None);
    assert_eq!(decode_text("Zm-_"), None);
    assert_eq!(decode_text("===="), None);
    assert_eq!(decode_text("Zg==Zg=="), None);
    assert_eq!(decode_text("\u{fc}"), None);
}

#[test]
fn only_enormous_data_is_not_encodable() {
    assert!(is_encodable(0));
    assert!(is_encodable(8192));
    assert!(is_encodable(isize::MAX as usize / 4 * 3));
    assert!(!is_encodable(isize::MAX as usize / 4 * 3 + 1));
    assert!(!is_encodable(usize::MAX));
}

#[test]
fn addresses_are_written_as_text() {
    assert_eq!(format_ipv4(&[127, 0, 0, 1]), "127.0.0.1");
    assert_eq!(format_ipv4(&[255, 255, 255, 255]), "255.255.255.255");
    assert_eq!(
        format_ipv6(&[0x20, 0x01, 0x0d, 0xb8, 0, 0, 0, 0, 0, 0, 0, 0, 0, 0, 0, 1]),
        "2001:0db8:0000:0000:0000:0000:0000:0001"
    );
    assert_eq!(
        format_ipv6(&[0, 1, 2, 3, 4, 5, 6, 7, 8, 9, 10, 11, 12, 13, 14, 255]),
        "0001:0203:0405:0607:0809:0a0b:0c0d:0eff"
    );
}

#[test]
fn replies_have_their_bytes() {
    assert_eq!(auth_reply_bytes(true), vec![5, 0]);
    assert_eq!(auth_reply_bytes(false), vec![5, 0xff]);
    assert_eq!(connect_reply_bytes(REP_SUCCESS), vec![5, 0, 0, 1, 0, 0, 0, 0, 0, 0]);
    assert_eq!(connect_reply_bytes(REP_GENERAL_FAILURE), vec![5, 1, 0, 1, 0, 0, 0, 0, 0, 0]);
    assert_eq!(connect_reply_bytes(REP_CMD_NOT_SUPPORTED), vec![5, 7, 0, 1, 0, 0, 0, 0, 0, 0]);
}

#[test]
fn no_authentication_is_looked_for() {
    assert!(offers_no_auth(&[0]));
    assert!(offers_no_auth(&[2, 1, 0]));
    assert!(!offers_no_auth(&[]));
    assert!(!offers_no_auth(&[1, 2, 255]));
}

#[test]
fn client_errors_have_their_words() {
    let s = |x: &str| x.to_string();
    let cases = vec![
        (ClientError::ReadingVersion, "reading version"),
        (ClientError::ReadingMethodCount, "reading nmethods"),
        (ClientError::ReadingMethods, "reading methods"),
        (ClientError::Io(s("early eof")), "early eof"),
        (ClientError::UnsupportedVersion(4), "Unsupported SOCKS version: 4"),
        (ClientError::NoAcceptableMethod, "Client does not support 'no auth'"),
        (ClientError::UnexpectedVersion(12), "Unexpected version in request: 12"),
        (
            ClientError::UnsupportedCommand(2),
            "Unsupported command: 2 (only CONNECT is supported)",
        ),
        (ClientError::DomainNotUtf8, "Domain is not valid UTF-8"),
        (ClientError::UnsupportedAddressType(200), "Unsupported address type: 200"),
        (ClientError::Session(SessionError::Client(s("no tls"))), "no tls"),
        (ClientError::Session(SessionError::Request), "Failed to POST /session/create"),
        (
            ClientError::Session(SessionError::Status {
                line: s("503 Service Unavailable"),
                body: s("full"),
            }),
            "POST /session/create returned HTTP 503 Service Unavailable: full",
        ),
        (
            ClientError::Session(SessionError::Body),
            "Failed to parse /session/create response",
        ),
        (
            ClientError::Session(SessionError::Refused(s("blocked"))),
            "Server refused session: blocked",
        ),
        (
            ClientError::Session(SessionError::MissingId),
            "Server returned success but no session_id",
        ),
    ];
    for (error, words) in cases {
        assert_eq!(error.message(), words);
    }
}

#[test]
fn different_addresses_are_written_differently() {
    assert_eq!(format_ipv4(&[1, 11, 1, 1]), "1.11.1.1");
    assert_eq!(format_ipv4(&[11, 1, 1, 1]), "11.1.1.1");
    let mut a = [0u8; 16];
    let mut b = [0u8; 16];
    a[14] = 0x01;
    b[15] = 0x01;
    assert_eq!(format_ipv6(&a), "0000:0000:0000:0000:0000:0000:0000:0100");
    assert_eq!(format_ipv6(&b), "0000:0000:0000:0000:0000:0000:0000:0001");
}

#[test]
fn a_full_read_buffer_can_be_posted() {
    assert!(is_encodable(READ_BUF_SIZE));
    let full = vec![0xffu8; READ_BUF_SIZE];
    let text = WriteRequest::carrying(&full).data;
    assert_eq!(text.len(), 10924);
    assert_eq!(decode_text(&text), Some(full));
}

#[test]
fn addresses_read_back() {
    let v4 = [192u8, 0, 2, 255];
    let text = format_ipv4(&v4);
    let read: Vec<u8> = text.split('.').map(|p| p.parse::<u8>().unwrap()).collect();
    assert_eq!(read, v4.to_vec());
    let v6: Vec<u8> = (0..16u8).map(|i| i * 17).collect();
    let text = format_ipv6(&v6);
    assert_eq!(text.len(), 39);
    let read: Vec<u8> = text
        .split(':')
        .flat_map(|g| u16::from_str_radix(g, 16).unwrap().to_be_bytes().to_vec())
        .collect();
    assert_eq!(read, v6);
}
