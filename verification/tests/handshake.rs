use http_bridge::client::connection::{handle_client, Connection, ConnectionEvent, Phase};
use http_bridge::client::session::{CreateSessionResponse, SessionError};
use http_bridge::client::socks5::ClientError;
use http_bridge::codec::decode_text;
use http_bridge::forward::{ForwardEvent, ForwardTask};
use http_bridge::http::HttpStatus;
use http_bridge::pump::{ReaderEvent, ReaderTask};
use http_bridge::server::sessions::{Discovery, SessionInfo};

const BRIDGE: &str = "http://localhost:8080/";

/// Runs a handshake on what the client sends, up to where the relay is asked or the
/// handshake ends.  Gives the connection, what the client was written, and what was left
/// unread.
fn converse(mut c: Connection, input: &[u8]) -> (Connection, Vec<u8>, Vec<u8>) {
    let mut written = Vec::new();
    let mut at = 0;
    loop {
        if let Some(n) = c.phase.bytes_wanted() {
            if input.len() - at < n {
                at = input.len();
                c = c.step(ConnectionEvent::IoFailed("early eof".to_string()));
            } else {
                let bytes = input[at..at + n].to_vec();
                at += n;
                c = c.step(ConnectionEvent::Bytes(bytes));
            }
        } else if let Some(reply) = c.phase.reply_due() {
            written.extend(reply);
            c = c.step(ConnectionEvent::Written);
        } else {
            return (c, written, input[at..].to_vec());
        }
    }
}

fn start(input: &[u8]) -> (Phase, Vec<u8>, Vec<u8>) {
    let (c, written, unread) = converse(handle_client(BRIDGE, 50), input);
    (c.phase, written, unread)
}

fn status(code: u16, line: &str) -> ConnectionEvent {
    ConnectionEvent::Responded(HttpStatus { code, line: line.to_string() })
}

fn asking() -> Connection {
    let (c, _, _) = converse(handle_client(BRIDGE, 50), &[5, 1, 0, 5, 1, 0, 1, 10, 0, 0, 7, 0, 80]);
    c
}

fn rest(c: Connection) -> (Connection, Vec<u8>) {
    let (c, written, _) = converse(c, &[]);
    (c, written)
}

#[test]
fn ipv4_request_reaches_the_relay() {
    let (phase, written, unread) =
        start(&[5, 2, 2, 0, 5, 1, 0, 1, 93, 184, 216, 34, 0x01, 0xbb, b'G', b'E', b'T']);
    assert_eq!(phase, Phase::Creating { addr: "93.184.216.34".to_string(), port: 443 });
    assert_eq!(written, vec![5, 0]);
    assert_eq!(unread, b"GET".to_vec());
}

#[test]
fn domain_request_reaches_the_relay() {
    let mut input = vec![5, 1, 0, 5, 1, 0, 3, 11];
    input.extend(b"example.com");
    input.extend([0x1f, 0x90]);
    let (phase, written, unread) = start(&input);
    assert_eq!(phase, Phase::Creating { addr: "example.com".to_string(), port: 8080 });
    assert_eq!(written, vec![5, 0]);
    assert!(unread.is_empty());
}

#[test]
fn domain_names_may_be_any_utf8() {
    let name = "b\u{fc}cher.example";
    let mut input = vec![5, 1, 0, 5, 1, 7, 3, name.len() as u8];
    input.extend(name.as_bytes());
    input.extend([0, 80]);
    assert_eq!(start(&input).0, Phase::Creating { addr: name.to_string(), port: 80 });
}

#[test]
fn empty_domain_name_is_passed_on() {
    let (phase, _, _) = start(&[5, 1, 0, 5, 1, 0, 3, 0, 0, 80]);
    assert_eq!(phase, Phase::Creating { addr: String::new(), port: 80 });
}

#[test]
fn ipv6_request_reaches_the_relay() {
    let mut input = vec![5, 1, 0, 5, 1, 0, 4];
    input.extend([0x20, 0x01, 0x0d, 0xb8, 0, 0, 0, 0, 0, 0, 0, 0, 0, 0, 0, 0x42]);
    input.extend([0xff, 0xff]);
    let (phase, written, _) = start(&input);
    assert_eq!(
        phase,
        Phase::Creating {
            addr: "2001:0db8:0000:0000:0000:0000:0000:0042".to_string(),
            port: 65535
        }
    );
    assert_eq!(written, vec![5, 0]);
}

#[test]
fn all_methods_are_looked_at() {
    let mut input = vec![5, 255];
    input.extend([9u8; 254]);
    input.push(0);
    let (phase, written, _) = start(&input);
    assert_eq!(written, vec![5, 0]);
    assert_eq!(phase, Phase::Failed(ClientError::Io("early eof".to_string())));
}

#[test]
fn other_versions_get_no_answer() {
    let (phase, written, unread) = start(&[4, 1, 0]);
    assert_eq!(phase, Phase::Failed(ClientError::UnsupportedVersion(4)));
    assert!(written.is_empty());
    assert_eq!(unread, vec![1, 0]);
}

#[test]
fn other_methods_are_refused() {
    let (phase, written, _) = start(&[5, 2, 1, 2]);
    assert_eq!(phase, Phase::Failed(ClientError::NoAcceptableMethod));
    assert_eq!(written, vec![5, 0xff]);
    let (phase, written, _) = start(&[5, 0]);
    assert_eq!(phase, Phase::Failed(ClientError::NoAcceptableMethod));
    assert_eq!(written, vec![5, 0xff]);
}

#[test]
fn other_request_versions_get_no_answer() {
    let (phase, written, _) = start(&[5, 1, 0, 4, 1, 0, 1]);
    assert_eq!(phase, Phase::Failed(ClientError::UnexpectedVersion(4)));
    assert_eq!(written, vec![5, 0]);
}

#[test]
fn other_commands_are_refused() {
    let (phase, written, _) = start(&[5, 1, 0, 5, 2, 0, 1, 1, 2, 3, 4, 0, 80]);
    assert_eq!(phase, Phase::Failed(ClientError::UnsupportedCommand(2)));
    assert_eq!(written, vec![5, 0, 5, 7, 0, 1, 0, 0, 0, 0, 0, 0]);
    let (phase, _, _) = start(&[5, 1, 0, 5, 3, 0, 99]);
    assert_eq!(phase, Phase::Failed(ClientError::UnsupportedCommand(3)));
}

#[test]
fn other_address_types_are_refused() {
    let (phase, written, _) = start(&[5, 1, 0, 5, 1, 0, 2]);
    assert_eq!(phase, Phase::Failed(ClientError::UnsupportedAddressType(2)));
    assert_eq!(written, vec![5, 0, 5, 1, 0, 1, 0, 0, 0, 0, 0, 0]);
}

#[test]
fn malformed_domain_names_get_no_answer() {
    let (phase, written, _) = start(&[5, 1, 0, 5, 1, 0, 3, 2, 0xff, 0xfe, 0, 80]);
    assert_eq!(phase, Phase::Failed(ClientError::DomainNotUtf8));
    assert_eq!(written, vec![5, 0]);
}

#[test]
fn reads_past_the_end_fail_with_their_context() {
    assert_eq!(start(&[]).0, Phase::Failed(ClientError::ReadingVersion));
    assert_eq!(start(&[5]).0, Phase::Failed(ClientError::ReadingMethodCount));
    assert_eq!(start(&[5, 3, 0, 1]).0, Phase::Failed(ClientError::ReadingMethods));
    let eof = Phase::Failed(ClientError::Io("early eof".to_string()));
    assert_eq!(start(&[5, 1, 0]).0, eof);
    assert_eq!(start(&[5, 1, 0, 5, 1, 0]).0, eof);
    assert_eq!(start(&[5, 1, 0, 5, 1, 0, 1, 1, 2, 3]).0, eof);
    assert_eq!(start(&[5, 1, 0, 5, 1, 0, 3]).0, eof);
    assert_eq!(start(&[5, 1, 0, 5, 1, 0, 3, 4, b'h']).0, eof);
    assert_eq!(start(&[5, 1, 0, 5, 1, 0, 4, 1]).0, eof);
    assert_eq!(start(&[5, 1, 0, 5, 1, 0, 1, 1, 2, 3, 4, 0]).0, eof);
}

#[test]
fn session_request_names_the_target() {
    let request = asking().session_request().unwrap();
    assert_eq!(request.url, "http://localhost:8080/session/create");
    assert_eq!(request.target_addr, "10.0.0.7");
    assert_eq!(request.target_port, 80);
    assert!(handle_client(BRIDGE, 50).session_request().is_none());
    assert!(asking().tunnel().is_none());
}

#[test]
fn created_session_opens_the_tunnel() {
    let c = asking().step(status(201, "201 Created"));
    assert_eq!(c.phase, Phase::ReadingSession);
    let c = c.step(ConnectionEvent::Answer(CreateSessionResponse {
        session_id: Some("abc".to_string()),
        error: None,
    }));
    let (c, written) = rest(c);
    assert_eq!(written, vec![5, 0, 0, 1, 0, 0, 0, 0, 0, 0]);
    assert_eq!(c.phase, Phase::Relaying { session_id: "abc".to_string() });
    let tunnel = c.tunnel().unwrap();
    assert_eq!(tunnel.bridge.recv_url, "http://localhost:8080/debug/abc/recv?clear=1");
    assert_eq!(tunnel.bridge.send_url, "http://localhost:8080/debug/abc/send");
    assert_eq!(tunnel.bridge.poll_interval_ms, 50);
}

fn refused_with(c: Connection, error: SessionError) {
    let (c, written) = rest(c);
    assert_eq!(written, vec![5, 1, 0, 1, 0, 0, 0, 0, 0, 0]);
    assert_eq!(c.phase, Phase::Failed(ClientError::Session(error)));
}

#[test]
fn failed_session_requests_are_answered_with_failure() {
    refused_with(
        asking().step(ConnectionEvent::NoClient("no".to_string())),
        SessionError::Client("no".to_string()),
    );
    refused_with(asking().step(ConnectionEvent::RequestFailed), SessionError::Request);
    let c = asking().step(status(500, "500 Internal Server Error"));
    refused_with(
        c.step(ConnectionEvent::Refusal("boom".to_string())),
        SessionError::Status {
            line: "500 Internal Server Error".to_string(),
            body: "boom".to_string(),
        },
    );
    let c = asking().step(status(200, "200 OK"));
    refused_with(c.step(ConnectionEvent::BodyUnreadable), SessionError::Body);
}

#[test]
fn named_error_counts_over_a_session() {
    let c = asking().step(status(200, "200 OK"));
    let c = c.step(ConnectionEvent::Answer(CreateSessionResponse {
        session_id: Some("abc".to_string()),
        error: Some("blocked".to_string()),
    }));
    refused_with(c, SessionError::Refused("blocked".to_string()));
}

#[test]
fn answer_without_session_is_a_failure() {
    let c = asking().step(status(299, "299"));
    let c = c.step(ConnectionEvent::Answer(CreateSessionResponse { session_id: None, error: None }));
    refused_with(c, SessionError::MissingId);
}

#[test]
fn redirects_are_no_success() {
    let c = asking().step(status(300, "300 Multiple Choices"));
    assert_eq!(c.phase, Phase::ReadingRefusal { line: "300 Multiple Choices".to_string() });
    let c = asking().step(status(199, "199"));
    assert_eq!(c.phase, Phase::ReadingRefusal { line: "199".to_string() });
}

#[test]
fn failed_writes_end_the_connection() {
    let c = handle_client(BRIDGE, 1)
        .step(ConnectionEvent::Bytes(vec![5]))
        .step(ConnectionEvent::Bytes(vec![1]))
        .step(ConnectionEvent::Bytes(vec![0]));
    assert_eq!(c.phase, Phase::AuthReply { accepted: true });
    let c = c.step(ConnectionEvent::IoFailed("broken pipe".to_string()));
    assert_eq!(c.phase, Phase::Failed(ClientError::Io("broken pipe".to_string())));
    let c = c.step(ConnectionEvent::Written);
    assert_eq!(c.phase, Phase::Failed(ClientError::Io("broken pipe".to_string())));
}

#[test]
fn events_not_waited_for_change_nothing() {
    let c = handle_client(BRIDGE, 1).step(ConnectionEvent::Bytes(vec![5, 1]));
    assert_eq!(c.phase, Phase::Version);
    let c = c.step(ConnectionEvent::Written).step(ConnectionEvent::RequestFailed);
    assert_eq!(c.phase, Phase::Version);
    assert_eq!(c.poll_interval_ms, 1);
    assert_eq!(c.bridge_url, BRIDGE);
}

#[test]
fn named_target_is_the_one_connected_to() {
    let message = b"\x05\x01\x00\x05\x01\x00\x03\x0bexample.com\x01\xbb";
    let (c, _, _) = converse(handle_client(BRIDGE, 50), message);
    let asked = c.session_request().unwrap();
    let listed = vec![SessionInfo {
        session_id: "s1".to_string(),
        target_addr: asked.target_addr,
        target_port: asked.target_port,
    }];
    let launches = Discovery::new(BRIDGE, 500, 500).discovered(&listed).launches;
    assert_eq!(launches.len(), 1);
    assert_eq!(launches[0].session_id, "s1");
    assert_eq!(launches[0].target, "example.com:443");
}

#[test]
fn messages_cut_short_get_no_further_answer() {
    let messages: Vec<Vec<u8>> = vec![
        b"\x05\x02\x02\x00\x05\x01\x00\x01\x0a\x00\x00\x07\x00\x50".to_vec(),
        b"\x05\x01\x00\x05\x01\x00\x03\x04host\x01\xbb".to_vec(),
        b"\x05\x01\x00\x05\x01\x00\x040123456789abcdef\x01\xbb".to_vec(),
    ];
    for message in messages {
        let greeting = 2 + message[1] as usize;
        for n in 0..message.len() {
            let (phase, written, unread) = start(&message[..n]);
            let error = match n {
                0 => ClientError::ReadingVersion,
                1 => ClientError::ReadingMethodCount,
                _ if n < greeting => ClientError::ReadingMethods,
                _ => ClientError::Io("early eof".to_string()),
            };
            assert_eq!(phase, Phase::Failed(error));
            assert_eq!(written, if n < greeting { vec![] } else { vec![5, 0] });
            assert_eq!(unread, Vec::<u8>::new());
        }
        let (phase, written, _) = start(&message);
        assert!(matches!(phase, Phase::Creating { .. }));
        assert_eq!(written, vec![5, 0]);
    }
}

#[test]
fn what_follows_the_request_is_left_for_the_tunnel() {
    let message = b"\x05\x01\x00\x05\x01\x00\x01\x0a\x00\x00\x07\x00\x50GET /";
    let (c, first, tail) = converse(handle_client(BRIDGE, 50), message);
    let answer = CreateSessionResponse { session_id: Some("s1".to_string()), error: None };
    let c = c.step(status(200, "200 OK")).step(ConnectionEvent::Answer(answer));
    let (c, second, tail) = converse(c, &tail);
    assert_eq!(c.phase, Phase::Relaying { session_id: "s1".to_string() });
    assert_eq!([first, second].concat().len(), 12);
    assert_eq!(tail, b"GET /".to_vec());
    let reader = c.tunnel().unwrap().reader.step(ReaderEvent::Read(tail));
    let chunk = match reader {
        ReaderTask::Sending(chunk) => chunk,
        other => panic!("{:?}", other),
    };
    match ForwardTask::new().step(ForwardEvent::Data(chunk)) {
        ForwardTask::Posting { request, .. } => {
            assert_eq!(decode_text(&request.data), Some(b"GET /".to_vec()))
        }
        other => panic!("{:?}", other),
    }
}

#[test]
fn request_parts_are_read_one_by_one() {
    let phase = Phase::RequestVersion.read_connect_request(Ok(vec![5]));
    assert_eq!(phase, Phase::RequestHead);
    let phase = phase.read_connect_request(Ok(vec![1, 0, 1]));
    assert_eq!(phase, Phase::Ipv4);
    let cut = Phase::Ipv4.read_connect_request(Err("early eof".to_string()));
    assert!(cut.reply_due().is_none());
    assert_eq!(cut, Phase::Failed(ClientError::Io("early eof".to_string())));
    assert_eq!(Phase::Version.read_connect_request(Ok(vec![5])), Phase::Version);
    assert_eq!(Phase::Version.negotiate_auth(Ok(vec![5])), Phase::MethodCount);
    assert_eq!(
        Phase::MethodCount.negotiate_auth(Err("early eof".to_string())),
        Phase::Failed(ClientError::ReadingMethodCount)
    );
    assert_eq!(Phase::RequestVersion.negotiate_auth(Ok(vec![5])), Phase::RequestVersion);
}
