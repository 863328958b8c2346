use http_bridge::client::http_bridge::{
    poll_error_message as client_poll_error, poll_once as client_poll_once,
    post_error_message as client_post_error, ChunkEntry, HttpBridge as ClientBridge, RecvResponse,
};
use http_bridge::client::relay::relay;
use http_bridge::client::session::{create_request, create_session, CreateSessionResponse};
use http_bridge::forward::{ForwardError, ForwardEvent, ForwardTask};
use http_bridge::http::{HttpMethod, HttpStatus};
use http_bridge::poll::{PollError, PollEvent, PollTask};
use http_bridge::pump::{filled, ReaderEvent, ReaderTask, WriterEvent, WriterTask};
use http_bridge::server::http_bridge::{
    poll_error_message as server_poll_error, poll_once as server_poll_once,
    post_error_message as server_post_error, HttpBridge as ServerBridge, ReadResponse,
};
use http_bridge::server::sessions::{
    fetch_sessions, run_session, Discovery, Fetch, FetchError, FetchEvent, Launch, SessionEvent,
    SessionInfo, SessionPhase,
};
use http_bridge::server::tcp_proxy::TcpProxy;
use http_bridge::tasks::End;

fn s(x: &str) -> String {
    x.to_string()
}

fn recv(texts: &[&str]) -> RecvResponse {
    RecvResponse { chunks: texts.iter().map(|t| ChunkEntry { base64: s(t) }).collect() }
}

fn info(id: &str, addr: &str, port: u16) -> SessionInfo {
    SessionInfo { session_id: s(id), target_addr: s(addr), target_port: port }
}

fn launch(id: &str, target: &str) -> Launch {
    Launch { session_id: s(id), target: s(target) }
}

#[test]
fn client_urls() {
    let bridge = ClientBridge::new(s("http://h:1//"), s("id7"), 50);
    assert_eq!(bridge.recv_url, "http://h:1/debug/id7/recv?clear=1");
    assert_eq!(bridge.send_url, "http://h:1/debug/id7/send");
    let tasks = bridge.run();
    assert_eq!(tasks.end, End::Client);
    assert_eq!(tasks.end.poll_method(), HttpMethod::Get);
    assert_eq!(tasks.poll_url, "http://h:1/debug/id7/recv?clear=1");
    assert_eq!(tasks.post_url, "http://h:1/debug/id7/send");
    assert_eq!(tasks.poll_interval_ms, 50);
    assert_eq!(tasks.poll, PollTask::new());
    assert_eq!(tasks.forward, ForwardTask::new());
    assert!(!tasks.group.is_over());
    assert!(tasks.group.task_ended().is_over());
}

#[test]
fn server_urls() {
    let bridge = ServerBridge::new(s("http://h:1"), s("id7"), 500);
    assert_eq!(bridge.read_url, "http://h:1/session/id7/read");
    assert_eq!(bridge.write_url, "http://h:1/session/id7/write");
    let tasks = bridge.run();
    assert_eq!(tasks.end, End::Server);
    assert_eq!(tasks.end.poll_method(), HttpMethod::Post);
    assert_eq!(tasks.poll_url, "http://h:1/session/id7/read");
    assert_eq!(tasks.post_url, "http://h:1/session/id7/write");
    assert_eq!(tasks.poll_interval_ms, 500);
}

#[test]
fn tunnel_waits_for_its_three_tasks() {
    let tunnel = relay("http://h", "x", 5);
    assert_eq!(tunnel.channel_buffer, 256);
    assert_eq!(tunnel.bridge, ClientBridge::new(s("http://h"), s("x"), 5));
    assert_eq!(tunnel.reader, ReaderTask::new());
    assert_eq!(tunnel.writer, WriterTask::new());
    let group = tunnel.group.task_ended().task_ended();
    assert!(group.must_cancel() && !group.is_over());
    assert!(group.task_ended().is_over());
}

#[test]
fn session_requests_are_posted_to_the_relay() {
    let request = create_request("http://h/", "example.com", 443);
    assert_eq!(request.url, "http://h/session/create");
    assert_eq!(request.target_addr, "example.com");
    assert_eq!(request.target_port, 443);
    let id = create_session(CreateSessionResponse { session_id: Some(s("q")), error: None });
    assert_eq!(id, Ok(s("q")));
}

#[test]
fn client_drops_empty_chunks() {
    assert_eq!(
        client_poll_once(recv(&["Zm9v", "", "YmFy"])),
        Ok(vec![b"foo".to_vec(), b"bar".to_vec()])
    );
    assert_eq!(client_poll_once(recv(&[])), Ok(vec![]));
    assert_eq!(client_poll_once(recv(&["", ""])), Ok(vec![]));
}

#[test]
fn one_bad_chunk_spoils_the_reply() {
    assert_eq!(client_poll_once(recv(&["Zm9v", "?", "YmFy"])), Err(PollError::Base64));
    assert_eq!(client_poll_once(recv(&["Zm9"])), Err(PollError::Base64));
}

#[test]
fn splitting_replies_changes_nothing() {
    let mut parts = client_poll_once(recv(&["YQ==", ""])).unwrap();
    parts.extend(client_poll_once(recv(&["Yg=="])).unwrap());
    assert_eq!(Ok(parts), client_poll_once(recv(&["YQ==", "", "Yg=="])));
}

#[test]
fn server_takes_data_as_one_chunk() {
    assert_eq!(server_poll_once(ReadResponse { data: None }), Ok(vec![]));
    assert_eq!(
        server_poll_once(ReadResponse { data: Some(s("Zm9v")) }),
        Ok(vec![b"foo".to_vec()])
    );
    assert_eq!(server_poll_once(ReadResponse { data: Some(s("")) }), Ok(vec![vec![]]));
    assert_eq!(server_poll_once(ReadResponse { data: Some(s("!")) }), Err(PollError::Base64));
}

#[test]
fn poll_errors_have_their_words() {
    let status = PollError::Status(s("502 Bad Gateway"));
    assert_eq!(client_poll_error(&PollError::Request), "Failed to GET recv endpoint");
    assert_eq!(client_poll_error(&status), "Recv endpoint returned HTTP 502 Bad Gateway");
    assert_eq!(client_poll_error(&PollError::Body), "Failed to parse recv response");
    assert_eq!(client_poll_error(&PollError::Base64), "Failed to base64-decode recv chunk");
    assert_eq!(server_poll_error(&PollError::Request), "Failed to POST to read endpoint");
    assert_eq!(server_poll_error(&status), "Read endpoint returned HTTP 502 Bad Gateway");
    assert_eq!(server_poll_error(&PollError::Body), "Failed to parse read response JSON");
    assert_eq!(
        server_poll_error(&PollError::Base64),
        "Failed to base64-decode read response data"
    );
}

#[test]
fn discovery_starts_new_sessions_once() {
    let mut d = Discovery::new("http://h/", 500, 700);
    assert_eq!(d.base_url, "http://h");
    assert_eq!(d.sessions_url, "http://h/debug/sessions");
    assert_eq!((d.poll_interval_ms, d.discovery_interval_ms), (500, 700));
    let list = vec![
        info("a", "example.com", 443),
        info("b", "", 80),
        info("c", "10.0.0.1", 0),
        info("a", "other.com", 80),
        info("d", "2001:0db8:0000:0000:0000:0000:0000:0001", 22),
    ];
    assert_eq!(
        d.discovered(&list).launches,
        vec![
            launch("a", "example.com:443"),
            launch("d", "2001:0db8:0000:0000:0000:0000:0000:0001:22")
        ]
    );
    assert_eq!(d.discovered(&list).launches, vec![]);
}

#[test]
fn later_entry_with_a_target_counts() {
    let mut d = Discovery::new("http://h", 1, 1);
    let list = vec![info("a", "", 0), info("a", "x", 1)];
    assert_eq!(d.discovered(&list).launches, vec![launch("a", "x:1")]);
}

#[test]
fn finished_sessions_start_again_while_listed() {
    let mut d = Discovery::new("http://h", 1, 1);
    let list = vec![info("a", "x", 1), info("b", "y", 2)];
    assert_eq!(d.discovered(&list).launches.len(), 2);
    assert!(d.finished("a"));
    assert!(!d.finished("a"));
    assert!(!d.finished("z"));
    assert_eq!(d.discovered(&list).launches, vec![launch("a", "x:1")]);
}

#[test]
fn list_is_fetched() {
    let ok = HttpStatus { code: 200, line: s("200 OK") };
    let fetch = fetch_sessions().step(FetchEvent::Responded(ok));
    assert_eq!(fetch, Fetch::ReadingList);
    assert_eq!(
        fetch.step(FetchEvent::List(vec![info("a", "x", 1)])),
        Fetch::Fetched(vec![info("a", "x", 1)])
    );
}

#[test]
fn list_that_cannot_be_fetched() {
    let down = HttpStatus { code: 500, line: s("500 Internal Server Error") };
    match fetch_sessions().step(FetchEvent::Responded(down)) {
        Fetch::Failed(e) => {
            assert_eq!(e.message(), "GET sessions returned HTTP 500 Internal Server Error")
        }
        other => panic!("{:?}", other),
    }
    assert_eq!(
        fetch_sessions().step(FetchEvent::Failed(s("refused"))),
        Fetch::Failed(FetchError::Failed(s("refused")))
    );
    let ok = HttpStatus { code: 200, line: s("200 OK") };
    let fetch = fetch_sessions().step(FetchEvent::Responded(ok));
    assert_eq!(
        fetch.step(FetchEvent::Failed(s("bad json"))),
        Fetch::Failed(FetchError::Failed(s("bad json")))
    );
    assert_eq!(FetchError::Failed(s("bad json")).message(), "bad json");
}

#[test]
fn session_connects_and_bridges() {
    let run = run_session("http://h", launch("a", "x:1"), 500);
    assert_eq!(run.session_id, "a");
    assert_eq!(run.target, "x:1");
    assert_eq!(run.bridge, ServerBridge::new(s("http://h/"), s("a"), 500));
    assert_eq!(run.phase, SessionPhase::Connecting);
    let phase = run.phase.step(SessionEvent::Connected(true));
    assert_eq!(phase, SessionPhase::Bridging);
    assert!(!phase.ended());
    let phase = phase.step(SessionEvent::BridgeEnded);
    assert_eq!(phase, SessionPhase::Finished);
    assert!(phase.ended());
}

#[test]
fn session_without_connection_ends() {
    let phase = SessionPhase::Connecting.step(SessionEvent::Connected(false));
    assert_eq!(phase, SessionPhase::ConnectFailed);
    assert!(phase.ended());
    assert_eq!(phase.step(SessionEvent::Connected(true)), SessionPhase::ConnectFailed);
    assert_eq!(SessionPhase::Connecting.step(SessionEvent::BridgeEnded), SessionPhase::Connecting);
}

#[test]
fn connecting_gives_tasks_or_the_target() {
    let tasks = TcpProxy::connect("x:1", true).unwrap();
    assert_eq!(tasks.channel_buffer, 256);
    assert_eq!(tasks.reader, ReaderTask::new());
    assert_eq!(tasks.writer, WriterTask::new());
    let error = TcpProxy::connect("x:1", false).unwrap_err();
    assert_eq!(error.message(), "Failed to connect to x:1");
}

/// Moves bytes from one connection to the other through both ends, with a relay that keeps
/// what is posted, and gives the bytes that are written.
fn carry(input: &[u8], read_size: usize, to_client: bool) -> Vec<u8> {
    let mut posted = Vec::new();
    for piece in input.chunks(read_size) {
        let reader = ReaderTask::new().step(ReaderEvent::Read(filled(piece, piece.len())));
        let chunk = match reader {
            ReaderTask::Sending(chunk) => chunk,
            other => panic!("{:?}", other),
        };
        match ForwardTask::new().step(ForwardEvent::Data(chunk)) {
            ForwardTask::Posting { request, .. } => posted.push(request.data),
            other => panic!("{:?}", other),
        }
    }
    let ok = || HttpStatus { code: 200, line: s("200 OK") };
    let bodies: Vec<Result<Vec<Vec<u8>>, PollError>> = if to_client {
        let texts: Vec<&str> = posted.iter().map(|t| t.as_str()).collect();
        vec![client_poll_once(recv(&texts))]
    } else {
        posted.into_iter().map(|t| server_poll_once(ReadResponse { data: Some(t) })).collect()
    };
    let mut written = Vec::new();
    let mut poll = PollTask::new();
    for body in bodies {
        poll = poll.step(PollEvent::CancelFlag(false)).step(PollEvent::Responded(ok()));
        poll = poll.step(PollEvent::Body(body));
        while let PollTask::Delivering { chunk, .. } = &poll {
            match WriterTask::new().step(WriterEvent::Received(chunk.clone())) {
                WriterTask::Writing(bytes) => written.extend(bytes),
                other => panic!("{:?}", other),
            }
            poll = poll.step(PollEvent::Delivered(true));
        }
        poll = poll.step(PollEvent::Slept);
    }
    written
}

#[test]
fn bytes_reach_the_client_unchanged() {
    let data: Vec<u8> = (0..2000u32).map(|i| (i * 7 % 256) as u8).collect();
    for size in [1, 2, 3, 100, 8192] {
        assert_eq!(carry(&data, size, true), data);
    }
}

#[test]
fn bytes_reach_the_target_unchanged() {
    let data: Vec<u8> = (0..2000u32).map(|i| (i * 11 % 256) as u8).collect();
    for size in [1, 2, 3, 100, 8192] {
        assert_eq!(carry(&data, size, false), data);
    }
}

#[test]
fn relay_may_cut_the_bytes_as_it_likes() {
    let posted = recv(&["aGVsbG8g", "d29ybGQ="]);
    let handed = recv(&["aGVs", "", "bG8gd29ybGQ="]);
    let joined = |r: RecvResponse| client_poll_once(r).unwrap().concat();
    assert_eq!(joined(posted), b"hello world".to_vec());
    assert_eq!(joined(handed), b"hello world".to_vec());
}

#[test]
fn launch_targets_tell_address_and_port() {
    assert_eq!(info("a", "h:1", 23).launch(), Some(launch("a", "h:1:23")));
    assert_eq!(info("a", "h:1:2", 3).launch(), Some(launch("a", "h:1:2:3")));
    assert_eq!(info("a", "h", 123).launch(), Some(launch("a", "h:123")));
}

#[test]
fn sessions_without_a_target_are_passed_over_unless_they_run() {
    let mut d = Discovery::new("http://h", 1, 1);
    let list = vec![info("a", "", 1), info("a", "x", 1), info("a", "x", 0), info("b", "y", 0)];
    let found = d.discovered(&list);
    assert_eq!(found.launches, vec![launch("a", "x:1")]);
    assert_eq!(found.passed_over, vec![s("a"), s("b")]);
    let found = d.discovered(&list);
    assert_eq!(found.launches, vec![]);
    assert_eq!(found.passed_over, vec![s("b")]);
}

#[test]
fn running_sessions_stay_through_a_list() {
    let mut d = Discovery::new("http://h", 1, 1);
    d.discovered(&vec![info("a", "x", 1)]);
    d.discovered(&vec![]);
    assert!(d.finished("a"));
    assert!(!d.finished("a"));
}

#[test]
fn sessions_connect_once() {
    let bridging = SessionPhase::Connecting.step(SessionEvent::Connected(true));
    assert_eq!(bridging.step(SessionEvent::Connected(false)), SessionPhase::Bridging);
    let failed = SessionPhase::Connecting.step(SessionEvent::Connected(false));
    assert_eq!(failed.step(SessionEvent::Connected(true)), SessionPhase::ConnectFailed);
}

#[test]
fn closed_writer_has_written_every_message() {
    let mut written: Vec<u8> = Vec::new();
    let mut task = WriterTask::new();
    for message in [b"ab".to_vec(), b"".to_vec(), b"c".to_vec()] {
        task = task.step(WriterEvent::Received(message));
        match &task {
            WriterTask::Writing(bytes) => written.extend(bytes.iter()),
            other => panic!("{:?}", other),
        }
        task = task.step(WriterEvent::Written(true)).step(WriterEvent::Flushed(true));
    }
    task = task.step(WriterEvent::Closed);
    assert!(task.ended());
    assert_eq!(written, b"abc".to_vec());
}

#[test]
fn post_errors_have_their_words() {
    let refused = ForwardError::Request(s("connection refused"));
    let status = ForwardError::Status(s("502 Bad Gateway"));
    assert_eq!(client_post_error(&refused, 3), "Send POST failed (3/10): connection refused");
    assert_eq!(
        client_post_error(&status, 10),
        "Send endpoint returned HTTP 502 Bad Gateway (10/10)"
    );
    assert_eq!(
        server_post_error(&refused, 1),
        "Failed to POST to write endpoint (1/10): connection refused"
    );
    assert_eq!(
        server_post_error(&status, 2),
        "Write endpoint returned HTTP 502 Bad Gateway (2/10)"
    );
}

#[test]
fn polls_give_what_their_replies_hold_in_order() {
    let replies = [recv(&["YQ==", ""]), recv(&[]), recv(&["Yg==", "Yw=="])];
    let mut delivered: Vec<u8> = Vec::new();
    let mut poll = PollTask::new();
    for reply in replies {
        poll = poll.step(PollEvent::CancelFlag(false));
        poll = poll.step(PollEvent::Responded(HttpStatus { code: 200, line: s("200 OK") }));
        poll = poll.step(PollEvent::Body(client_poll_once(reply)));
        while let PollTask::Delivering { chunk, .. } = &poll {
            delivered.extend(chunk.iter());
            poll = poll.step(PollEvent::Delivered(true));
        }
        poll = poll.step(PollEvent::Slept);
    }
    assert_eq!(delivered, b"abc".to_vec());
}
