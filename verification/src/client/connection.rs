//! One client connection as a state machine: it says how many bytes it wants, what it
//! answers and when it asks for a session, and is told what happened.
use vstd::prelude::*;
use vstd::utf8;

use crate::client::relay;
use crate::client::relay::Relay;
use crate::client::session;
use crate::client::session::{
    CreateSessionRequest, CreateSessionResponse, CreateSessionResponseView, SessionError,
    SessionErrorView,
};
use crate::client::socks5;
use crate::client::socks5::{
    ClientError, ClientErrorView, ATYP_DOMAIN, ATYP_IPV4, ATYP_IPV6, AUTH_NONE, CMD_CONNECT,
    REP_CMD_NOT_SUPPORTED, REP_GENERAL_FAILURE, REP_SUCCESS, SOCKS5_VERSION,
};
use crate::http;
use crate::http::{HttpStatus, HttpStatusView};

verus! {

/// What a connection is about to do, and waits for the outcome of.
#[derive(Debug, PartialEq, Eq)]
pub enum Phase {
    /// Read the version of the greeting.
    Version,
    /// Read the number of methods.
    MethodCount,
    /// Read that many methods.
    Methods { count: u8 },
    /// Answer the greeting.
    AuthReply { accepted: bool },
    /// Read the version of the request.
    RequestVersion,
    /// Read the command, the reserved byte and the address type.
    RequestHead,
    /// Read an IPv4 address.
    Ipv4,
    /// Read the length of a domain name.
    DomainLength,
    /// Read a domain name.
    Domain { length: u8 },
    /// Read an IPv6 address.
    Ipv6,
    /// Read the port.
    Port { addr: String },
    /// Ask the relay for a session to this target.
    Creating { addr: String, port: u16 },
    /// Read the relay's answer as JSON.
    ReadingSession,
    /// Read what the relay says about a status that is no success.
    ReadingRefusal { line: String },
    /// Answer the request with `reply`, and then fail.
    Rejecting { reply: u8, error: ClientError },
    /// Answer the request with success.
    Confirming { session_id: String },
    /// Ended: the tunnel is open, over this session.
    Relaying { session_id: String },
    /// Ended: the connection failed.
    Failed(ClientError),
}

/// What a [`Phase`] holds.
pub enum PhaseView {
    Version,
    MethodCount,
    Methods { count: u8 },
    AuthReply { accepted: bool },
    RequestVersion,
    RequestHead,
    Ipv4,
    DomainLength,
    Domain { length: u8 },
    Ipv6,
    Port { addr: Seq<char> },
    Creating { addr: Seq<char>, port: u16 },
    ReadingSession,
    ReadingRefusal { line: Seq<char> },
    Rejecting { reply: u8, error: ClientErrorView },
    Confirming { session_id: Seq<char> },
    Relaying { session_id: Seq<char> },
    Failed(ClientErrorView),
}

impl View for Phase {
    type V = PhaseView;

    open spec fn view(&self) -> PhaseView {
        match self {
            Phase::Version => PhaseView::Version,
            Phase::MethodCount => PhaseView::MethodCount,
            Phase::Methods { count } => PhaseView::Methods { count: *count },
            Phase::AuthReply { accepted } => PhaseView::AuthReply { accepted: *accepted },
            Phase::RequestVersion => PhaseView::RequestVersion,
            Phase::RequestHead => PhaseView::RequestHead,
            Phase::Ipv4 => PhaseView::Ipv4,
            Phase::DomainLength => PhaseView::DomainLength,
            Phase::Domain { length } => PhaseView::Domain { length: *length },
            Phase::Ipv6 => PhaseView::Ipv6,
            Phase::Port { addr } => PhaseView::Port { addr: addr@ },
            Phase::Creating { addr, port } => PhaseView::Creating { addr: addr@, port: *port },
            Phase::ReadingSession => PhaseView::ReadingSession,
            Phase::ReadingRefusal { line } => PhaseView::ReadingRefusal { line: line@ },
            Phase::Rejecting { reply, error } => PhaseView::Rejecting {
                reply: *reply,
                error: error@,
            },
            Phase::Confirming { session_id } => PhaseView::Confirming { session_id: session_id@ },
            Phase::Relaying { session_id } => PhaseView::Relaying { session_id: session_id@ },
            Phase::Failed(e) => PhaseView::Failed(e@),
        }
    }
}

/// What can happen to a connection.
#[derive(Debug, PartialEq, Eq)]
pub enum ConnectionEvent {
    /// The bytes that were wanted.
    Bytes(Vec<u8>),
    /// The answer was written.
    Written,
    /// Reading or writing failed, for this reason.
    IoFailed(String),
    /// No HTTP client could be made, for this reason.
    NoClient(String),
    /// The request for a session failed before there was a reply.
    RequestFailed,
    /// The relay replied.
    Responded(HttpStatus),
    /// What the relay says about a status that is no success.
    Refusal(String),
    /// The relay's answer is not the JSON that is asked for.
    BodyUnreadable,
    /// The relay's answer.
    Answer(CreateSessionResponse),
}

/// What a [`ConnectionEvent`] holds.
pub enum ConnectionEventView {
    Bytes(Seq<u8>),
    Written,
    IoFailed(Seq<char>),
    NoClient(Seq<char>),
    RequestFailed,
    Responded(HttpStatusView),
    Refusal(Seq<char>),
    BodyUnreadable,
    Answer(CreateSessionResponseView),
}

impl View for ConnectionEvent {
    type V = ConnectionEventView;

    open spec fn view(&self) -> ConnectionEventView {
        match self {
            ConnectionEvent::Bytes(b) => ConnectionEventView::Bytes(b@),
            ConnectionEvent::Written => ConnectionEventView::Written,
            ConnectionEvent::IoFailed(reason) => ConnectionEventView::IoFailed(reason@),
            ConnectionEvent::NoClient(reason) => ConnectionEventView::NoClient(reason@),
            ConnectionEvent::RequestFailed => ConnectionEventView::RequestFailed,
            ConnectionEvent::Responded(status) => ConnectionEventView::Responded(status@),
            ConnectionEvent::Refusal(body) => ConnectionEventView::Refusal(body@),
            ConnectionEvent::BodyUnreadable => ConnectionEventView::BodyUnreadable,
            ConnectionEvent::Answer(answer) => ConnectionEventView::Answer(answer@),
        }
    }
}

/// How many bytes a connection wants to read, in the phases that read.
pub open spec fn bytes_wanted(phase: PhaseView) -> Option<nat> {
    match phase {
        PhaseView::Version => Some(1),
        PhaseView::MethodCount => Some(1),
        PhaseView::Methods { count } => Some(count as nat),
        PhaseView::RequestVersion => Some(1),
        PhaseView::RequestHead => Some(3),
        PhaseView::Ipv4 => Some(4),
        PhaseView::DomainLength => Some(1),
        PhaseView::Domain { length } => Some(length as nat),
        PhaseView::Ipv6 => Some(16),
        PhaseView::Port { addr } => Some(2),
        _ => None,
    }
}

/// What a connection writes to its client, in the phases that answer.
pub open spec fn reply_due(phase: PhaseView) -> Option<Seq<u8>> {
    match phase {
        PhaseView::AuthReply { accepted } => Some(socks5::auth_reply(accepted)),
        PhaseView::Rejecting { reply, error } => Some(socks5::connect_reply(reply)),
        PhaseView::Confirming { session_id } => Some(socks5::connect_reply(REP_SUCCESS)),
        _ => None,
    }
}

/// Whether a phase reads a part of the greeting.
pub open spec fn reads_greeting(phase: PhaseView) -> bool {
    phase is Version || phase is MethodCount || phase is Methods
}

/// Whether a phase reads a part of the request.
pub open spec fn reads_request(phase: PhaseView) -> bool {
    match phase {
        PhaseView::RequestVersion => true,
        PhaseView::RequestHead => true,
        PhaseView::Ipv4 => true,
        PhaseView::DomainLength => true,
        PhaseView::Domain { length } => true,
        PhaseView::Ipv6 => true,
        PhaseView::Port { addr } => true,
        _ => false,
    }
}

/// Where the next part of what the client sends leads, or why it could not be read.
pub open spec fn after_part(phase: PhaseView, part: Result<Vec<u8>, String>) -> PhaseView {
    match part {
        Ok(b) => phase_next(phase, ConnectionEventView::Bytes(b@)),
        Err(reason) => phase_next(phase, ConnectionEventView::IoFailed(reason@)),
    }
}

/// Where the wanted bytes lead.
pub open spec fn after_bytes(phase: PhaseView, b: Seq<u8>) -> PhaseView {
    match phase {
        PhaseView::Version => {
            if b[0] == SOCKS5_VERSION {
                PhaseView::MethodCount
            } else {
                PhaseView::Failed(ClientErrorView::UnsupportedVersion(b[0]))
            }
        },
        PhaseView::MethodCount => PhaseView::Methods { count: b[0] },
        PhaseView::Methods { count } => PhaseView::AuthReply { accepted: b.contains(AUTH_NONE) },
        PhaseView::RequestVersion => {
            if b[0] == SOCKS5_VERSION {
                PhaseView::RequestHead
            } else {
                PhaseView::Failed(ClientErrorView::UnexpectedVersion(b[0]))
            }
        },
        PhaseView::RequestHead => {
            if b[0] != CMD_CONNECT {
                PhaseView::Rejecting {
                    reply: REP_CMD_NOT_SUPPORTED,
                    error: ClientErrorView::UnsupportedCommand(b[0]),
                }
            } else if b[2] == ATYP_IPV4 {
                PhaseView::Ipv4
            } else if b[2] == ATYP_DOMAIN {
                PhaseView::DomainLength
            } else if b[2] == ATYP_IPV6 {
                PhaseView::Ipv6
            } else {
                PhaseView::Rejecting {
                    reply: REP_GENERAL_FAILURE,
                    error: ClientErrorView::UnsupportedAddressType(b[2]),
                }
            }
        },
        PhaseView::Ipv4 => PhaseView::Port { addr: socks5::ipv4_text(b) },
        PhaseView::DomainLength => PhaseView::Domain { length: b[0] },
        PhaseView::Domain { length } => {
            if utf8::valid_utf8(b) {
                PhaseView::Port { addr: utf8::decode_utf8(b) }
            } else {
                PhaseView::Failed(ClientErrorView::DomainNotUtf8)
            }
        },
        PhaseView::Ipv6 => PhaseView::Port { addr: socks5::hex_groups(b) },
        PhaseView::Port { addr } => PhaseView::Creating { addr, port: socks5::port_number(b) },
        _ => phase,
    }
}

/// Where a written answer leads.
pub open spec fn after_reply(phase: PhaseView) -> PhaseView {
    match phase {
        PhaseView::AuthReply { accepted } => {
            if accepted {
                PhaseView::RequestVersion
            } else {
                PhaseView::Failed(ClientErrorView::NoAcceptableMethod)
            }
        },
        PhaseView::Rejecting { reply, error } => PhaseView::Failed(error),
        PhaseView::Confirming { session_id } => PhaseView::Relaying { session_id },
        _ => phase,
    }
}

/// The error that a failed read or write gives.
pub open spec fn io_error(phase: PhaseView, reason: Seq<char>) -> ClientErrorView {
    match phase {
        PhaseView::Version => ClientErrorView::ReadingVersion,
        PhaseView::MethodCount => ClientErrorView::ReadingMethodCount,
        PhaseView::Methods { count } => ClientErrorView::ReadingMethods,
        _ => ClientErrorView::Io(reason),
    }
}

/// Where a session that cannot be had leads.
pub open spec fn without_session(e: SessionErrorView) -> PhaseView {
    PhaseView::Rejecting { reply: REP_GENERAL_FAILURE, error: ClientErrorView::Session(e) }
}

/// Where the relay's answer leads.
pub open spec fn after_answer(answer: CreateSessionResponseView) -> PhaseView {
    match session::answered(answer) {
        Ok(session_id) => PhaseView::Confirming { session_id },
        Err(e) => without_session(e),
    }
}

/// What a connection does after `event`.  An event that it does not wait for, bytes that
/// are not as many as it wants among them, changes nothing.
pub open spec fn phase_next(phase: PhaseView, event: ConnectionEventView) -> PhaseView {
    match event {
        ConnectionEventView::Bytes(b) => {
            if bytes_wanted(phase) == Some(b.len()) {
                after_bytes(phase, b)
            } else {
                phase
            }
        },
        ConnectionEventView::Written => after_reply(phase),
        ConnectionEventView::IoFailed(reason) => {
            if bytes_wanted(phase) is Some || reply_due(phase) is Some {
                PhaseView::Failed(io_error(phase, reason))
            } else {
                phase
            }
        },
        ConnectionEventView::NoClient(reason) => {
            if phase is Creating {
                without_session(SessionErrorView::Client(reason))
            } else {
                phase
            }
        },
        ConnectionEventView::RequestFailed => {
            if phase is Creating {
                without_session(SessionErrorView::Request)
            } else {
                phase
            }
        },
        ConnectionEventView::Responded(status) => {
            if phase is Creating {
                if http::success_code(status.code) {
                    PhaseView::ReadingSession
                } else {
                    PhaseView::ReadingRefusal { line: status.line }
                }
            } else {
                phase
            }
        },
        ConnectionEventView::Refusal(body) => match phase {
            PhaseView::ReadingRefusal { line } => without_session(
                SessionErrorView::Status { line, body },
            ),
            _ => phase,
        },
        ConnectionEventView::BodyUnreadable => {
            if phase is ReadingSession {
                without_session(SessionErrorView::Body)
            } else {
                phase
            }
        },
        ConnectionEventView::Answer(answer) => {
            if phase is ReadingSession {
                after_answer(answer)
            } else {
                phase
            }
        },
    }
}

impl Phase {
    /// How many bytes to read next, in the phases that read.
    pub fn bytes_wanted(&self) -> (r: Option<usize>)
        ensures
            match r {
                Some(n) => bytes_wanted(self@) == Some(n as nat),
                None => bytes_wanted(self@) is None,
            },
    {
        match self {
            Phase::Version => Some(1),
            Phase::MethodCount => Some(1),
            Phase::Methods { count } => Some(*count as usize),
            Phase::RequestVersion => Some(1),
            Phase::RequestHead => Some(3),
            Phase::Ipv4 => Some(4),
            Phase::DomainLength => Some(1),
            Phase::Domain { length } => Some(*length as usize),
            Phase::Ipv6 => Some(16),
            Phase::Port { .. } => Some(2),
            _ => None,
        }
    }

    /// What to write next, in the phases that answer.
    pub fn reply_due(&self) -> (r: Option<Vec<u8>>)
        ensures
            match r {
                Some(b) => reply_due(self@) == Some(b@),
                None => reply_due(self@) is None,
            },
    {
        match self {
            Phase::AuthReply { accepted } => Some(socks5::auth_reply_bytes(*accepted)),
            Phase::Rejecting { reply, .. } => Some(socks5::connect_reply_bytes(*reply)),
            Phase::Confirming { .. } => Some(socks5::connect_reply_bytes(REP_SUCCESS)),
            _ => None,
        }
    }

    /// Whether the connection reads a part of the greeting.
    pub fn reads_greeting(&self) -> (r: bool)
        ensures
            r == reads_greeting(self@),
    {
        match self {
            Phase::Version => true,
            Phase::MethodCount => true,
            Phase::Methods { .. } => true,
            _ => false,
        }
    }

    /// Whether the connection reads a part of the request.
    pub fn reads_request(&self) -> (r: bool)
        ensures
            r == reads_request(self@),
    {
        match self {
            Phase::RequestVersion => true,
            Phase::RequestHead => true,
            Phase::Ipv4 => true,
            Phase::DomainLength => true,
            Phase::Domain { .. } => true,
            Phase::Ipv6 => true,
            Phase::Port { .. } => true,
            _ => false,
        }
    }

    /// Takes the next part of the greeting, or why it could not be read: first the version,
    /// then the methods.  In other phases nothing changes.
    pub fn negotiate_auth(self, part: Result<Vec<u8>, String>) -> (r: Phase)
        ensures
            r@ == if reads_greeting(self@) {
                after_part(self@, part)
            } else {
                self@
            },
    {
        if !self.reads_greeting() {
            return self;
        }
        let b = match part {
            Ok(b) => b,
            Err(reason) => {
                return Phase::Failed(self.io_error(reason));
            },
        };
        match self.bytes_wanted() {
            Some(n) if n == b.len() => match self {
                Phase::Version => {
                    if b[0] == SOCKS5_VERSION {
                        Phase::MethodCount
                    } else {
                        Phase::Failed(ClientError::UnsupportedVersion(b[0]))
                    }
                },
                Phase::MethodCount => Phase::Methods { count: b[0] },
                _ => Phase::AuthReply { accepted: socks5::offers_no_auth(b.as_slice()) },
            },
            _ => self,
        }
    }

    /// Takes the next part of the request, up to its target, or why it could not be read.  In
    /// other phases nothing changes.
    pub fn read_connect_request(self, part: Result<Vec<u8>, String>) -> (r: Phase)
        ensures
            self matches Phase::Port { addr } ==> (part matches Ok(b) ==> (b@.len() == 2 ==> r == (
            Phase::Creating { addr, port: (b@[0] * 256 + b@[1]) as u16 }))),
            self is RequestVersion || self is RequestHead || self is Ipv4 || self is DomainLength
                || self is Domain || self is Ipv6 || self is Port ==> (part matches Err(reason)
                ==> r == Phase::Failed(ClientError::Io(reason))),
            r@ == if reads_request(self@) {
                after_part(self@, part)
            } else {
                self@
            },
    {
        if !self.reads_request() {
            return self;
        }
        let b = match part {
            Ok(b) => b,
            Err(reason) => {
                return Phase::Failed(self.io_error(reason));
            },
        };
        match self.bytes_wanted() {
            Some(n) if n == b.len() => match self {
                Phase::RequestVersion => {
                    if b[0] == SOCKS5_VERSION {
                        Phase::RequestHead
                    } else {
                        Phase::Failed(ClientError::UnexpectedVersion(b[0]))
                    }
                },
                Phase::RequestHead => {
                    if b[0] != CMD_CONNECT {
                        Phase::Rejecting {
                            reply: REP_CMD_NOT_SUPPORTED,
                            error: ClientError::UnsupportedCommand(b[0]),
                        }
                    } else if b[2] == ATYP_IPV4 {
                        Phase::Ipv4
                    } else if b[2] == ATYP_DOMAIN {
                        Phase::DomainLength
                    } else if b[2] == ATYP_IPV6 {
                        Phase::Ipv6
                    } else {
                        Phase::Rejecting {
                            reply: REP_GENERAL_FAILURE,
                            error: ClientError::UnsupportedAddressType(b[2]),
                        }
                    }
                },
                Phase::Ipv4 => Phase::Port { addr: socks5::format_ipv4(b.as_slice()) },
                Phase::DomainLength => Phase::Domain { length: b[0] },
                Phase::Domain { .. } => match String::from_utf8(b) {
                    Ok(addr) => Phase::Port { addr },
                    Err(_) => Phase::Failed(ClientError::DomainNotUtf8),
                },
                Phase::Ipv6 => Phase::Port { addr: socks5::format_ipv6(b.as_slice()) },
                Phase::Port { addr } => Phase::Creating {
                    addr,
                    port: b[0] as u16 * 256 + b[1] as u16,
                },
                phase => phase,
            },
            _ => self,
        }
    }

    /// Turns a session that cannot be had into the answer to the client.
    fn without_session(e: SessionError) -> (r: Phase)
        ensures
            r@ == without_session(e@),
            r == (Phase::Rejecting { reply: REP_GENERAL_FAILURE, error: ClientError::Session(e) }),
    {
        Phase::Rejecting { reply: REP_GENERAL_FAILURE, error: ClientError::Session(e) }
    }

    /// The error that a failed read or write gives.
    fn io_error(&self, reason: String) -> (r: ClientError)
        ensures
            r@ == io_error(self@, reason@),
            !(self is Version || self is MethodCount || self is Methods) ==> r == ClientError::Io(
                reason,
            ),
    {
        match self {
            Phase::Version => ClientError::ReadingVersion,
            Phase::MethodCount => ClientError::ReadingMethodCount,
            Phase::Methods { .. } => ClientError::ReadingMethods,
            _ => ClientError::Io(reason),
        }
    }

    /// Leads on from a written answer.
    fn replied(self) -> (r: Phase)
        ensures
            r@ == after_reply(self@),
            self matches Phase::Confirming { session_id } ==> r == (Phase::Relaying { session_id }),
            self matches Phase::Rejecting { reply: _, error } ==> r == Phase::Failed(error),
    {
        match self {
            Phase::AuthReply { accepted } => {
                if accepted {
                    Phase::RequestVersion
                } else {
                    Phase::Failed(ClientError::NoAcceptableMethod)
                }
            },
            Phase::Rejecting { error, .. } => Phase::Failed(error),
            Phase::Confirming { session_id } => Phase::Relaying { session_id },
            phase => phase,
        }
    }

    /// Tells the connection what happened.
    pub fn step(self, event: ConnectionEvent) -> (r: Phase)
        ensures
            r@ == phase_next(self@, event@),
            self matches Phase::Port { addr } ==> (event matches ConnectionEvent::Bytes(b) ==> (
            b@.len() == 2 ==> r == (Phase::Creating {
                addr,
                port: (b@[0] * 256 + b@[1]) as u16,
            }))),
            self is Creating ==> (event matches ConnectionEvent::Responded(status) ==> r == (
            if status.code / 100 == 2 {
                Phase::ReadingSession
            } else {
                Phase::ReadingRefusal { line: status.line }
            })),
            self matches Phase::ReadingRefusal { line } ==> (
            event matches ConnectionEvent::Refusal(body) ==> r == (Phase::Rejecting {
                reply: REP_GENERAL_FAILURE,
                error: ClientError::Session(SessionError::Status { line, body }),
            })),
            self is ReadingSession ==> (event matches ConnectionEvent::Answer(answer) ==> (
            answer.error matches Some(reason) ==> r == (Phase::Rejecting {
                reply: REP_GENERAL_FAILURE,
                error: ClientError::Session(SessionError::Refused(reason)),
            }))),
            self is ReadingSession ==> (event matches ConnectionEvent::Answer(answer) ==> (
            answer.error is None ==> (answer.session_id matches Some(id) ==> r
                == (Phase::Confirming { session_id: id })))),
            self matches Phase::Confirming { session_id } ==> (event == ConnectionEvent::Written
                ==> r == (Phase::Relaying { session_id })),
            self matches Phase::Rejecting { reply: _, error } ==> (event
                == ConnectionEvent::Written ==> r == Phase::Failed(error)),
    {
        match event {
            ConnectionEvent::Bytes(b) => {
                if self.reads_greeting() {
                    self.negotiate_auth(Ok(b))
                } else {
                    self.read_connect_request(Ok(b))
                }
            },
            ConnectionEvent::Written => self.replied(),
            ConnectionEvent::IoFailed(reason) => {
                if self.reads_greeting() {
                    self.negotiate_auth(Err(reason))
                } else if self.reply_due().is_some() {
                    Phase::Failed(self.io_error(reason))
                } else {
                    self.read_connect_request(Err(reason))
                }
            },
            ConnectionEvent::NoClient(reason) => match self {
                Phase::Creating { .. } => Phase::without_session(SessionError::Client(reason)),
                phase => phase,
            },
            ConnectionEvent::RequestFailed => match self {
                Phase::Creating { .. } => Phase::without_session(SessionError::Request),
                phase => phase,
            },
            ConnectionEvent::Responded(status) => match self {
                Phase::Creating { .. } => {
                    if status.is_success() {
                        Phase::ReadingSession
                    } else {
                        Phase::ReadingRefusal { line: status.line }
                    }
                },
                phase => phase,
            },
            ConnectionEvent::Refusal(body) => match self {
                Phase::ReadingRefusal { line } => Phase::without_session(
                    SessionError::Status { line, body },
                ),
                phase => phase,
            },
            ConnectionEvent::BodyUnreadable => match self {
                Phase::ReadingSession => Phase::without_session(SessionError::Body),
                phase => phase,
            },
            ConnectionEvent::Answer(answer) => match self {
                Phase::ReadingSession => match session::create_session(answer) {
                    Ok(session_id) => Phase::Confirming { session_id },
                    Err(e) => Phase::without_session(e),
                },
                phase => phase,
            },
        }
    }
}

/// A client connection: the relay that it uses, how often that is polled, and how far the
/// connection has come.
#[derive(Debug, PartialEq, Eq)]
pub struct Connection {
    pub bridge_url: String,
    pub poll_interval_ms: u64,
    pub phase: Phase,
}

/// A new connection, which waits for the greeting.
pub fn handle_client(bridge_url: &str, poll_interval_ms: u64) -> (r: Connection)
    ensures
        r.bridge_url@ == bridge_url@,
        r.poll_interval_ms == poll_interval_ms,
        r.phase@ == PhaseView::Version,
{
    Connection { bridge_url: bridge_url.to_owned(), poll_interval_ms, phase: Phase::Version }
}

impl Connection {
    /// Tells the connection what happened.
    pub fn step(self, event: ConnectionEvent) -> (r: Connection)
        ensures
            r.bridge_url@ == self.bridge_url@,
            r.poll_interval_ms == self.poll_interval_ms,
            r.phase@ == phase_next(self.phase@, event@),
            r.bridge_url == self.bridge_url,
    {
        Connection {
            bridge_url: self.bridge_url,
            poll_interval_ms: self.poll_interval_ms,
            phase: self.phase.step(event),
        }
    }

    /// The request for a session, once the client has named its target.
    pub fn session_request(&self) -> (r: Option<CreateSessionRequest>)
        ensures
            match self.phase@ {
                PhaseView::Creating { addr, port } => {
                    &&& r is Some
                    &&& r->0.url@ == session::create_url(self.bridge_url@)
                    &&& r->0.target_addr@ == addr
                    &&& r->0.target_port == port
                },
                _ => r is None,
            },
            self.phase matches Phase::Creating { addr, port } ==> (r matches Some(request)
                && request.target_addr@ == addr@ && request.target_port == port),
    {
        match &self.phase {
            Phase::Creating { addr, port } => Some(
                session::create_request(self.bridge_url.as_str(), addr.as_str(), *port),
            ),
            _ => None,
        }
    }

    /// The tunnel over the session that was created, once the client has been told.
    pub fn tunnel(&self) -> (r: Option<Relay>)
        ensures
            match self.phase@ {
                PhaseView::Relaying { session_id } => {
                    &&& r is Some
                    &&& r->0.fresh(self.bridge_url@, session_id, self.poll_interval_ms)
                },
                _ => r is None,
            },
            self.phase matches Phase::Relaying { session_id } ==> (r matches Some(tunnel)
                && tunnel.fresh(self.bridge_url@, session_id@, self.poll_interval_ms)),
    {
        match &self.phase {
            Phase::Relaying { session_id } => Some(
                relay::relay(self.bridge_url.as_str(), session_id.as_str(), self.poll_interval_ms),
            ),
            _ => None,
        }
    }
}

} // verus!
