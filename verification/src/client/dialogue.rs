//! What a client gets for what it sends: laws of the handshake as a whole.
use vstd::prelude::*;
use vstd::utf8;

use crate::client::connection;
use crate::client::connection::{ConnectionEventView, PhaseView};
use crate::client::session;
use crate::client::socks5;
use crate::client::socks5::{
    ClientErrorView, ATYP_DOMAIN, ATYP_IPV4, ATYP_IPV6, AUTH_NONE, CMD_CONNECT,
    REP_CMD_NOT_SUPPORTED, REP_GENERAL_FAILURE, REP_SUCCESS, SOCKS5_VERSION,
};
use crate::http;
use crate::http::HttpStatusView;

verus! {

/// Where a handshake has come: its phase, what the client has been answered, and which of
/// the client's bytes have not been read.
pub struct Dialogue {
    pub phase: PhaseView,
    pub answered: Seq<u8>,
    pub unread: Seq<u8>,
}

/// How many phases can still follow one another without anything from the relay.
pub open spec fn phases_left(phase: PhaseView) -> nat {
    match phase {
        PhaseView::Version => 11,
        PhaseView::MethodCount => 10,
        PhaseView::Methods { count } => 9,
        PhaseView::AuthReply { accepted } => 8,
        PhaseView::RequestVersion => 7,
        PhaseView::RequestHead => 6,
        PhaseView::DomainLength => 5,
        PhaseView::Domain { length } => 4,
        PhaseView::Ipv4 => 4,
        PhaseView::Ipv6 => 4,
        PhaseView::Port { addr } => 3,
        PhaseView::Rejecting { reply, error } => 1,
        PhaseView::Confirming { session_id } => 1,
        _ => 0,
    }
}

/// The handshake with a client that sends `input` and then no more, up to where the relay
/// is asked or the handshake ends.  `eof` is the reason that a read past the end gives.
pub open spec fn converse(phase: PhaseView, input: Seq<u8>, eof: Seq<char>) -> Dialogue
    decreases phases_left(phase),
{
    match connection::bytes_wanted(phase) {
        Some(n) => {
            if input.len() < n {
                Dialogue {
                    phase: connection::phase_next(phase, ConnectionEventView::IoFailed(eof)),
                    answered: Seq::empty(),
                    unread: Seq::empty(),
                }
            } else {
                converse(
                    connection::phase_next(
                        phase,
                        ConnectionEventView::Bytes(input.take(n as int)),
                    ),
                    input.skip(n as int),
                    eof,
                )
            }
        },
        None => match connection::reply_due(phase) {
            Some(reply) => answering(
                reply,
                converse(
                    connection::phase_next(phase, ConnectionEventView::Written),
                    input,
                    eof,
                ),
            ),
            None => Dialogue { phase, answered: Seq::empty(), unread: input },
        },
    }
}

/// A dialogue that starts with this answer.
pub open spec fn answering(reply: Seq<u8>, then_on: Dialogue) -> Dialogue {
    Dialogue { answered: reply + then_on.answered, ..then_on }
}

/// The target that a request names.
pub enum Target {
    Ipv4(Seq<u8>),
    Domain(Seq<u8>),
    Ipv6(Seq<u8>),
}

impl Target {
    /// Whether the target has the length that its kind asks for, and a domain name is
    /// UTF-8.
    pub open spec fn valid(self) -> bool {
        match self {
            Target::Ipv4(b) => b.len() == 4,
            Target::Domain(b) => b.len() < 256 && utf8::valid_utf8(b),
            Target::Ipv6(b) => b.len() == 16,
        }
    }

    /// The address type of the target.
    pub open spec fn kind(self) -> u8 {
        match self {
            Target::Ipv4(_) => ATYP_IPV4,
            Target::Domain(_) => ATYP_DOMAIN,
            Target::Ipv6(_) => ATYP_IPV6,
        }
    }

    /// The target as it stands in a request.
    pub open spec fn wire(self) -> Seq<u8> {
        match self {
            Target::Ipv4(b) => b,
            Target::Domain(b) => seq![b.len() as u8] + b,
            Target::Ipv6(b) => b,
        }
    }

    /// The target as the relay is told.
    pub open spec fn told(self) -> Seq<char> {
        match self {
            Target::Ipv4(b) => socks5::ipv4_text(b),
            Target::Domain(b) => utf8::decode_utf8(b),
            Target::Ipv6(b) => socks5::hex_groups(b),
        }
    }
}

/// A greeting that offers these methods.
pub open spec fn greeting(methods: Seq<u8>) -> Seq<u8> {
    seq![SOCKS5_VERSION, methods.len() as u8] + methods
}

/// The start of a request.
pub open spec fn request_head(command: u8, reserved: u8, kind: u8) -> Seq<u8> {
    seq![SOCKS5_VERSION, command, reserved, kind]
}

/// A port as it stands in a request.
pub open spec fn port_bytes(port: u16) -> Seq<u8> {
    seq![(port / 256) as u8, (port % 256) as u8]
}

/// Whether a greeting can offer these methods, with "no authentication" among them.
pub open spec fn acceptable(methods: Seq<u8>) -> bool {
    methods.len() < 256 && methods.contains(AUTH_NONE)
}

/// A request to connect to a target.
pub open spec fn connect_request(reserved: u8, target: Target, port: u16) -> Seq<u8> {
    request_head(CMD_CONNECT, reserved, target.kind()) + (target.wire() + port_bytes(port))
}

/// All that a client sends to connect to a target.
pub open spec fn connect_message(
    methods: Seq<u8>,
    reserved: u8,
    target: Target,
    port: u16,
) -> Seq<u8> {
    greeting(methods) + connect_request(reserved, target, port)
}

/// The greeting, whatever it offers, leads to its answer.
proof fn greeting_is_answered(methods: Seq<u8>, tail: Seq<u8>, eof: Seq<char>)
    requires
        methods.len() < 256,
    ensures
        converse(PhaseView::Version, greeting(methods) + tail, eof) == answering(
            socks5::auth_reply(methods.contains(AUTH_NONE)),
            if methods.contains(AUTH_NONE) {
                converse(PhaseView::RequestVersion, tail, eof)
            } else {
                Dialogue {
                    phase: PhaseView::Failed(ClientErrorView::NoAcceptableMethod),
                    answered: Seq::empty(),
                    unread: tail,
                }
            },
        ),
{
    let input = greeting(methods) + tail;
    let count = methods.len() as u8;
    assert(input.take(1)[0] == SOCKS5_VERSION);
    let after_version = input.skip(1);
    assert(after_version.take(1)[0] == count);
    let after_count = after_version.skip(1);
    assert(after_count.take(count as int) =~= methods);
    assert(after_count.skip(count as int) =~= tail);
    assert(converse(PhaseView::Version, input, eof) == converse(
        PhaseView::MethodCount,
        after_version,
        eof,
    ));
    assert(converse(PhaseView::MethodCount, after_version, eof) == converse(
        PhaseView::Methods { count },
        after_count,
        eof,
    ));
    let accepted = methods.contains(AUTH_NONE);
    assert(converse(PhaseView::Methods { count }, after_count, eof) == converse(
        PhaseView::AuthReply { accepted },
        tail,
        eof,
    ));
    if accepted {
        assert(converse(PhaseView::AuthReply { accepted }, tail, eof) == answering(
            socks5::auth_reply(accepted),
            converse(PhaseView::RequestVersion, tail, eof),
        ));
    } else {
        let failed = PhaseView::Failed(ClientErrorView::NoAcceptableMethod);
        assert(converse(PhaseView::AuthReply { accepted }, tail, eof) == answering(
            socks5::auth_reply(accepted),
            converse(failed, tail, eof),
        ));
        assert(converse(failed, tail, eof) == (Dialogue {
            phase: failed,
            answered: Seq::empty(),
            unread: tail,
        }));
    }
}

/// The start of a request with the right version leads to where its command and address
/// type lead.
proof fn request_head_is_read(
    command: u8,
    reserved: u8,
    kind: u8,
    tail: Seq<u8>,
    eof: Seq<char>,
)
    ensures
        converse(
            PhaseView::RequestVersion,
            request_head(command, reserved, kind) + tail,
            eof,
        ) == converse(
            connection::after_bytes(PhaseView::RequestHead, seq![command, reserved, kind]),
            tail,
            eof,
        ),
{
    let input = request_head(command, reserved, kind) + tail;
    assert(input.take(1)[0] == SOCKS5_VERSION);
    let after_version = input.skip(1);
    assert(after_version.take(3) =~= seq![command, reserved, kind]);
    assert(after_version.skip(3) =~= tail);
    assert(converse(PhaseView::RequestVersion, input, eof) == converse(
        PhaseView::RequestHead,
        after_version,
        eof,
    ));
}

/// A port leads to asking the relay.
proof fn port_is_read(addr: Seq<char>, port: u16, tail: Seq<u8>, eof: Seq<char>)
    ensures
        converse(PhaseView::Port { addr }, port_bytes(port) + tail, eof) == (Dialogue {
            phase: PhaseView::Creating { addr, port },
            answered: Seq::empty(),
            unread: tail,
        }),
{
    let input = port_bytes(port) + tail;
    assert(input.take(2) =~= port_bytes(port));
    assert(input.skip(2) =~= tail);
    assert(socks5::port_number(port_bytes(port)) == port);
    let creating = PhaseView::Creating { addr, port };
    assert(converse(PhaseView::Port { addr }, input, eof) == converse(creating, tail, eof));
}

/// A target leads to its port.
proof fn target_is_read(target: Target, reserved: u8, tail: Seq<u8>, eof: Seq<char>)
    requires
        target.valid(),
    ensures
        converse(
            connection::after_bytes(
                PhaseView::RequestHead,
                seq![CMD_CONNECT, reserved, target.kind()],
            ),
            target.wire() + tail,
            eof,
        ) == converse(PhaseView::Port { addr: target.told() }, tail, eof),
{
    let input = target.wire() + tail;
    match target {
        Target::Ipv4(b) => {
            assert(input.take(4) =~= b);
            assert(input.skip(4) =~= tail);
        },
        Target::Domain(b) => {
            let length = b.len() as u8;
            assert(input.take(1)[0] == length);
            let after_length = input.skip(1);
            assert(after_length.take(b.len() as int) =~= b);
            assert(after_length.skip(b.len() as int) =~= tail);
            assert(converse(PhaseView::DomainLength, input, eof) == converse(
                PhaseView::Domain { length },
                after_length,
                eof,
            ));
        },
        Target::Ipv6(b) => {
            assert(input.take(16) =~= b);
            assert(input.skip(16) =~= tail);
        },
    }
}

/// A request to connect is answered by nothing before the relay is asked, and leads to
/// asking for its target.
proof fn connect_request_is_read(
    reserved: u8,
    target: Target,
    port: u16,
    tail: Seq<u8>,
    eof: Seq<char>,
)
    requires
        target.valid(),
    ensures
        converse(
            PhaseView::RequestVersion,
            connect_request(reserved, target, port) + tail,
            eof,
        ) == (Dialogue {
            phase: PhaseView::Creating { addr: target.told(), port },
            answered: Seq::empty(),
            unread: tail,
        }),
{
    let after_target = port_bytes(port) + tail;
    let after_head = target.wire() + after_target;
    assert(connect_request(reserved, target, port) + tail =~= request_head(
        CMD_CONNECT,
        reserved,
        target.kind(),
    ) + after_head);
    request_head_is_read(CMD_CONNECT, reserved, target.kind(), after_head, eof);
    target_is_read(target, reserved, after_target, eof);
    port_is_read(target.told(), port, tail, eof);
}

/// A client that offers "no authentication" and asks to connect is accepted, and the relay
/// is asked for a session to exactly the target and port that the client names.  What the
/// client sends after its request is left for the tunnel.
pub proof fn connect_message_reaches_the_relay(
    methods: Seq<u8>,
    reserved: u8,
    target: Target,
    port: u16,
    tail: Seq<u8>,
    eof: Seq<char>,
)
    requires
        acceptable(methods),
        target.valid(),
    ensures
        converse(
            PhaseView::Version,
            connect_message(methods, reserved, target, port) + tail,
            eof,
        ) == (Dialogue {
            phase: PhaseView::Creating { addr: target.told(), port },
            answered: socks5::auth_reply(true),
            unread: tail,
        }),
{
    let request = connect_request(reserved, target, port) + tail;
    assert(connect_message(methods, reserved, target, port) + tail =~= greeting(methods)
        + request);
    greeting_is_answered(methods, request, eof);
    connect_request_is_read(reserved, target, port, tail, eof);
    assert(socks5::auth_reply(true) + Seq::<u8>::empty() =~= socks5::auth_reply(true));
}

/// The relay is told a domain name as the client wrote it.
pub proof fn domain_names_pass_unchanged(host: Seq<char>)
    requires
        utf8::encode_utf8(host).len() < 256,
    ensures
        Target::Domain(utf8::encode_utf8(host)).valid(),
        Target::Domain(utf8::encode_utf8(host)).told() == host,
{
    utf8::encode_utf8_valid_utf8(host);
    utf8::encode_utf8_decode_utf8(host);
}

/// The target that a text stands for, by the address type.
pub open spec fn read_told(kind: u8, told: Seq<char>) -> Option<Target> {
    if kind == ATYP_IPV4 {
        match socks5::read_ipv4(told) {
            Some(b) => Some(Target::Ipv4(b)),
            None => None,
        }
    } else if kind == ATYP_DOMAIN {
        Some(Target::Domain(utf8::encode_utf8(told)))
    } else if kind == ATYP_IPV6 {
        match socks5::read_ipv6(told) {
            Some(b) => Some(Target::Ipv6(b)),
            None => None,
        }
    } else {
        None
    }
}

/// What the relay is told reads back to the target: an IPv4 address as four decimal numbers,
/// an IPv6 address in full, with 39 characters, and a domain name as its bytes.
pub proof fn told_targets_read_back(target: Target)
    requires
        target.valid(),
    ensures
        read_told(target.kind(), target.told()) == Some(target),
        target is Ipv6 ==> target.told().len() == 39,
{
    match target {
        Target::Ipv4(b) => {
            socks5::ipv4_text_reads_back(b);
        },
        Target::Domain(b) => {
            utf8::decode_utf8_encode_utf8(b);
        },
        Target::Ipv6(b) => {
            socks5::ipv6_text_reads_back(b);
            socks5::hex_groups_length(b);
        },
    }
}

/// The relay is told enough to find the target: targets of one kind that it is told alike
/// are the same.
pub proof fn told_targets_are_unambiguous(s: Target, t: Target)
    requires
        s.valid(),
        t.valid(),
        s.kind() == t.kind(),
        s.told() == t.told(),
    ensures
        s == t,
{
    told_targets_read_back(s);
    told_targets_read_back(t);
}

/// A port and its two bytes determine each other.
pub proof fn ports_read_back(port: u16, b: Seq<u8>)
    requires
        b.len() == 2,
    ensures
        socks5::port_number(port_bytes(port)) == port,
        port_bytes(socks5::port_number(b)) == b,
{
    assert(port_bytes(socks5::port_number(b)) =~= b);
}

/// The address and the port that the relay is told for a request read back to the bytes of
/// the address and of the port in it.
pub proof fn told_request_reads_back(
    reserved: u8,
    target: Target,
    port: u16,
    tail: Seq<u8>,
    eof: Seq<char>,
)
    requires
        target.valid(),
    ensures
        converse(
            PhaseView::RequestVersion,
            connect_request(reserved, target, port) + tail,
            eof,
        ).phase matches PhaseView::Creating { addr, port: told_port } && {
            &&& read_told(target.kind(), addr) == Some(target)
            &&& port_bytes(told_port) == port_bytes(port)
        },
{
    connect_request_is_read(reserved, target, port, tail, eof);
    told_targets_read_back(target);
}

/// Nothing but a request to connect leads to asking the relay, and the relay is told that
/// request's target.
pub proof fn only_connect_requests_reach_the_relay(request: Seq<u8>, eof: Seq<char>)
    requires
        converse(PhaseView::RequestVersion, request, eof).phase is Creating,
    ensures
        exists|reserved: u8, target: Target, port: u16|
            {
                &&& target.valid()
                &&& request == #[trigger] connect_request(reserved, target, port) + converse(
                    PhaseView::RequestVersion,
                    request,
                    eof,
                ).unread
                &&& converse(PhaseView::RequestVersion, request, eof).phase
                    == (PhaseView::Creating { addr: target.told(), port })
            },
{
    let r = converse(PhaseView::RequestVersion, request, eof);
    assert(request.len() >= 1);
    assert(request.take(1)[0] == request[0]);
    assert(request[0] == SOCKS5_VERSION) by {
        let failed = PhaseView::Failed(ClientErrorView::UnexpectedVersion(request[0]));
        assert(converse(failed, request.skip(1), eof).phase == failed);
    }
    let after_version = request.skip(1);
    assert(r == converse(PhaseView::RequestHead, after_version, eof));
    assert(after_version.len() >= 3);
    let command = request[1];
    let reserved = request[2];
    let kind = request[3];
    let named = request.skip(4);
    assert(request =~= request_head(command, reserved, kind) + named);
    request_head_is_read(command, reserved, kind, named, eof);
    let start = connection::after_bytes(PhaseView::RequestHead, seq![command, reserved, kind]);
    assert(r == converse(start, named, eof));
    assert(!(start is Rejecting)) by {
        if let PhaseView::Rejecting { reply, error } = start {
            let failed = PhaseView::Failed(error);
            assert(converse(failed, named, eof).phase == failed);
        }
    }
    let (target, after_target) = read_target(kind, named, eof);
    target_is_read(target, reserved, after_target, eof);
    let addr = target.told();
    assert(r == converse(PhaseView::Port { addr }, after_target, eof));
    assert(after_target.len() >= 2);
    let port = socks5::port_number(after_target.take(2));
    let unread = after_target.skip(2);
    assert(after_target =~= port_bytes(port) + unread);
    port_is_read(addr, port, unread, eof);
    assert(request =~= connect_request(reserved, target, port) + unread);
}

/// Nothing else reaches the relay: where the relay is asked, the client has sent a
/// greeting that offers "no authentication" and a request to connect, and the relay is
/// told that request's target.
pub proof fn only_connect_messages_reach_the_relay(input: Seq<u8>, eof: Seq<char>)
    requires
        converse(PhaseView::Version, input, eof).phase is Creating,
    ensures
        exists|methods: Seq<u8>, reserved: u8, target: Target, port: u16|
            {
                &&& acceptable(methods)
                &&& target.valid()
                &&& input == #[trigger] connect_message(methods, reserved, target, port)
                    + converse(PhaseView::Version, input, eof).unread
                &&& converse(PhaseView::Version, input, eof).phase == (PhaseView::Creating {
                    addr: target.told(),
                    port,
                })
            },
{
    let d = converse(PhaseView::Version, input, eof);
    assert(input.len() >= 1);
    assert(input.take(1)[0] == input[0]);
    assert(input[0] == SOCKS5_VERSION) by {
        let failed = PhaseView::Failed(ClientErrorView::UnsupportedVersion(input[0]));
        assert(converse(failed, input.skip(1), eof).phase == failed);
    }
    let after_version = input.skip(1);
    assert(d == converse(PhaseView::MethodCount, after_version, eof));
    assert(after_version.len() >= 1);
    let count = input[1];
    assert(after_version.take(1)[0] == count);
    let after_count = after_version.skip(1);
    assert(d == converse(PhaseView::Methods { count }, after_count, eof));
    assert(after_count.len() >= count);
    let methods = after_count.take(count as int);
    let request = after_count.skip(count as int);
    assert(input =~= greeting(methods) + request);
    greeting_is_answered(methods, request, eof);
    let r = converse(PhaseView::RequestVersion, request, eof);
    assert(d.phase == r.phase);
    assert(d.unread == r.unread);
    only_connect_requests_reach_the_relay(request, eof);
    let (reserved, target, port) = choose|reserved: u8, target: Target, port: u16|
        {
            &&& target.valid()
            &&& request == #[trigger] connect_request(reserved, target, port) + r.unread
            &&& r.phase == (PhaseView::Creating { addr: target.told(), port })
        };
    assert(input =~= connect_message(methods, reserved, target, port) + d.unread);
}

/// Splits what follows the start of a request that reaches the relay into its target and
/// the rest.
proof fn read_target(kind: u8, named: Seq<u8>, eof: Seq<char>) -> (r: (Target, Seq<u8>))
    requires
        kind == ATYP_IPV4 || kind == ATYP_DOMAIN || kind == ATYP_IPV6,
        converse(
            connection::after_bytes(PhaseView::RequestHead, seq![CMD_CONNECT, 0, kind]),
            named,
            eof,
        ).phase is Creating,
    ensures
        r.0.kind() == kind,
        r.0.valid(),
        named == r.0.wire() + r.1,
{
    if kind == ATYP_IPV4 {
        assert(named.len() >= 4);
        assert(named =~= named.take(4) + named.skip(4));
        (Target::Ipv4(named.take(4)), named.skip(4))
    } else if kind == ATYP_IPV6 {
        assert(named.len() >= 16);
        assert(named =~= named.take(16) + named.skip(16));
        (Target::Ipv6(named.take(16)), named.skip(16))
    } else {
        assert(named.len() >= 1);
        let length = named[0];
        assert(named.take(1)[0] == length);
        let after_length = named.skip(1);
        assert(converse(PhaseView::DomainLength, named, eof) == converse(
            PhaseView::Domain { length },
            after_length,
            eof,
        ));
        assert(after_length.len() >= length);
        let name = after_length.take(length as int);
        let rest = after_length.skip(length as int);
        assert(utf8::valid_utf8(name)) by {
            let failed = PhaseView::Failed(ClientErrorView::DomainNotUtf8);
            assert(converse(failed, rest, eof).phase == failed);
        }
        assert(named =~= Target::Domain(name).wire() + rest);
        (Target::Domain(name), rest)
    }
}

/// A handshake that has failed with this error, this answer and these bytes unread.
pub open spec fn failed(error: ClientErrorView, answered: Seq<u8>, unread: Seq<u8>) -> Dialogue {
    Dialogue { phase: PhaseView::Failed(error), answered, unread }
}

/// A failed handshake goes on to nothing.
proof fn failure_is_the_end(error: ClientErrorView, input: Seq<u8>, eof: Seq<char>)
    ensures
        converse(PhaseView::Failed(error), input, eof) == failed(error, Seq::empty(), input),
{
}

/// A client that does not speak version five gets no answer.
pub proof fn other_versions_get_no_answer(version: u8, tail: Seq<u8>, eof: Seq<char>)
    requires
        version != SOCKS5_VERSION,
    ensures
        converse(PhaseView::Version, seq![version] + tail, eof) == failed(
            ClientErrorView::UnsupportedVersion(version),
            Seq::empty(),
            tail,
        ),
{
    let input = seq![version] + tail;
    assert(input.take(1)[0] == version);
    assert(input.skip(1) =~= tail);
    failure_is_the_end(ClientErrorView::UnsupportedVersion(version), tail, eof);
}

/// A client that does not offer "no authentication" is told that no method is acceptable,
/// and nothing more.
pub proof fn other_methods_are_refused(methods: Seq<u8>, tail: Seq<u8>, eof: Seq<char>)
    requires
        methods.len() < 256,
        !methods.contains(AUTH_NONE),
    ensures
        converse(PhaseView::Version, greeting(methods) + tail, eof) == failed(
            ClientErrorView::NoAcceptableMethod,
            socks5::auth_reply(false),
            tail,
        ),
{
    greeting_is_answered(methods, tail, eof);
    assert(socks5::auth_reply(false) + Seq::<u8>::empty() =~= socks5::auth_reply(false));
}

/// A request of another version than five gets no answer beyond that to the greeting.
pub proof fn other_request_versions_get_no_answer(
    methods: Seq<u8>,
    version: u8,
    tail: Seq<u8>,
    eof: Seq<char>,
)
    requires
        acceptable(methods),
        version != SOCKS5_VERSION,
    ensures
        converse(PhaseView::Version, greeting(methods) + (seq![version] + tail), eof) == failed(
            ClientErrorView::UnexpectedVersion(version),
            socks5::auth_reply(true),
            tail,
        ),
{
    let request = seq![version] + tail;
    greeting_is_answered(methods, request, eof);
    assert(request.take(1)[0] == version);
    assert(request.skip(1) =~= tail);
    failure_is_the_end(ClientErrorView::UnexpectedVersion(version), tail, eof);
    assert(socks5::auth_reply(true) + Seq::<u8>::empty() =~= socks5::auth_reply(true));
}

/// A request whose head is rejected is answered with that rejection, and nothing more.
proof fn rejection_is_answered(
    methods: Seq<u8>,
    command: u8,
    reserved: u8,
    kind: u8,
    reply: u8,
    error: ClientErrorView,
    tail: Seq<u8>,
    eof: Seq<char>,
)
    requires
        acceptable(methods),
        connection::after_bytes(PhaseView::RequestHead, seq![command, reserved, kind])
            == (PhaseView::Rejecting { reply, error }),
    ensures
        converse(
            PhaseView::Version,
            greeting(methods) + (request_head(command, reserved, kind) + tail),
            eof,
        ) == failed(error, socks5::auth_reply(true) + socks5::connect_reply(reply), tail),
{
    greeting_is_answered(methods, request_head(command, reserved, kind) + tail, eof);
    request_head_is_read(command, reserved, kind, tail, eof);
    failure_is_the_end(error, tail, eof);
    assert(converse(PhaseView::Rejecting { reply, error }, tail, eof) == answering(
        socks5::connect_reply(reply),
        converse(PhaseView::Failed(error), tail, eof),
    ));
    assert(socks5::connect_reply(reply) + Seq::<u8>::empty() =~= socks5::connect_reply(reply));
}

/// A command other than CONNECT is answered with "command not supported".
pub proof fn other_commands_are_refused(
    methods: Seq<u8>,
    command: u8,
    reserved: u8,
    kind: u8,
    tail: Seq<u8>,
    eof: Seq<char>,
)
    requires
        acceptable(methods),
        command != CMD_CONNECT,
    ensures
        converse(
            PhaseView::Version,
            greeting(methods) + (request_head(command, reserved, kind) + tail),
            eof,
        ) == failed(
            ClientErrorView::UnsupportedCommand(command),
            socks5::auth_reply(true) + socks5::connect_reply(REP_CMD_NOT_SUPPORTED),
            tail,
        ),
{
    rejection_is_answered(
        methods,
        command,
        reserved,
        kind,
        REP_CMD_NOT_SUPPORTED,
        ClientErrorView::UnsupportedCommand(command),
        tail,
        eof,
    );
}

/// An address type that is not known is answered with "general failure".
pub proof fn other_address_types_are_refused(
    methods: Seq<u8>,
    reserved: u8,
    kind: u8,
    tail: Seq<u8>,
    eof: Seq<char>,
)
    requires
        acceptable(methods),
        kind != ATYP_IPV4,
        kind != ATYP_DOMAIN,
        kind != ATYP_IPV6,
    ensures
        converse(
            PhaseView::Version,
            greeting(methods) + (request_head(CMD_CONNECT, reserved, kind) + tail),
            eof,
        ) == failed(
            ClientErrorView::UnsupportedAddressType(kind),
            socks5::auth_reply(true) + socks5::connect_reply(REP_GENERAL_FAILURE),
            tail,
        ),
{
    rejection_is_answered(
        methods,
        CMD_CONNECT,
        reserved,
        kind,
        REP_GENERAL_FAILURE,
        ClientErrorView::UnsupportedAddressType(kind),
        tail,
        eof,
    );
}

/// A domain name that is not UTF-8 gets no answer beyond that to the greeting.
pub proof fn malformed_domain_names_get_no_answer(
    methods: Seq<u8>,
    reserved: u8,
    name: Seq<u8>,
    tail: Seq<u8>,
    eof: Seq<char>,
)
    requires
        acceptable(methods),
        name.len() < 256,
        !utf8::valid_utf8(name),
    ensures
        converse(
            PhaseView::Version,
            greeting(methods) + (request_head(CMD_CONNECT, reserved, ATYP_DOMAIN)
                + (Target::Domain(name).wire() + tail)),
            eof,
        ) == failed(ClientErrorView::DomainNotUtf8, socks5::auth_reply(true), tail),
{
    let named = Target::Domain(name).wire() + tail;
    greeting_is_answered(methods, request_head(CMD_CONNECT, reserved, ATYP_DOMAIN) + named, eof);
    request_head_is_read(CMD_CONNECT, reserved, ATYP_DOMAIN, named, eof);
    let length = name.len() as u8;
    assert(named.take(1)[0] == length);
    let after_length = named.skip(1);
    assert(after_length.take(length as int) =~= name);
    assert(after_length.skip(length as int) =~= tail);
    assert(converse(PhaseView::DomainLength, named, eof) == converse(
        PhaseView::Domain { length },
        after_length,
        eof,
    ));
    failure_is_the_end(ClientErrorView::DomainNotUtf8, tail, eof);
    assert(socks5::auth_reply(true) + Seq::<u8>::empty() =~= socks5::auth_reply(true));
}

/// Wherever a request that would reach the relay is cut short, the read past its end is all
/// that happens.
proof fn cut_is_noticed(phase: PhaseView, request: Seq<u8>, n: int, eof: Seq<char>)
    requires
        connection::reads_request(phase),
        converse(phase, request, eof).phase is Creating,
        converse(phase, request, eof).unread.len() == 0,
        0 <= n < request.len(),
    ensures
        converse(phase, request.take(n), eof) == failed(
            ClientErrorView::Io(eof),
            Seq::empty(),
            Seq::empty(),
        ),
    decreases phases_left(phase),
{
    let wanted = connection::bytes_wanted(phase)->0 as int;
    assert(request.len() >= wanted);
    if n >= wanted {
        let part = request.take(wanted);
        let rest = request.skip(wanted);
        let next = connection::after_bytes(phase, part);
        assert(converse(phase, request, eof) == converse(next, rest, eof));
        if let PhaseView::Rejecting { reply, error } = next {
            failure_is_the_end(error, rest, eof);
        }
        assert(connection::reads_request(next));
        assert(request.take(n).take(wanted) =~= part);
        assert(request.take(n).skip(wanted) =~= rest.take(n - wanted));
        assert(converse(phase, request.take(n), eof) == converse(
            next,
            rest.take(n - wanted),
            eof,
        ));
        cut_is_noticed(next, rest, n - wanted, eof);
    }
}

/// A client that ends in the middle of a request that the relay would have been asked for
/// gets no answer to it, and the relay is not asked.
pub proof fn cut_requests_get_no_answer(request: Seq<u8>, n: int, eof: Seq<char>)
    requires
        converse(PhaseView::RequestVersion, request, eof).phase is Creating,
        converse(PhaseView::RequestVersion, request, eof).unread == Seq::<u8>::empty(),
        0 <= n < request.len(),
    ensures
        converse(PhaseView::RequestVersion, request.take(n), eof) == failed(
            ClientErrorView::Io(eof),
            Seq::empty(),
            Seq::empty(),
        ),
{
    cut_is_noticed(PhaseView::RequestVersion, request, n, eof);
}

/// A client that ends in the middle of its greeting gets no answer.
pub proof fn cut_greetings_get_no_answer(methods: Seq<u8>, n: int, eof: Seq<char>)
    requires
        methods.len() < 256,
        0 <= n < greeting(methods).len(),
    ensures
        converse(PhaseView::Version, greeting(methods).take(n), eof) == failed(
            if n == 0 {
                ClientErrorView::ReadingVersion
            } else if n == 1 {
                ClientErrorView::ReadingMethodCount
            } else {
                ClientErrorView::ReadingMethods
            },
            Seq::empty(),
            Seq::empty(),
        ),
{
    let input = greeting(methods).take(n);
    let count = methods.len() as u8;
    if n >= 1 {
        assert(input.take(1)[0] == SOCKS5_VERSION);
        let after_version = input.skip(1);
        assert(converse(PhaseView::Version, input, eof) == converse(
            PhaseView::MethodCount,
            after_version,
            eof,
        ));
        if n >= 2 {
            assert(after_version.take(1)[0] == count);
            assert(converse(PhaseView::MethodCount, after_version, eof) == converse(
                PhaseView::Methods { count },
                after_version.skip(1),
                eof,
            ));
        }
    }
}

/// A client that ends in the middle of its message to connect never reaches the relay.  It
/// is answered nothing, or, where its greeting was complete, only the greeting.
pub proof fn cut_messages_fail(
    methods: Seq<u8>,
    reserved: u8,
    target: Target,
    port: u16,
    n: int,
    eof: Seq<char>,
)
    requires
        acceptable(methods),
        target.valid(),
        0 <= n < connect_message(methods, reserved, target, port).len(),
    ensures
        ({
            let d = converse(
                PhaseView::Version,
                connect_message(methods, reserved, target, port).take(n),
                eof,
            );
            &&& d.phase is Failed
            &&& d.answered == if n < greeting(methods).len() {
                Seq::empty()
            } else {
                socks5::auth_reply(true)
            }
            &&& d.unread == Seq::<u8>::empty()
        }),
{
    let message = connect_message(methods, reserved, target, port);
    let request = connect_request(reserved, target, port);
    let m = greeting(methods).len() as int;
    if n < m {
        assert(message.take(n) =~= greeting(methods).take(n));
        cut_greetings_get_no_answer(methods, n, eof);
    } else {
        let part = request.take(n - m);
        assert(message.take(n) =~= greeting(methods) + part);
        greeting_is_answered(methods, part, eof);
        assert(request + Seq::<u8>::empty() =~= request);
        connect_request_is_read(reserved, target, port, Seq::empty(), eof);
        cut_requests_get_no_answer(request, n - m, eof);
        assert(socks5::auth_reply(true) + Seq::<u8>::empty() =~= socks5::auth_reply(true));
    }
}

/// The phase to which a history of events leads from `phase`.
pub open spec fn phase_from(phase: PhaseView, events: Seq<ConnectionEventView>) -> PhaseView
    decreases events.len(),
{
    if events.len() == 0 {
        phase
    } else {
        connection::phase_next(phase_from(phase, events.drop_last()), events.last())
    }
}

/// A connection that has no session fails for this reason, and its client is answered with
/// "general failure".
proof fn missing_session_is_answered(
    error: session::SessionErrorView,
    input: Seq<u8>,
    eof: Seq<char>,
)
    ensures
        converse(connection::without_session(error), input, eof) == failed(
            ClientErrorView::Session(error),
            socks5::connect_reply(REP_GENERAL_FAILURE),
            input,
        ),
{
    let e = ClientErrorView::Session(error);
    failure_is_the_end(e, input, eof);
    assert(converse(connection::without_session(error), input, eof) == answering(
        socks5::connect_reply(REP_GENERAL_FAILURE),
        converse(PhaseView::Failed(e), input, eof),
    ));
    assert(socks5::connect_reply(REP_GENERAL_FAILURE) + Seq::<u8>::empty()
        =~= socks5::connect_reply(REP_GENERAL_FAILURE));
}

/// A client whose request the relay grants is answered with success, and its tunnel runs
/// over the session that the relay names.  If the relay's answer names an error or no
/// session, the client is answered with "general failure".
pub proof fn answer_of_the_relay_decides(
    addr: Seq<char>,
    port: u16,
    status: HttpStatusView,
    answer: session::CreateSessionResponseView,
    input: Seq<u8>,
    eof: Seq<char>,
)
    requires
        http::success_code(status.code),
    ensures
        converse(
            phase_from(
                PhaseView::Creating { addr, port },
                seq![ConnectionEventView::Responded(status), ConnectionEventView::Answer(answer)],
            ),
            input,
            eof,
        ) == match session::answered(answer) {
            Ok(session_id) => Dialogue {
                phase: PhaseView::Relaying { session_id },
                answered: socks5::connect_reply(REP_SUCCESS),
                unread: input,
            },
            Err(e) => failed(
                ClientErrorView::Session(e),
                socks5::connect_reply(REP_GENERAL_FAILURE),
                input,
            ),
        },
{
    let asking = PhaseView::Creating { addr, port };
    let responded = ConnectionEventView::Responded(status);
    let answered = ConnectionEventView::Answer(answer);
    let events = seq![responded, answered];
    assert(events.drop_last() =~= seq![responded]);
    assert(seq![responded].drop_last() =~= Seq::empty());
    assert(phase_from(asking, Seq::empty()) == asking);
    assert(phase_from(asking, seq![responded]) == PhaseView::ReadingSession);
    assert(phase_from(asking, events) == connection::after_answer(answer));
    match session::answered(answer) {
        Ok(session_id) => {
            let confirming = PhaseView::Confirming { session_id };
            let relaying = PhaseView::Relaying { session_id };
            assert(converse(confirming, input, eof) == answering(
                socks5::connect_reply(REP_SUCCESS),
                converse(relaying, input, eof),
            ));
            assert(converse(relaying, input, eof) == (Dialogue {
                phase: relaying,
                answered: Seq::empty(),
                unread: input,
            }));
            assert(socks5::connect_reply(REP_SUCCESS) + Seq::<u8>::empty()
                =~= socks5::connect_reply(REP_SUCCESS));
        },
        Err(e) => {
            missing_session_is_answered(e, input, eof);
        },
    }
}

/// The handshake with a client that sends `input`, where the relay is asked and gives this
/// answer.
pub open spec fn answered_dialogue(
    input: Seq<u8>,
    status: HttpStatusView,
    answer: session::CreateSessionResponseView,
    eof: Seq<char>,
) -> Dialogue {
    let asked = converse(PhaseView::Version, input, eof);
    answering(
        asked.answered,
        converse(
            phase_from(
                asked.phase,
                seq![ConnectionEventView::Responded(status), ConnectionEventView::Answer(answer)],
            ),
            asked.unread,
            eof,
        ),
    )
}

/// The events of a request for a session that gives no answer, and why there is no session
/// then: no HTTP client, no reply, a status that is no success with what the relay says
/// about it, or a reply that is not the JSON that is asked for.
pub open spec fn unanswered(
    events: Seq<ConnectionEventView>,
    error: session::SessionErrorView,
) -> bool {
    match error {
        session::SessionErrorView::Client(reason) => events == seq![
            ConnectionEventView::NoClient(reason),
        ],
        session::SessionErrorView::Request => events == seq![ConnectionEventView::RequestFailed],
        session::SessionErrorView::Status { line, body } => exists|code: u16|
            !http::success_code(code) && events == #[trigger] refusal_events(code, line, body),
        session::SessionErrorView::Body => exists|status: HttpStatusView|
            http::success_code(status.code) && events == #[trigger] unreadable_events(status),
        _ => false,
    }
}

/// The events of a request that the relay refuses by its status.
pub open spec fn refusal_events(code: u16, line: Seq<char>, body: Seq<char>) -> Seq<
    ConnectionEventView,
> {
    seq![
        ConnectionEventView::Responded(HttpStatusView { code, line }),
        ConnectionEventView::Refusal(body),
    ]
}

/// The events of a request whose answer is not the JSON that is asked for.
pub open spec fn unreadable_events(status: HttpStatusView) -> Seq<ConnectionEventView> {
    seq![ConnectionEventView::Responded(status), ConnectionEventView::BodyUnreadable]
}

/// A client whose request for a session goes wrong in any way is answered with "general
/// failure", and its connection fails for the reason.
pub proof fn failed_requests_are_answered(
    addr: Seq<char>,
    port: u16,
    events: Seq<ConnectionEventView>,
    error: session::SessionErrorView,
    input: Seq<u8>,
    eof: Seq<char>,
)
    requires
        unanswered(events, error),
    ensures
        converse(phase_from(PhaseView::Creating { addr, port }, events), input, eof) == failed(
            ClientErrorView::Session(error),
            socks5::connect_reply(REP_GENERAL_FAILURE),
            input,
        ),
{
    let asking = PhaseView::Creating { addr, port };
    let before = events.drop_last();
    assert(phase_from(asking, Seq::empty()) == asking);
    if before.len() == 0 {
        assert(before =~= Seq::empty());
    } else {
        assert(before.len() == 1);
        assert(before.drop_last() =~= Seq::empty());
        assert(before.last() == events[0]);
        assert(phase_from(asking, before) == connection::phase_next(asking, events[0]));
    }
    assert(phase_from(asking, events) == connection::without_session(error));
    missing_session_is_answered(error, input, eof);
}

/// The phase after a history of events from the start of the connection.
pub open spec fn phase_after(events: Seq<ConnectionEventView>) -> PhaseView {
    phase_from(PhaseView::Version, events)
}

/// What has been written to the client in a history.
pub open spec fn written_to_client(events: Seq<ConnectionEventView>) -> Seq<u8>
    decreases events.len(),
{
    if events.len() == 0 {
        Seq::empty()
    } else {
        let before = written_to_client(events.drop_last());
        match (connection::reply_due(phase_after(events.drop_last())), events.last()) {
            (Some(reply), ConnectionEventView::Written) => before + reply,
            _ => before,
        }
    }
}

/// The reply code with which a request is refused for this error.
pub open spec fn refusal_code(error: ClientErrorView) -> u8 {
    if error is UnsupportedCommand {
        REP_CMD_NOT_SUPPORTED
    } else {
        REP_GENERAL_FAILURE
    }
}

/// All that a client is written when its connection fails for this error.  Where a read or
/// write failed, that can be nothing or the answer to the greeting.
pub open spec fn written_on_failure(error: ClientErrorView, written: Seq<u8>) -> bool {
    match error {
        ClientErrorView::ReadingVersion => written == Seq::<u8>::empty(),
        ClientErrorView::ReadingMethodCount => written == Seq::<u8>::empty(),
        ClientErrorView::ReadingMethods => written == Seq::<u8>::empty(),
        ClientErrorView::UnsupportedVersion(v) => written == Seq::<u8>::empty(),
        ClientErrorView::NoAcceptableMethod => written == socks5::auth_reply(false),
        ClientErrorView::UnexpectedVersion(v) => written == socks5::auth_reply(true),
        ClientErrorView::DomainNotUtf8 => written == socks5::auth_reply(true),
        ClientErrorView::Io(reason) => written == Seq::<u8>::empty() || written
            == socks5::auth_reply(true),
        ClientErrorView::UnsupportedCommand(c) => written == socks5::auth_reply(true)
            + socks5::connect_reply(refusal_code(error)),
        ClientErrorView::UnsupportedAddressType(t) => written == socks5::auth_reply(true)
            + socks5::connect_reply(refusal_code(error)),
        ClientErrorView::Session(e) => written == socks5::auth_reply(true)
            + socks5::connect_reply(refusal_code(error)),
    }
}

/// Whatever happens, a client is answered consistently: the tunnel is open exactly after
/// its success was written, a connection that fails was never told success, and each
/// refused request was told its reply, once.
pub proof fn clients_are_answered_consistently(events: Seq<ConnectionEventView>)
    ensures
        match phase_after(events) {
            PhaseView::Version => written_to_client(events) == Seq::<u8>::empty(),
            PhaseView::MethodCount => written_to_client(events) == Seq::<u8>::empty(),
            PhaseView::Methods { count } => written_to_client(events) == Seq::<u8>::empty(),
            PhaseView::AuthReply { accepted } => written_to_client(events) == Seq::<u8>::empty(),
            PhaseView::Relaying { session_id } => written_to_client(events) == socks5::auth_reply(
                true,
            ) + socks5::connect_reply(REP_SUCCESS),
            PhaseView::Failed(error) => written_on_failure(error, written_to_client(events)),
            PhaseView::Rejecting { reply, error } => {
                &&& written_to_client(events) == socks5::auth_reply(true)
                &&& reply == refusal_code(error)
                &&& error is UnsupportedCommand || error is UnsupportedAddressType
                    || error is Session
            },
            _ => written_to_client(events) == socks5::auth_reply(true),
        },
    decreases events.len(),
{
    if events.len() > 0 {
        let before = events.drop_last();
        clients_are_answered_consistently(before);
        let empty = Seq::<u8>::empty();
        assert(empty + socks5::auth_reply(true) =~= socks5::auth_reply(true));
        assert(empty + socks5::auth_reply(false) =~= socks5::auth_reply(false));
    }
}

/// Whether this event is an answer of the relay that names this session, and no error.
pub open spec fn names_session(event: ConnectionEventView, session_id: Seq<char>) -> bool {
    event matches ConnectionEventView::Answer(answer) && session::answered(answer) == Ok::<
        Seq<char>,
        session::SessionErrorView,
    >(session_id)
}

/// A tunnel runs over a session that the relay named for this connection.
pub proof fn tunnels_use_the_named_session(events: Seq<ConnectionEventView>)
    ensures
        phase_after(events) matches PhaseView::Confirming { session_id } ==> exists|i: int|
            0 <= i < events.len() && #[trigger] names_session(events[i], session_id),
        phase_after(events) matches PhaseView::Relaying { session_id } ==> exists|i: int|
            0 <= i < events.len() && #[trigger] names_session(events[i], session_id),
    decreases events.len(),
{
    if events.len() > 0 {
        let before = events.drop_last();
        tunnels_use_the_named_session(before);
        assert(forall|i: int| 0 <= i < before.len() ==> before[i] == events[i]);
        let last = events.len() - 1;
        let id = match phase_after(events) {
            PhaseView::Confirming { session_id } => session_id,
            PhaseView::Relaying { session_id } => session_id,
            _ => Seq::empty(),
        };
        if phase_after(before) is ReadingSession {
            assert(phase_after(events) is Confirming ==> names_session(events[last], id));
        } else if phase_after(events) is Confirming || phase_after(events) is Relaying {
            let i = choose|i: int| 0 <= i < before.len() && #[trigger] names_session(before[i], id);
            assert(names_session(events[i], id));
        }
    }
}

/// A connection that has ended stays as it is, whatever happens.
pub proof fn ended_connections_stay_ended(phase: PhaseView, event: ConnectionEventView)
    requires
        phase is Relaying || phase is Failed,
    ensures
        connection::phase_next(phase, event) == phase,
{
}

/// Whether a phase waits for events of this form: bytes as many as it wants where it reads, a
/// finished write where it answers, a failure where it does either, and the outcomes of a
/// request to the relay where it makes one.
pub open spec fn heeds(phase: PhaseView, event: ConnectionEventView) -> bool {
    match event {
        ConnectionEventView::Bytes(b) => connection::bytes_wanted(phase) == Some(b.len()),
        ConnectionEventView::Written => phase is AuthReply || phase is Rejecting
            || phase is Confirming,
        ConnectionEventView::IoFailed(_) => connection::bytes_wanted(phase) is Some
            || phase is AuthReply || phase is Rejecting || phase is Confirming,
        ConnectionEventView::NoClient(_) => phase is Creating,
        ConnectionEventView::RequestFailed => phase is Creating,
        ConnectionEventView::Responded(_) => phase is Creating,
        ConnectionEventView::Refusal(_) => phase is ReadingRefusal,
        ConnectionEventView::BodyUnreadable => phase is ReadingSession,
        ConnectionEventView::Answer(_) => phase is ReadingSession,
    }
}

/// An event that a connection does not wait for changes nothing.
pub proof fn connections_ignore_other_events(phase: PhaseView, event: ConnectionEventView)
    requires
        !heeds(phase, event),
    ensures
        connection::phase_next(phase, event) == phase,
{
}

/// A read or write that fails ends the connection at once, with its reason, or, in the
/// greeting, with the part that could not be read.
pub proof fn failed_reads_and_writes_end_the_connection(phase: PhaseView, reason: Seq<char>)
    requires
        heeds(phase, ConnectionEventView::IoFailed(reason)),
    ensures
        connection::phase_next(phase, ConnectionEventView::IoFailed(reason))
            == PhaseView::Failed(
            if phase is Version {
                ClientErrorView::ReadingVersion
            } else if phase is MethodCount {
                ClientErrorView::ReadingMethodCount
            } else if phase is Methods {
                ClientErrorView::ReadingMethods
            } else {
                ClientErrorView::Io(reason)
            },
        ),
{
}

/// How many bytes each part of the handshake has: a version, a number of methods and a length
/// are one byte, methods and domain names as many as were announced, the rest of the head of a
/// request three, addresses four or sixteen, and a port two.  Nothing else is read.
pub proof fn parts_have_their_lengths(phase: PhaseView, addr: Seq<char>, n: u8)
    ensures
        connection::bytes_wanted(PhaseView::Version) == Some(1nat),
        connection::bytes_wanted(PhaseView::MethodCount) == Some(1nat),
        connection::bytes_wanted(PhaseView::Methods { count: n }) == Some(n as nat),
        connection::bytes_wanted(PhaseView::RequestVersion) == Some(1nat),
        connection::bytes_wanted(PhaseView::RequestHead) == Some(3nat),
        connection::bytes_wanted(PhaseView::Ipv4) == Some(4nat),
        connection::bytes_wanted(PhaseView::DomainLength) == Some(1nat),
        connection::bytes_wanted(PhaseView::Domain { length: n }) == Some(n as nat),
        connection::bytes_wanted(PhaseView::Ipv6) == Some(16nat),
        connection::bytes_wanted(PhaseView::Port { addr }) == Some(2nat),
        connection::bytes_wanted(phase) is Some <==> connection::reads_greeting(phase)
            || connection::reads_request(phase),
        connection::reply_due(phase) is Some <==> phase is AuthReply || phase is Rejecting
            || phase is Confirming,
{
}

/// A finished answer leads on, whatever it was about: an accepted greeting to the request, a
/// refused one to the end, a rejection to its own error, and a confirmation to the tunnel over
/// the session that was confirmed.
pub proof fn finished_answers_lead_on(reply: u8, error: ClientErrorView, session_id: Seq<char>)
    ensures
        connection::phase_next(
            PhaseView::AuthReply { accepted: true },
            ConnectionEventView::Written,
        ) == PhaseView::RequestVersion,
        connection::phase_next(
            PhaseView::AuthReply { accepted: false },
            ConnectionEventView::Written,
        ) == PhaseView::Failed(ClientErrorView::NoAcceptableMethod),
        connection::phase_next(
            PhaseView::Rejecting { reply, error },
            ConnectionEventView::Written,
        ) == PhaseView::Failed(error),
        connection::phase_next(
            PhaseView::Confirming { session_id },
            ConnectionEventView::Written,
        ) == (PhaseView::Relaying { session_id }),
{
}

/// The client of a session that the relay grants is answered with success and tunnelled over
/// that session if and only if the relay names no error and names a session; where it names
/// an error, with or without a session beside it, the client is answered with "general
/// failure" and the connection ends with that error.
pub proof fn only_granted_sessions_are_tunnelled(
    addr: Seq<char>,
    port: u16,
    status: HttpStatusView,
    session_id: Option<Seq<char>>,
    error: Option<Seq<char>>,
    input: Seq<u8>,
    eof: Seq<char>,
)
    requires
        status.code / 100 == 2,
    ensures
        ({
            let answer = session::CreateSessionResponseView { session_id, error };
            let d = converse(
                phase_from(
                    PhaseView::Creating { addr, port },
                    seq![
                        ConnectionEventView::Responded(status),
                        ConnectionEventView::Answer(answer),
                    ],
                ),
                input,
                eof,
            );
            &&& d.answered.len() == 10
            &&& d.unread == input
            &&& match (error, session_id) {
                (None, Some(id)) => d.answered[1] == 0 && d.phase == (PhaseView::Relaying {
                    session_id: id,
                }),
                (Some(reason), _) => d.answered[1] == 1 && d.phase == PhaseView::Failed(
                    ClientErrorView::Session(session::SessionErrorView::Refused(reason)),
                ),
                (None, None) => d.answered[1] == 1 && d.phase == PhaseView::Failed(
                    ClientErrorView::Session(session::SessionErrorView::MissingId),
                ),
            }
        }),
{
    let answer = session::CreateSessionResponseView { session_id, error };
    answer_of_the_relay_decides(addr, port, status, answer, input, eof);
    session::sessions_are_had_only_without_an_error(answer);
}

/// What a connection writes while it answers is two bytes for a greeting and ten for a request,
/// with the reply that it owes, whatever the reason.
pub proof fn answers_hold_their_reply(
    accepted: bool,
    reply: u8,
    error: ClientErrorView,
    session_id: Seq<char>,
)
    ensures
        connection::reply_due(PhaseView::AuthReply { accepted }) == Some(
            seq![
                5u8,
                if accepted {
                    0u8
                } else {
                    255u8
                },
            ],
        ),
        connection::reply_due(PhaseView::Rejecting { reply, error }) == Some(
            seq![5u8, reply, 0u8, 1u8, 0u8, 0u8, 0u8, 0u8, 0u8, 0u8],
        ),
        connection::reply_due(PhaseView::Confirming { session_id }) == Some(
            seq![5u8, 0u8, 0u8, 1u8, 0u8, 0u8, 0u8, 0u8, 0u8, 0u8],
        ),
{
}

} // verus!
