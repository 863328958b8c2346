//! SOCKS5 on the wire: the constants of the protocol, addresses as text, replies, and the
//! errors of a handshake.
use vstd::prelude::*;
use vstd::string::*;
use vstd::utf8;

use crate::client::session::{SessionError, SessionErrorView};
use crate::text;

verus! {

/// The protocol version that starts every message.
pub const SOCKS5_VERSION: u8 = 0x05;

/// The method "no authentication", the only one that is supported.
pub const AUTH_NONE: u8 = 0x00;

/// The answer that none of the client's methods is acceptable.
pub const AUTH_REFUSED: u8 = 0xFF;

/// The command CONNECT, the only one that is supported.
pub const CMD_CONNECT: u8 = 0x01;

/// An IPv4 address follows.
pub const ATYP_IPV4: u8 = 0x01;

/// A domain name follows.
pub const ATYP_DOMAIN: u8 = 0x03;

/// An IPv6 address follows.
pub const ATYP_IPV6: u8 = 0x04;

/// The reply that the tunnel is open.
pub const REP_SUCCESS: u8 = 0x00;

/// The reply that something failed.
pub const REP_GENERAL_FAILURE: u8 = 0x01;

/// The reply that the command is not supported.
pub const REP_CMD_NOT_SUPPORTED: u8 = 0x07;

/// Why a connection failed.
#[derive(Debug, PartialEq, Eq)]
pub enum ClientError {
    /// Reading the version of the greeting failed.
    ReadingVersion,
    /// Reading the number of methods failed.
    ReadingMethodCount,
    /// Reading the methods failed.
    ReadingMethods,
    /// Another read or write failed, for this reason.
    Io(String),
    /// The greeting has this version.
    UnsupportedVersion(u8),
    /// The client offers no method that is supported.
    NoAcceptableMethod,
    /// The request has this version.
    UnexpectedVersion(u8),
    /// The request has this command.
    UnsupportedCommand(u8),
    /// The domain name is not UTF-8.
    DomainNotUtf8,
    /// The request has this address type.
    UnsupportedAddressType(u8),
    /// There is no session.
    Session(SessionError),
}

/// What a [`ClientError`] holds.
pub enum ClientErrorView {
    ReadingVersion,
    ReadingMethodCount,
    ReadingMethods,
    Io(Seq<char>),
    UnsupportedVersion(u8),
    NoAcceptableMethod,
    UnexpectedVersion(u8),
    UnsupportedCommand(u8),
    DomainNotUtf8,
    UnsupportedAddressType(u8),
    Session(SessionErrorView),
}

impl View for ClientError {
    type V = ClientErrorView;

    open spec fn view(&self) -> ClientErrorView {
        match self {
            ClientError::ReadingVersion => ClientErrorView::ReadingVersion,
            ClientError::ReadingMethodCount => ClientErrorView::ReadingMethodCount,
            ClientError::ReadingMethods => ClientErrorView::ReadingMethods,
            ClientError::Io(reason) => ClientErrorView::Io(reason@),
            ClientError::UnsupportedVersion(v) => ClientErrorView::UnsupportedVersion(*v),
            ClientError::NoAcceptableMethod => ClientErrorView::NoAcceptableMethod,
            ClientError::UnexpectedVersion(v) => ClientErrorView::UnexpectedVersion(*v),
            ClientError::UnsupportedCommand(c) => ClientErrorView::UnsupportedCommand(*c),
            ClientError::DomainNotUtf8 => ClientErrorView::DomainNotUtf8,
            ClientError::UnsupportedAddressType(t) => ClientErrorView::UnsupportedAddressType(*t),
            ClientError::Session(e) => ClientErrorView::Session(e@),
        }
    }
}

impl ClientErrorView {
    /// The error in words.
    pub open spec fn words(self) -> Seq<char> {
        match self {
            ClientErrorView::ReadingVersion => "reading version"@,
            ClientErrorView::ReadingMethodCount => "reading nmethods"@,
            ClientErrorView::ReadingMethods => "reading methods"@,
            ClientErrorView::Io(reason) => reason,
            ClientErrorView::UnsupportedVersion(v) => "Unsupported SOCKS version: "@
                + text::decimal(v as nat),
            ClientErrorView::NoAcceptableMethod => "Client does not support 'no auth'"@,
            ClientErrorView::UnexpectedVersion(v) => "Unexpected version in request: "@
                + text::decimal(v as nat),
            ClientErrorView::UnsupportedCommand(c) => "Unsupported command: "@ + text::decimal(
                c as nat,
            ) + " (only CONNECT is supported)"@,
            ClientErrorView::DomainNotUtf8 => "Domain is not valid UTF-8"@,
            ClientErrorView::UnsupportedAddressType(t) => "Unsupported address type: "@
                + text::decimal(t as nat),
            ClientErrorView::Session(e) => e.words(),
        }
    }
}

impl ClientError {
    /// The error in words.
    pub fn message(&self) -> (r: String)
        ensures
            r@ == self@.words(),
            self matches ClientError::Io(reason) ==> r@ == reason@,
            self matches ClientError::UnsupportedVersion(v) ==> r@
                == "Unsupported SOCKS version: "@ + text::decimal(*v as nat),
            self matches ClientError::UnexpectedVersion(v) ==> r@
                == "Unexpected version in request: "@ + text::decimal(*v as nat),
            self matches ClientError::UnsupportedAddressType(t) ==> r@
                == "Unsupported address type: "@ + text::decimal(*t as nat),
    {
        match self {
            ClientError::ReadingVersion => "reading version".to_owned(),
            ClientError::ReadingMethodCount => "reading nmethods".to_owned(),
            ClientError::ReadingMethods => "reading methods".to_owned(),
            ClientError::Io(reason) => reason.clone(),
            ClientError::UnsupportedVersion(v) => {
                let mut r = "Unsupported SOCKS version: ".to_owned();
                text::push_decimal(&mut r, *v as u64);
                r
            },
            ClientError::NoAcceptableMethod => "Client does not support 'no auth'".to_owned(),
            ClientError::UnexpectedVersion(v) => {
                let mut r = "Unexpected version in request: ".to_owned();
                text::push_decimal(&mut r, *v as u64);
                r
            },
            ClientError::UnsupportedCommand(c) => {
                let mut r = "Unsupported command: ".to_owned();
                text::push_decimal(&mut r, *c as u64);
                r.append(" (only CONNECT is supported)");
                r
            },
            ClientError::DomainNotUtf8 => "Domain is not valid UTF-8".to_owned(),
            ClientError::UnsupportedAddressType(t) => {
                let mut r = "Unsupported address type: ".to_owned();
                text::push_decimal(&mut r, *t as u64);
                r
            },
            ClientError::Session(e) => e.message(),
        }
    }
}

/// An IPv4 address in dotted decimal.
pub open spec fn ipv4_text(b: Seq<u8>) -> Seq<char> {
    text::decimal(b[0] as nat) + seq!['.'] + text::decimal(b[1] as nat) + seq!['.']
        + text::decimal(b[2] as nat) + seq!['.'] + text::decimal(b[3] as nat)
}

/// Bytes in groups of two, each group as four hexadecimal digits, with colons between the
/// groups.
pub open spec fn hex_groups(b: Seq<u8>) -> Seq<char>
    decreases b.len(),
{
    if b.len() < 2 {
        Seq::empty()
    } else {
        let group = text::hex_byte(b[b.len() - 2]) + text::hex_byte(b[b.len() - 1]);
        if b.len() < 4 {
            group
        } else {
            hex_groups(b.take(b.len() - 2)) + seq![':'] + group
        }
    }
}

/// A port from its two bytes, high byte first.
pub open spec fn port_number(b: Seq<u8>) -> u16 {
    (b[0] * 256 + b[1]) as u16
}

/// Writes an IPv4 address in dotted decimal.
pub fn format_ipv4(b: &[u8]) -> (r: String)
    requires
        b@.len() == 4,
    ensures
        r@ == ipv4_text(b@),
{
    proof {
        reveal_strlit(".");
        assert("."@ =~= seq!['.']);
    }
    let mut r = String::new();
    text::push_decimal(&mut r, b[0] as u64);
    r.append(".");
    text::push_decimal(&mut r, b[1] as u64);
    r.append(".");
    text::push_decimal(&mut r, b[2] as u64);
    r.append(".");
    text::push_decimal(&mut r, b[3] as u64);
    proof {
        assert(r@ =~= ipv4_text(b@));
    }
    r
}

/// Writes an IPv6 address as eight full groups of hexadecimal digits.
pub fn format_ipv6(b: &[u8]) -> (r: String)
    requires
        b@.len() == 16,
    ensures
        r@ == hex_groups(b@),
{
    proof {
        reveal_strlit(":");
        assert(":"@ =~= seq![':']);
    }
    let mut r = String::new();
    let mut i: usize = 0;
    while i < 16
        invariant
            b@.len() == 16,
            i <= 16,
            i % 2 == 0,
            ":"@ == seq![':'],
            r@ == hex_groups(b@.take(i as int)),
        decreases 16 - i,
    {
        if i > 0 {
            r.append(":");
        }
        text::push_hex_byte(&mut r, b[i]);
        text::push_hex_byte(&mut r, b[i + 1]);
        proof {
            let upto = b@.take(i + 2);
            assert(upto.take(upto.len() - 2) =~= b@.take(i as int));
            assert(r@ =~= hex_groups(upto));
        }
        i = i + 2;
    }
    proof {
        assert(b@.take(16) =~= b@);
    }
    r
}

/// The answer to the greeting.
pub open spec fn auth_reply(accepted: bool) -> Seq<u8> {
    seq![SOCKS5_VERSION, if accepted { AUTH_NONE } else { AUTH_REFUSED }]
}

/// The answer to the request, with the unspecified address as the bound address.
pub open spec fn connect_reply(reply: u8) -> Seq<u8> {
    seq![SOCKS5_VERSION, reply, 0, ATYP_IPV4, 0, 0, 0, 0, 0, 0]
}

/// The bytes of the answer to the greeting.
pub fn auth_reply_bytes(accepted: bool) -> (r: Vec<u8>)
    ensures
        r@ == auth_reply(accepted),
{
    vec![SOCKS5_VERSION, if accepted { AUTH_NONE } else { AUTH_REFUSED }]
}

/// The bytes of the answer to the request.
pub fn connect_reply_bytes(reply: u8) -> (r: Vec<u8>)
    ensures
        r@ == connect_reply(reply),
{
    vec![SOCKS5_VERSION, reply, 0, ATYP_IPV4, 0, 0, 0, 0, 0, 0]
}

/// Whether "no authentication" is among the methods.
pub fn offers_no_auth(methods: &[u8]) -> (r: bool)
    ensures
        r == methods@.contains(AUTH_NONE),
{
    let mut i: usize = 0;
    while i < methods.len()
        invariant
            i <= methods@.len(),
            forall|j: int| 0 <= j < i ==> methods@[j] != AUTH_NONE,
        decreases methods@.len() - i,
    {
        if methods[i] == AUTH_NONE {
            return true;
        }
        i = i + 1;
    }
    false
}

/// The error type of `String::from_utf8`, carried and never looked into.
#[verifier::external_type_specification]
#[verifier::external_body]
pub struct ExFromUtf8Error(std::string::FromUtf8Error);

/// `String::from_utf8` of the standard library: it succeeds if and only if the bytes are
/// UTF-8, and then gives the characters that they encode.
pub assume_specification[ String::from_utf8 ](vec: Vec<u8>) -> (r: Result<
    String,
    std::string::FromUtf8Error,
>)
    ensures
        r is Ok <==> utf8::valid_utf8(vec@),
        r matches Ok(s) ==> s@ == utf8::decode_utf8(vec@),
;

/// Whether a text is a byte in decimal, without a zero before another digit.
pub open spec fn is_octet(s: Seq<char>) -> bool {
    &&& s.len() > 0
    &&& forall|i: int| 0 <= i < s.len() ==> text::is_digit(#[trigger] s[i])
    &&& s.len() > 1 ==> s[0] != '0'
    &&& text::decimal_value(s) < 256
}

/// The bytes of an IPv4 address that is written as four decimal numbers with dots between
/// them.
pub open spec fn read_ipv4(address: Seq<char>) -> Option<Seq<u8>> {
    let parts = text::fields(address, '.');
    if parts.len() == 4 && forall|i: int| 0 <= i < 4 ==> is_octet(#[trigger] parts[i]) {
        Some(Seq::new(4, |i: int| text::decimal_value(parts[i]) as u8))
    } else {
        None
    }
}

/// Whether a text is a group of four hexadecimal digits.
pub open spec fn is_hex_group(s: Seq<char>) -> bool {
    s.len() == 4 && forall|i: int| 0 <= i < 4 ==> text::is_hex_digit(#[trigger] s[i])
}

/// The bytes of an IPv6 address that is written in full: as eight groups of four hexadecimal
/// digits with colons between them.
pub open spec fn read_ipv6(address: Seq<char>) -> Option<Seq<u8>> {
    let parts = text::fields(address, ':');
    if parts.len() == 8 && forall|i: int| 0 <= i < 8 ==> is_hex_group(#[trigger] parts[i]) {
        Some(
            Seq::new(
                16,
                |i: int|
                    {
                        let group = text::hex_value(parts[i / 2]);
                        if i % 2 == 0 {
                            (group / 256) as u8
                        } else {
                            (group % 256) as u8
                        }
                    },
            ),
        )
    } else {
        None
    }
}

/// A byte in decimal is an octet, has no dot in it and reads back to the byte.
proof fn byte_is_an_octet(b: u8)
    ensures
        is_octet(text::decimal(b as nat)),
        !text::decimal(b as nat).contains('.'),
        text::decimal_value(text::decimal(b as nat)) == b,
{
    text::decimal_is_digits(b as nat);
    text::decimal_reads_back(b as nat);
    let s = text::decimal(b as nat);
    assert forall|i: int| 0 <= i < s.len() implies s[i] != '.' by {
        assert(text::is_digit(s[i]));
    }
}

/// The parts between the dots are the four texts that are joined.
proof fn dotted_fields(p: Seq<char>, q: Seq<char>, r: Seq<char>, s: Seq<char>)
    requires
        !p.contains('.'),
        !q.contains('.'),
        !r.contains('.'),
        !s.contains('.'),
    ensures
        text::fields(p + seq!['.'] + q + seq!['.'] + r + seq!['.'] + s, '.') == seq![p, q, r, s],
{
    text::text_without_separators_is_one_field(p, '.');
    text::last_field_follows_the_last_separator(p, q, '.');
    text::last_field_follows_the_last_separator(p + seq!['.'] + q, r, '.');
    text::last_field_follows_the_last_separator(p + seq!['.'] + q + seq!['.'] + r, s, '.');
    assert(seq![p].push(q).push(r).push(s) =~= seq![p, q, r, s]);
}

/// An IPv4 address reads back to its bytes.
pub proof fn ipv4_text_reads_back(b: Seq<u8>)
    requires
        b.len() == 4,
    ensures
        read_ipv4(ipv4_text(b)) == Some(b),
{
    byte_is_an_octet(b[0]);
    byte_is_an_octet(b[1]);
    byte_is_an_octet(b[2]);
    byte_is_an_octet(b[3]);
    let p = text::decimal(b[0] as nat);
    let q = text::decimal(b[1] as nat);
    let r = text::decimal(b[2] as nat);
    let s = text::decimal(b[3] as nat);
    dotted_fields(p, q, r, s);
    let parts = text::fields(ipv4_text(b), '.');
    assert(parts == seq![p, q, r, s]);
    assert(parts[0] == p && parts[1] == q && parts[2] == r && parts[3] == s);
    assert(Seq::new(4, |i: int| text::decimal_value(parts[i]) as u8) =~= b);
}

/// Different IPv4 addresses are written differently.
pub proof fn ipv4_text_is_injective(a: Seq<u8>, b: Seq<u8>)
    requires
        a.len() == 4,
        b.len() == 4,
        ipv4_text(a) == ipv4_text(b),
    ensures
        a == b,
{
    ipv4_text_reads_back(a);
    ipv4_text_reads_back(b);
}

/// Bytes in groups of two have five characters for each group but the last, which has four:
/// an IPv6 address has 39.
pub proof fn hex_groups_length(b: Seq<u8>)
    requires
        b.len() % 2 == 0,
        b.len() > 0,
    ensures
        hex_groups(b).len() == b.len() / 2 * 5 - 1,
        b.len() == 16 ==> hex_groups(b).len() == 39,
    decreases b.len(),
{
    if b.len() >= 4 {
        hex_groups_length(b.take(b.len() - 2));
    }
}

/// The parts between the colons are the groups.
proof fn hex_groups_fields(b: Seq<u8>)
    requires
        b.len() % 2 == 0,
        b.len() > 0,
    ensures
        text::fields(hex_groups(b), ':').len() == b.len() / 2,
        forall|j: int|
            0 <= j < b.len() / 2 ==> #[trigger] text::fields(hex_groups(b), ':')[j]
                == text::hex_byte(b[2 * j]) + text::hex_byte(b[2 * j + 1]),
    decreases b.len(),
{
    let n = b.len() as int;
    let group = text::hex_byte(b[n - 2]) + text::hex_byte(b[n - 1]);
    text::hex_bytes_read_back(b[n - 2], b[n - 1]);
    assert forall|i: int| 0 <= i < group.len() implies group[i] != ':' by {
        assert(text::is_hex_digit(group[i]));
    }
    if n < 4 {
        text::text_without_separators_is_one_field(group, ':');
    } else {
        let before = b.take(n - 2);
        hex_groups_fields(before);
        text::last_field_follows_the_last_separator(hex_groups(before), group, ':');
        let fewer = text::fields(hex_groups(before), ':');
        assert forall|j: int| 0 <= j < n / 2 implies #[trigger] text::fields(hex_groups(b), ':')[j]
            == text::hex_byte(b[2 * j]) + text::hex_byte(b[2 * j + 1]) by {
            if j < fewer.len() {
                assert(fewer[j] == text::hex_byte(before[2 * j]) + text::hex_byte(
                    before[2 * j + 1],
                ));
            }
        }
    }
}

/// An IPv6 address reads back to its bytes.
pub proof fn ipv6_text_reads_back(b: Seq<u8>)
    requires
        b.len() == 16,
    ensures
        read_ipv6(hex_groups(b)) == Some(b),
{
    hex_groups_fields(b);
    let parts = text::fields(hex_groups(b), ':');
    assert forall|j: int| 0 <= j < 8 implies is_hex_group(#[trigger] parts[j]) && text::hex_value(
        parts[j],
    ) == b[2 * j] * 256 + b[2 * j + 1] by {
        text::hex_bytes_read_back(b[2 * j], b[2 * j + 1]);
    }
    let read = read_ipv6(hex_groups(b))->0;
    assert forall|i: int| 0 <= i < 16 implies read[i] == b[i] by {
        let j = i / 2;
        assert(is_hex_group(parts[j]));
        assert(text::hex_value(parts[j]) == b[2 * j] * 256 + b[2 * j + 1]);
    }
    assert(read =~= b);
}

/// Different IPv6 addresses are written differently.
pub proof fn ipv6_text_is_injective(a: Seq<u8>, b: Seq<u8>)
    requires
        a.len() == 16,
        b.len() == 16,
        hex_groups(a) == hex_groups(b),
    ensures
        a == b,
{
    ipv6_text_reads_back(a);
    ipv6_text_reads_back(b);
}

/// The answer to the greeting is the version and the method zero, or 255 for none.
pub proof fn greetings_are_answered_in_two_bytes(accepted: bool)
    ensures
        auth_reply(accepted).len() == 2,
        auth_reply(accepted)[0] == 5,
        accepted ==> auth_reply(accepted)[1] == 0,
        !accepted ==> auth_reply(accepted)[1] == 255,
{
}

/// The answer to a request is the version, the reply, and the IPv4 address and port made of
/// zeros.
pub proof fn requests_are_answered_in_ten_bytes(reply: u8)
    ensures
        connect_reply(reply).len() == 10,
        connect_reply(reply)[0] == 5,
        connect_reply(reply)[1] == reply,
        connect_reply(reply)[2] == 0,
        connect_reply(reply)[3] == 1,
        forall|i: int| 4 <= i < 10 ==> #[trigger] connect_reply(reply)[i] == 0,
{
}

/// The words of an error name the number or the reason that it holds, whatever that is.
pub proof fn client_errors_say_what_they_hold(n: u8, reason: Seq<char>, e: SessionErrorView)
    ensures
        ClientErrorView::Io(reason).words() == reason,
        ClientErrorView::UnsupportedVersion(n).words() == "Unsupported SOCKS version: "@
            + text::decimal(n as nat),
        ClientErrorView::UnexpectedVersion(n).words() == "Unexpected version in request: "@
            + text::decimal(n as nat),
        ClientErrorView::UnsupportedCommand(n).words() == "Unsupported command: "@
            + text::decimal(n as nat) + " (only CONNECT is supported)"@,
        ClientErrorView::UnsupportedAddressType(n).words() == "Unsupported address type: "@
            + text::decimal(n as nat),
        ClientErrorView::Session(e).words() == e.words(),
{
}

} // verus!
