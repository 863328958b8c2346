//! Laws of the tunnel from end to end.
use vstd::prelude::*;
use vstd::utf8;

use crate::client::connection::PhaseView;
use crate::client::dialogue;
use crate::client::dialogue::{Dialogue, Target};
use crate::client::http_bridge as client_bridge;
use crate::client::session;
use crate::client::session::{CreateSessionResponseView, SessionErrorView};
use crate::client::socks5;
use crate::client::socks5::REP_SUCCESS;
use crate::codec;
use crate::forward;
use crate::forward::ForwardEventView;
use crate::http;
use crate::http::HttpStatusView;
use crate::pieces;
use crate::poll;
use crate::poll::PollEventView;
use crate::pump;
use crate::pump::{ReaderEventView, WriterEventView};
use crate::server::http_bridge as server_bridge;
use crate::server::sessions;
use crate::server::sessions::{LaunchView, SessionInfoView};
use crate::text;

verus! {

/// How the relay splits what it hands to the client into replies does not matter.
pub proof fn batching_does_not_matter(a: Seq<Seq<char>>, b: Seq<Seq<char>>)
    ensures
        client_bridge::nonempty_chunks(a + b) == match (
            client_bridge::nonempty_chunks(a),
            client_bridge::nonempty_chunks(b),
        ) {
            (Some(x), Some(y)) => Some(x + y),
            _ => None,
        },
    decreases b.len(),
{
    if b.len() == 0 {
        assert(a + b =~= a);
        if let Some(x) = client_bridge::nonempty_chunks(a) {
            assert(x + Seq::<Seq<u8>>::empty() =~= x);
        }
    } else {
        assert((a + b).drop_last() =~= a + b.drop_last());
        batching_does_not_matter(a, b.drop_last());
        match (
            client_bridge::nonempty_chunks(a),
            client_bridge::nonempty_chunks(b.drop_last()),
            codec::base64_bytes(b.last()),
        ) {
            (Some(x), Some(y), Some(bytes)) => {
                assert((x + y).push(bytes) =~= x + y.push(bytes));
            },
            _ => {},
        }
    }
}

/// The client decodes texts that carry non-empty pieces to exactly those pieces.
pub proof fn client_decodes_what_was_encoded(texts: Seq<Seq<char>>, pieces: Seq<Seq<u8>>)
    requires
        texts.len() == pieces.len(),
        forall|i: int|
            0 <= i < pieces.len() ==> #[trigger] codec::base64_bytes(texts[i]) == Some(
                pieces[i],
            ) && pieces[i].len() > 0,
    ensures
        client_bridge::nonempty_chunks(texts) == Some(pieces),
    decreases texts.len(),
{
    if texts.len() == 0 {
        assert(pieces =~= Seq::empty());
    } else {
        let last = texts.len() - 1;
        assert forall|i: int| 0 <= i < pieces.drop_last().len() implies
            #[trigger] codec::base64_bytes(texts.drop_last()[i]) == Some(
            pieces.drop_last()[i],
        ) && pieces.drop_last()[i].len() > 0 by {
            assert(codec::base64_bytes(texts[i]) == Some(pieces[i]));
        }
        client_decodes_what_was_encoded(texts.drop_last(), pieces.drop_last());
        assert(codec::base64_bytes(texts[last]) == Some(pieces[last]));
        assert(pieces.drop_last().push(pieces.last()) =~= pieces);
    }
}

/// The server decodes a text that carries a piece to exactly that piece.
pub proof fn server_decodes_what_was_encoded(piece: Seq<u8>)
    ensures
        server_bridge::data_chunks(Some(codec::base64_text(piece))) == Some(seq![piece]),
{
    codec::decoding_inverts_encoding(piece);
}

/// The bytes that a list of texts carries, one after another, if every text is Base64.
pub open spec fn carried(texts: Seq<Seq<char>>) -> Option<Seq<u8>>
    decreases texts.len(),
{
    if texts.len() == 0 {
        Some(Seq::empty())
    } else {
        match (carried(texts.drop_last()), codec::base64_bytes(texts.last())) {
            (Some(before), Some(bytes)) => Some(before + bytes),
            _ => None,
        }
    }
}

/// Texts that carry these pieces carry their bytes.
pub proof fn texts_carry_their_pieces(texts: Seq<Seq<char>>, pieces: Seq<Seq<u8>>)
    requires
        texts.len() == pieces.len(),
        forall|i: int|
            0 <= i < pieces.len() ==> #[trigger] codec::base64_bytes(texts[i]) == Some(pieces[i]),
    ensures
        carried(texts) == Some(pieces.flatten()),
    decreases texts.len(),
{
    if texts.len() > 0 {
        let last = texts.len() - 1;
        assert forall|i: int| 0 <= i < pieces.drop_last().len() implies
            #[trigger] codec::base64_bytes(texts.drop_last()[i]) == Some(
            pieces.drop_last()[i],
        ) by {
            assert(codec::base64_bytes(texts[i]) == Some(pieces[i]));
        }
        texts_carry_their_pieces(texts.drop_last(), pieces.drop_last());
        assert(codec::base64_bytes(texts[last]) == Some(pieces[last]));
        pieces.drop_last().lemma_flatten_push(pieces.last());
        assert(pieces.drop_last().push(pieces.last()) =~= pieces);
    }
}

/// The chunks that the client finds in a reply have exactly the bytes that its texts carry.
pub proof fn chunks_have_the_carried_bytes(texts: Seq<Seq<char>>)
    ensures
        carried(texts) == match client_bridge::nonempty_chunks(texts) {
            Some(chunks) => Some(chunks.flatten()),
            None => None,
        },
    decreases texts.len(),
{
    if texts.len() > 0 {
        chunks_have_the_carried_bytes(texts.drop_last());
        match (
            client_bridge::nonempty_chunks(texts.drop_last()),
            codec::base64_bytes(texts.last()),
        ) {
            (Some(before), Some(bytes)) => {
                before.lemma_flatten_push(bytes);
                if bytes.len() == 0 {
                    assert(before.flatten() + bytes =~= before.flatten());
                }
            },
            _ => {},
        }
    }
}

/// The texts that are posted carry exactly the bytes that were taken from the local side.
pub proof fn posts_carry_the_taken_bytes(posts: Seq<ForwardEventView>)
    ensures
        carried(forward::posted_texts(posts)) == Some(forward::taken_data(posts).flatten()),
{
    forward::every_piece_is_posted_once(posts);
    texts_carry_their_pieces(forward::posted_texts(posts), forward::taken_data(posts));
}

/// Whether the polls of a client found exactly what these texts hold, which the relay handed
/// out in one or more replies.
pub open spec fn client_polled(texts: Seq<Seq<char>>, polls: Seq<PollEventView>) -> bool {
    client_bridge::nonempty_chunks(texts) == Some(poll::polled_chunks(polls))
}

/// Whether the polls of a server found exactly what these texts hold, which the relay handed
/// out one in a reply.
pub open spec fn server_polled(texts: Seq<Seq<char>>, polls: Seq<PollEventView>) -> bool {
    &&& poll::polled_chunks(polls).len() == texts.len()
    &&& forall|i: int|
        0 <= i < texts.len() ==> server_bridge::data_chunks(Some(#[trigger] texts[i])) == Some(
            seq![poll::polled_chunks(polls)[i]],
        )
}

/// The texts of replies, one after another, hold what the replies hold.
proof fn joined_replies_hold_their_chunks(
    replies: Seq<Seq<Seq<char>>>,
    bodies: Seq<Seq<Seq<u8>>>,
)
    requires
        replies.len() == bodies.len(),
        forall|k: int|
            0 <= k < replies.len() ==> client_bridge::nonempty_chunks(#[trigger] replies[k])
                == Some(bodies[k]),
    ensures
        client_bridge::nonempty_chunks(replies.flatten()) == Some(bodies.flatten()),
    decreases replies.len(),
{
    if replies.len() > 0 {
        let last = replies.len() - 1;
        let before = replies.drop_last();
        assert forall|k: int| 0 <= k < before.len() implies client_bridge::nonempty_chunks(
            #[trigger] before[k],
        ) == Some(bodies.drop_last()[k]) by {
            assert(before[k] == replies[k]);
        }
        joined_replies_hold_their_chunks(before, bodies.drop_last());
        assert(client_bridge::nonempty_chunks(replies[last]) == Some(bodies[last]));
        before.lemma_flatten_push(replies[last]);
        bodies.drop_last().lemma_flatten_push(bodies[last]);
        assert(before.push(replies[last]) =~= replies);
        assert(bodies.drop_last().push(bodies[last]) =~= bodies);
        batching_does_not_matter(before.flatten(), replies[last]);
    }
}

/// A client whose successful polls each give what `poll_once` finds in their reply polls
/// exactly what the texts of the replies hold, one reply after another.
pub proof fn clients_poll_what_their_replies_hold(
    replies: Seq<Seq<Seq<char>>>,
    polls: Seq<PollEventView>,
)
    requires
        replies.len() == poll::good_bodies(polls).len(),
        forall|k: int|
            0 <= k < replies.len() ==> client_bridge::nonempty_chunks(#[trigger] replies[k])
                == Some(poll::good_bodies(polls)[k]),
    ensures
        client_polled(replies.flatten(), polls),
{
    joined_replies_hold_their_chunks(replies, poll::good_bodies(polls));
    poll::polled_chunks_are_those_of_the_bodies(polls);
}

/// The texts of the replies that have data, in order.
pub open spec fn data_texts(replies: Seq<Option<Seq<char>>>) -> Seq<Seq<char>>
    decreases replies.len(),
{
    if replies.len() == 0 {
        Seq::empty()
    } else {
        let before = data_texts(replies.drop_last());
        match replies.last() {
            Some(b64) => before.push(b64),
            None => before,
        }
    }
}

/// The data of replies gives their chunks, one after another.
proof fn data_of_replies_gives_their_chunks(
    replies: Seq<Option<Seq<char>>>,
    bodies: Seq<Seq<Seq<u8>>>,
)
    requires
        replies.len() == bodies.len(),
        forall|k: int|
            0 <= k < replies.len() ==> server_bridge::data_chunks(#[trigger] replies[k]) == Some(
                bodies[k],
            ),
    ensures
        bodies.flatten().len() == data_texts(replies).len(),
        forall|i: int|
            0 <= i < data_texts(replies).len() ==> server_bridge::data_chunks(
                Some(#[trigger] data_texts(replies)[i]),
            ) == Some(seq![bodies.flatten()[i]]),
    decreases replies.len(),
{
    if replies.len() > 0 {
        let last = replies.len() - 1;
        let before = replies.drop_last();
        let fewer = bodies.drop_last();
        assert forall|k: int| 0 <= k < before.len() implies server_bridge::data_chunks(
            #[trigger] before[k],
        ) == Some(fewer[k]) by {
            assert(before[k] == replies[k]);
        }
        data_of_replies_gives_their_chunks(before, fewer);
        assert(server_bridge::data_chunks(replies[last]) == Some(bodies[last]));
        fewer.lemma_flatten_push(bodies[last]);
        assert(fewer.push(bodies[last]) =~= bodies);
        assert forall|i: int| 0 <= i < data_texts(replies).len() implies
            server_bridge::data_chunks(Some(#[trigger] data_texts(replies)[i])) == Some(
            seq![bodies.flatten()[i]],
        ) by {
            if i < data_texts(before).len() {
                assert(data_texts(replies)[i] == data_texts(before)[i]);
                assert(bodies.flatten()[i] == fewer.flatten()[i]);
            } else {
                assert(bodies[last] == seq![bodies.flatten()[i]]);
            }
        }
    }
}

/// A server whose successful polls each give what `poll_once` finds in their reply polls
/// exactly what the replies with data hold.
pub proof fn servers_poll_what_their_replies_hold(
    replies: Seq<Option<Seq<char>>>,
    polls: Seq<PollEventView>,
)
    requires
        replies.len() == poll::good_bodies(polls).len(),
        forall|k: int|
            0 <= k < replies.len() ==> server_bridge::data_chunks(#[trigger] replies[k]) == Some(
                poll::good_bodies(polls)[k],
            ),
    ensures
        server_polled(data_texts(replies), polls),
{
    data_of_replies_gives_their_chunks(replies, poll::good_bodies(polls));
    poll::polled_chunks_are_those_of_the_bodies(polls);
}

/// What a client polled has exactly the bytes that the texts carry.
pub proof fn client_polls_the_carried_bytes(texts: Seq<Seq<char>>, polls: Seq<PollEventView>)
    requires
        client_polled(texts, polls),
    ensures
        carried(texts) == Some(poll::polled_chunks(polls).flatten()),
{
    chunks_have_the_carried_bytes(texts);
}

/// What a server polled has exactly the bytes that the texts carry.
pub proof fn server_polls_the_carried_bytes(texts: Seq<Seq<char>>, polls: Seq<PollEventView>)
    requires
        server_polled(texts, polls),
    ensures
        carried(texts) == Some(poll::polled_chunks(polls).flatten()),
{
    let polled = poll::polled_chunks(polls);
    assert forall|i: int| 0 <= i < polled.len() implies #[trigger] codec::base64_bytes(texts[i])
        == Some(polled[i]) by {
        let found = server_bridge::data_chunks(Some(texts[i]));
        assert(found == Some(seq![polled[i]]));
        assert(found->0[0] == polled[i]);
    }
    texts_carry_their_pieces(texts, polled);
}

/// At one end, the texts that are posted carry a start of the bytes that were read there, as
/// long as the channel in between keeps the order and loses nothing.
pub proof fn posts_carry_a_start_of_what_was_read(
    reads: Seq<ReaderEventView>,
    posts: Seq<ForwardEventView>,
)
    requires
        forward::taken_data(posts).is_prefix_of(pump::sent_chunks(reads)),
    ensures
        carried(forward::posted_texts(posts)) matches Some(bytes) && bytes.is_prefix_of(
            pump::read_pieces(reads).flatten(),
        ),
{
    let sent = pump::sent_chunks(reads);
    let taken = forward::taken_data(posts);
    posts_carry_the_taken_bytes(posts);
    pump::reader_passes_bytes_on(reads);
    pieces::starts_flatten(taken, sent);
    pieces::starts_compose(
        taken.flatten(),
        sent.flatten(),
        pump::read_pieces(reads).flatten(),
    );
}

/// At one end, the chunks that are written are the first of those that were polled there, as
/// long as the channel in between keeps the order and loses nothing.  With whatever `part` has
/// gone out of an unfinished write, the bytes that are written are a start of those that were
/// polled.
pub proof fn writes_are_a_start_of_what_was_polled(
    polls: Seq<PollEventView>,
    writes: Seq<WriterEventView>,
    part: Seq<u8>,
)
    requires
        pump::is_part_written(writes, part),
        pump::received_chunks(writes).is_prefix_of(poll::delivered_chunks(polls)),
    ensures
        pump::written_chunks(writes).is_prefix_of(poll::polled_chunks(polls)),
        (pump::written_chunks(writes).flatten() + part).is_prefix_of(
            poll::polled_chunks(polls).flatten(),
        ),
{
    let written = pump::written_chunks(writes);
    let received = pump::received_chunks(writes);
    let delivered = poll::delivered_chunks(polls);
    let polled = poll::polled_chunks(polls);
    pump::writer_passes_bytes_on(writes);
    pump::writer_passes_parts_on(writes, part);
    poll::polled_chunks_arrive_in_order(polls);
    pieces::starts_compose(received, delivered, polled);
    pieces::starts_compose(written, received, polled);
    pieces::starts_flatten(received, polled);
    pieces::starts_compose(written.flatten() + part, received.flatten(), polled.flatten());
}

/// One end of a session: what happened to its reader, to the task that posts, to the task
/// that polls and to its writer, the texts that the relay handed to it, and what has gone out
/// of a write that is unfinished or failed.
pub struct Side {
    pub reads: Seq<ReaderEventView>,
    pub posts: Seq<ForwardEventView>,
    pub texts: Seq<Seq<char>>,
    pub polls: Seq<PollEventView>,
    pub writes: Seq<WriterEventView>,
    pub part: Seq<u8>,
}

impl Side {
    /// Whether its two channels keep the order and lose nothing: the task that posts takes
    /// what the reader sent, and the writer receives what the task that polls delivered.
    pub open spec fn is_wired(self) -> bool {
        &&& forward::taken_data(self.posts).is_prefix_of(pump::sent_chunks(self.reads))
        &&& pump::received_chunks(self.writes).is_prefix_of(poll::delivered_chunks(self.polls))
        &&& pump::is_part_written(self.writes, self.part)
    }

    /// Whether nothing is invented, doubled, reordered or left out in the middle, and the two
    /// directions do not mix: what is posted carries a start of what was read, and what is
    /// written is a start of what the relay handed out.
    pub open spec fn passes_bytes_on(self) -> bool {
        &&& carried(forward::posted_texts(self.posts)) matches Some(posted)
            && posted.is_prefix_of(pump::read_pieces(self.reads).flatten())
        &&& carried(self.texts) matches Some(handed) && self.bytes_out().is_prefix_of(handed)
    }

    /// The bytes that were written.
    pub open spec fn bytes_out(self) -> Seq<u8> {
        pump::written_chunks(self.writes).flatten() + self.part
    }
}

/// The client's end of a session passes bytes on, whatever its client sends and whatever the
/// relay answers.
pub proof fn client_end_passes_bytes_on(side: Side)
    requires
        side.is_wired(),
        client_polled(side.texts, side.polls),
    ensures
        side.passes_bytes_on(),
{
    posts_carry_a_start_of_what_was_read(side.reads, side.posts);
    writes_are_a_start_of_what_was_polled(side.polls, side.writes, side.part);
    client_polls_the_carried_bytes(side.texts, side.polls);
}

/// The server's end of a session passes bytes on, whatever its target sends and whatever the
/// relay answers.
pub proof fn server_end_passes_bytes_on(side: Side)
    requires
        side.is_wired(),
        server_polled(side.texts, side.polls),
    ensures
        side.passes_bytes_on(),
{
    posts_carry_a_start_of_what_was_read(side.reads, side.posts);
    writes_are_a_start_of_what_was_polled(side.polls, side.writes, side.part);
    server_polls_the_carried_bytes(side.texts, side.polls);
}

/// A client that sends its message to connect and then `tail`, without waiting for answers,
/// and is granted a session: its tunnel runs over that session, and the texts that are posted
/// carry a start of `tail`.  No byte of the handshake is passed on and none of `tail` is
/// swallowed.  After the twelve bytes of the two answers the client is written nothing but
/// what the relay handed out.
pub proof fn tunnels_carry_what_follows_the_request(
    methods: Seq<u8>,
    reserved: u8,
    target: Target,
    port: u16,
    tail: Seq<u8>,
    eof: Seq<char>,
    status: HttpStatusView,
    answer: CreateSessionResponseView,
    session_id: Seq<char>,
    side: Side,
)
    requires
        dialogue::acceptable(methods),
        target.valid(),
        http::success_code(status.code),
        session::answered(answer) == Ok::<Seq<char>, SessionErrorView>(session_id),
        side.is_wired(),
        client_polled(side.texts, side.polls),
        pump::read_pieces(side.reads).flatten().is_prefix_of(
            dialogue::answered_dialogue(
                dialogue::connect_message(methods, reserved, target, port) + tail,
                status,
                answer,
                eof,
            ).unread,
        ),
    ensures
        dialogue::answered_dialogue(
            dialogue::connect_message(methods, reserved, target, port) + tail,
            status,
            answer,
            eof,
        ) == (Dialogue {
            phase: PhaseView::Relaying { session_id },
            answered: socks5::auth_reply(true) + socks5::connect_reply(REP_SUCCESS),
            unread: tail,
        }),
        (socks5::auth_reply(true) + socks5::connect_reply(REP_SUCCESS)).len() == 12,
        carried(forward::posted_texts(side.posts)) matches Some(posted) && posted.is_prefix_of(
            tail,
        ),
        carried(side.texts) matches Some(handed) && side.bytes_out().is_prefix_of(handed),
{
    dialogue::connect_message_reaches_the_relay(methods, reserved, target, port, tail, eof);
    dialogue::answer_of_the_relay_decides(target.told(), port, status, answer, tail, eof);
    client_end_passes_bytes_on(side);
    pieces::starts_compose(
        carried(forward::posted_texts(side.posts))->0,
        pump::read_pieces(side.reads).flatten(),
        tail,
    );
}

/// One way through the tunnel, from where bytes are read to where they are written: the
/// reader and the task that posts at one end, the texts that the relay hands out, and the
/// task that polls and the writer at the other end, with what has gone out of a write that is
/// unfinished or failed.
pub struct Way {
    pub reads: Seq<ReaderEventView>,
    pub posts: Seq<ForwardEventView>,
    pub texts: Seq<Seq<char>>,
    pub polls: Seq<PollEventView>,
    pub writes: Seq<WriterEventView>,
    pub part: Seq<u8>,
}

impl Way {
    /// Whether the channels and the relay keep the order and lose nothing: the task that
    /// posts takes what the reader sent, the relay hands out bytes that were posted, in
    /// whatever texts it likes, and the writer receives what was polled.
    pub open spec fn is_lossless(self) -> bool {
        &&& forward::taken_data(self.posts).is_prefix_of(pump::sent_chunks(self.reads))
        &&& match (carried(self.texts), carried(forward::posted_texts(self.posts))) {
            (Some(handed), Some(posted)) => handed.is_prefix_of(posted),
            _ => false,
        }
        &&& pump::received_chunks(self.writes).is_prefix_of(poll::delivered_chunks(self.polls))
        &&& pump::is_part_written(self.writes, self.part)
    }

    /// Whether everything that was read has been passed on at every station.
    pub open spec fn is_drained(self) -> bool {
        &&& pump::sent_chunks(self.reads).flatten() == pump::read_pieces(self.reads).flatten()
        &&& forward::taken_data(self.posts) == pump::sent_chunks(self.reads)
        &&& carried(self.texts) == carried(forward::posted_texts(self.posts))
        &&& poll::delivered_chunks(self.polls) == poll::polled_chunks(self.polls)
        &&& pump::received_chunks(self.writes) == poll::delivered_chunks(self.polls)
        &&& pump::written_chunks(self.writes) == pump::received_chunks(self.writes)
    }

    /// The bytes that were read at one end.
    pub open spec fn bytes_in(self) -> Seq<u8> {
        pump::read_pieces(self.reads).flatten()
    }

    /// The bytes that were written at the other end.
    pub open spec fn bytes_out(self) -> Seq<u8> {
        pump::written_chunks(self.writes).flatten() + self.part
    }
}

/// A way whose polled chunks have the bytes that the relay hands out passes on the start of
/// what was read, and all of it once it is drained.
proof fn bytes_pass_through(way: Way)
    requires
        way.is_lossless(),
        carried(way.texts) == Some(poll::polled_chunks(way.polls).flatten()),
    ensures
        way.bytes_out().is_prefix_of(way.bytes_in()),
        way.is_drained() ==> way.bytes_out() == way.bytes_in(),
{
    let handed = carried(way.texts)->0;
    let posted = carried(forward::posted_texts(way.posts))->0;
    posts_carry_a_start_of_what_was_read(way.reads, way.posts);
    posts_carry_the_taken_bytes(way.posts);
    writes_are_a_start_of_what_was_polled(way.polls, way.writes, way.part);
    pump::writer_passes_parts_on(way.writes, way.part);
    pieces::starts_compose(way.bytes_out(), handed, posted);
    pieces::starts_compose(way.bytes_out(), posted, way.bytes_in());
    if way.is_drained() {
        assert(way.bytes_out() =~= pump::written_chunks(way.writes).flatten());
    }
}

/// From the target to the client: what the client is written is, byte for byte, the start
/// of what the target sent, as long as channels and relay keep the order and lose nothing
/// in between; once everything is passed on, it is all of it.  The relay may cut the bytes
/// into texts, and the texts into replies, as it likes.
pub proof fn target_bytes_reach_the_client(way: Way)
    requires
        way.is_lossless(),
        client_polled(way.texts, way.polls),
    ensures
        way.bytes_out().is_prefix_of(way.bytes_in()),
        way.is_drained() ==> way.bytes_out() == way.bytes_in(),
{
    client_polls_the_carried_bytes(way.texts, way.polls);
    bytes_pass_through(way);
}

/// From the client to the target: what the target is written is, byte for byte, the start
/// of what the client sent, as long as channels and relay keep the order and lose nothing
/// in between; once everything is passed on, it is all of it.  The relay may cut the bytes
/// into texts as it likes, and hands out one text in a reply.
pub proof fn client_bytes_reach_the_target(way: Way)
    requires
        way.is_lossless(),
        server_polled(way.texts, way.polls),
    ensures
        way.bytes_out().is_prefix_of(way.bytes_in()),
        way.is_drained() ==> way.bytes_out() == way.bytes_in(),
{
    server_polls_the_carried_bytes(way.texts, way.polls);
    bytes_pass_through(way);
}

/// All URLs are the same for a base URL with further slashes at its end.
pub proof fn urls_ignore_trailing_slashes(base: Seq<char>, slashes: nat, id: Seq<char>)
    ensures
        ({
            let longer = base + Seq::new(slashes, |i: int| '/');
            &&& session::create_url(longer) == session::create_url(base)
            &&& client_bridge::recv_url(longer, id) == client_bridge::recv_url(base, id)
            &&& client_bridge::send_url(longer, id) == client_bridge::send_url(base, id)
            &&& server_bridge::read_url(longer, id) == server_bridge::read_url(base, id)
            &&& server_bridge::write_url(longer, id) == server_bridge::write_url(base, id)
            &&& sessions::sessions_url(longer) == sessions::sessions_url(base)
        }),
{
    text::trailing_slashes_do_not_matter(base, slashes);
}

/// The server's URLs are the same whether made from the relay's URL or from the base URL
/// that discovery keeps.
pub proof fn kept_base_url_gives_the_same_urls(bridge_url: Seq<char>, id: Seq<char>)
    ensures
        ({
            let kept = text::without_trailing_slashes(bridge_url);
            &&& server_bridge::read_url(kept, id) == server_bridge::read_url(bridge_url, id)
            &&& server_bridge::write_url(kept, id) == server_bridge::write_url(bridge_url, id)
        }),
{
    text::trimming_is_idempotent(bridge_url);
}

/// A session that the relay lists with the target that the client asked for is started with
/// that target, unless it runs.  A target without an address or with port zero is never
/// connected to.
pub proof fn sessions_connect_to_the_asked_target(
    running: Set<Seq<char>>,
    session_id: Seq<char>,
    addr: Seq<char>,
    port: u16,
)
    requires
        !running.contains(session_id),
    ensures
        sessions::new_launches(
            running,
            seq![SessionInfoView { session_id, target_addr: addr, target_port: port }],
        ) == if addr.len() > 0 && port != 0 {
            seq![
                LaunchView {
                    session_id,
                    target: addr + seq![':'] + text::decimal(port as nat),
                },
            ]
        } else {
            Seq::empty()
        },
{
    let session = SessionInfoView { session_id, target_addr: addr, target_port: port };
    let list = seq![session];
    assert(list.drop_last() =~= Seq::empty());
    let none = sessions::new_launches(running, list.drop_last());
    assert(none =~= Seq::empty());
    assert(!sessions::launches_id(none, session_id));
    assert(none.push(session.launch()) =~= seq![session.launch()]);
}

/// The target of a launch determines the address and the port that it is made of.
pub proof fn launch_targets_are_unambiguous(s: SessionInfoView, t: SessionInfoView)
    requires
        s.launch().target == t.launch().target,
    ensures
        s.target_addr == t.target_addr,
        s.target_port == t.target_port,
{
    text::trailing_decimal_is_determined(
        s.target_addr,
        s.target_port as nat,
        t.target_addr,
        t.target_port as nat,
    );
}

/// The target that a client names in its request is the one that its session connects to,
/// once the relay lists the session with what it was told: the name and the port with a
/// colon between them.
pub proof fn named_targets_are_connected_to(
    methods: Seq<u8>,
    reserved: u8,
    target: Target,
    port: u16,
    tail: Seq<u8>,
    eof: Seq<char>,
    running: Set<Seq<char>>,
    session_id: Seq<char>,
)
    requires
        dialogue::acceptable(methods),
        target.valid(),
        target != Target::Domain(Seq::empty()),
        port != 0,
        !running.contains(session_id),
    ensures
        dialogue::converse(
            PhaseView::Version,
            dialogue::connect_message(methods, reserved, target, port) + tail,
            eof,
        ).phase matches PhaseView::Creating { addr, port: told_port } && sessions::new_launches(
            running,
            seq![SessionInfoView { session_id, target_addr: addr, target_port: told_port }],
        ) == seq![
            LaunchView {
                session_id,
                target: target.told() + seq![':'] + text::decimal(port as nat),
            },
        ],
{
    dialogue::connect_message_reaches_the_relay(methods, reserved, target, port, tail, eof);
    assert(target.told().len() > 0) by {
        match target {
            Target::Ipv4(b) => {
                text::decimal_is_digits(b[0] as nat);
            },
            Target::Domain(b) => {
                assert(b.len() > 0) by {
                    if b.len() == 0 {
                        assert(b =~= Seq::empty());
                    }
                }
                utf8::decode_utf8_encode_utf8(b);
                if target.told().len() == 0 {
                    assert(utf8::encode_utf8(target.told()).len() == 0);
                }
            },
            Target::Ipv6(b) => {
                assert(b.len() == 16);
            },
        }
    }
    sessions_connect_to_the_asked_target(running, session_id, target.told(), port);
}

/// Whatever the reader sends on has at least one byte and at most as many as the read buffer
/// holds, and can be posted, as long as no read gives more than that.
pub proof fn sent_chunks_can_be_posted(events: Seq<ReaderEventView>)
    requires
        pump::reads_fit(events),
    ensures
        forall|i: int|
            0 <= i < pump::sent_chunks(events).len() ==> {
                let n = (#[trigger] pump::sent_chunks(events)[i]).len();
                1 <= n <= pump::READ_BUF_SIZE && codec::encodable(n)
            },
{
    pump::sent_chunks_fit_the_buffer(events);
}

/// The URLs are those of the relay's API under its base URL, however many slashes that is
/// written with.
pub proof fn urls_stand_under_the_base_url(base: Seq<char>, slashes: nat, id: Seq<char>)
    requires
        base.len() > 0 ==> base.last() != '/',
    ensures
        ({
            let given = base + Seq::new(slashes, |i: int| '/');
            &&& session::create_url(given) == base + "/session/create"@
            &&& client_bridge::recv_url(given, id) == base + "/debug/"@ + id + "/recv?clear=1"@
            &&& client_bridge::send_url(given, id) == base + "/debug/"@ + id + "/send"@
            &&& server_bridge::read_url(given, id) == base + "/session/"@ + id + "/read"@
            &&& server_bridge::write_url(given, id) == base + "/session/"@ + id + "/write"@
            &&& sessions::sessions_url(given) == base + "/debug/sessions"@
            &&& text::without_trailing_slashes(given) == base
        }),
{
    text::trailing_slashes_do_not_matter(base, slashes);
}

} // verus!
