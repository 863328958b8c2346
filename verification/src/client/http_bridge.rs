//! The client's end of a session: polling for what the remote side sent, and posting what
//! the SOCKS5 client sends.
use vstd::prelude::*;
use vstd::string::*;

use crate::codec;
use crate::failures;
use crate::forward::{ForwardError, ForwardErrorView};
use crate::poll;
use crate::poll::{PollError, PollErrorView};
use crate::tasks::{BridgeTasks, End};
use crate::text;

verus! {

/// What the relay answers to a poll of the client.
#[derive(Debug, PartialEq, Eq)]
pub struct RecvResponse {
    pub chunks: Vec<ChunkEntry>,
}

/// A chunk as the relay sends it.
#[derive(Debug, PartialEq, Eq)]
pub struct ChunkEntry {
    pub base64: String,
}

impl View for RecvResponse {
    type V = Seq<Seq<char>>;

    /// The Base64 texts of the chunks.
    open spec fn view(&self) -> Seq<Seq<char>> {
        Seq::new(self.chunks@.len(), |i: int| self.chunks@[i].base64@)
    }
}

/// Where the client polls for what the remote side sent.
pub open spec fn recv_url(base_url: Seq<char>, session_id: Seq<char>) -> Seq<char> {
    text::without_trailing_slashes(base_url) + "/debug/"@ + session_id + "/recv?clear=1"@
}

/// Where the client posts what is for the remote side.
pub open spec fn send_url(base_url: Seq<char>, session_id: Seq<char>) -> Seq<char> {
    text::without_trailing_slashes(base_url) + "/debug/"@ + session_id + "/send"@
}

/// The client's end of a session.
#[derive(Debug, PartialEq, Eq)]
pub struct HttpBridge {
    pub recv_url: String,
    pub send_url: String,
    pub poll_interval_ms: u64,
}

impl HttpBridge {
    /// The end of session `session_id` at the relay `base_url`.
    pub fn new(base_url: String, session_id: String, poll_interval_ms: u64) -> (r: HttpBridge)
        ensures
            r.recv_url@ == recv_url(base_url@, session_id@),
            r.send_url@ == send_url(base_url@, session_id@),
            r.poll_interval_ms == poll_interval_ms,
    {
        let mut base = text::trim_trailing_slashes(base_url.as_str());
        base.append("/debug/");
        base.append(session_id.as_str());
        let mut recv_url = base.clone();
        recv_url.append("/recv?clear=1");
        base.append("/send");
        HttpBridge { recv_url, send_url: base, poll_interval_ms }
    }

    /// Starts the tasks of this end.
    pub fn run(self) -> (r: BridgeTasks)
        ensures
            r.fresh(End::Client, self.recv_url@, self.poll_interval_ms, self.send_url@),
    {
        BridgeTasks::start(End::Client, self.recv_url, self.poll_interval_ms, self.send_url)
    }
}

/// The chunks in a reply, without the empty ones, if every text is Base64.
pub open spec fn nonempty_chunks(texts: Seq<Seq<char>>) -> Option<Seq<Seq<u8>>>
    decreases texts.len(),
{
    if texts.len() == 0 {
        Some(Seq::empty())
    } else {
        match (nonempty_chunks(texts.drop_last()), codec::base64_bytes(texts.last())) {
            (Some(before), Some(bytes)) => Some(
                if bytes.len() == 0 {
                    before
                } else {
                    before.push(bytes)
                },
            ),
            _ => None,
        }
    }
}

/// Once one text is not Base64, there are no chunks, whatever follows.
proof fn bad_text_spoils_the_reply(texts: Seq<Seq<char>>, i: int)
    requires
        0 <= i < texts.len(),
        codec::base64_bytes(texts[i]) is None,
    ensures
        nonempty_chunks(texts) is None,
    decreases texts.len(),
{
    if i < texts.len() - 1 {
        bad_text_spoils_the_reply(texts.drop_last(), i);
    }
}

/// No chunk that the client finds in a reply is empty.
pub proof fn found_chunks_are_not_empty(texts: Seq<Seq<char>>)
    ensures
        nonempty_chunks(texts) matches Some(chunks) ==> forall|i: int|
            0 <= i < chunks.len() ==> (#[trigger] chunks[i]).len() > 0,
    decreases texts.len(),
{
    if texts.len() > 0 {
        found_chunks_are_not_empty(texts.drop_last());
    }
}

/// The chunks of a reply, in order and without the empty ones.
pub fn poll_once(body: RecvResponse) -> (r: Result<Vec<Vec<u8>>, PollError>)
    ensures
        match r {
            Ok(chunks) => nonempty_chunks(body@) == Some(poll::contents(chunks@)),
            Err(e) => nonempty_chunks(body@) is None && e == PollError::Base64,
        },
{
    let mut result: Vec<Vec<u8>> = Vec::new();
    let mut i: usize = 0;
    proof {
        assert(poll::contents(result@) =~= Seq::empty());
        assert(body@.take(0) =~= Seq::empty());
    }
    while i < body.chunks.len()
        invariant
            i <= body.chunks@.len(),
            nonempty_chunks(body@.take(i as int)) == Some(poll::contents(result@)),
        decreases body.chunks@.len() - i,
    {
        let ghost upto = body@.take(i + 1);
        proof {
            assert(upto.drop_last() =~= body@.take(i as int));
            assert(upto.last() == body.chunks@[i as int].base64@);
        }
        match codec::decode_text(body.chunks[i].base64.as_str()) {
            Some(bytes) => {
                if bytes.len() != 0 {
                    let ghost before = poll::contents(result@);
                    let ghost piece = bytes@;
                    result.push(bytes);
                    proof {
                        assert(poll::contents(result@) =~= before.push(piece));
                    }
                }
            },
            None => {
                proof {
                    bad_text_spoils_the_reply(body@, i as int);
                }
                return Err(PollError::Base64);
            },
        }
        i = i + 1;
    }
    proof {
        assert(body@.take(i as int) =~= body@);
    }
    Ok(result)
}

/// Why a poll failed, in words.
pub open spec fn poll_error_words(e: PollErrorView) -> Seq<char> {
    match e {
        PollErrorView::Request => "Failed to GET recv endpoint"@,
        PollErrorView::Status(line) => "Recv endpoint returned HTTP "@ + line,
        PollErrorView::Body => "Failed to parse recv response"@,
        PollErrorView::Base64 => "Failed to base64-decode recv chunk"@,
    }
}

/// Why a poll failed, in words.
pub fn poll_error_message(e: &PollError) -> (r: String)
    ensures
        r@ == poll_error_words(e@),
        e matches PollError::Status(line) ==> r@ == "Recv endpoint returned HTTP "@ + line@,
{
    match e {
        PollError::Request => "Failed to GET recv endpoint".to_owned(),
        PollError::Status(line) => {
            let mut r = "Recv endpoint returned HTTP ".to_owned();
            r.append(line.as_str());
            r
        },
        PollError::Body => "Failed to parse recv response".to_owned(),
        PollError::Base64 => "Failed to base64-decode recv chunk".to_owned(),
    }
}

/// Why a post failed, in words, as the failure of this number in a row.
pub open spec fn post_error_words(e: ForwardErrorView, count: u32) -> Seq<char> {
    match e {
        ForwardErrorView::Request(reason) => "Send POST failed "@ + failures::progress_words(
            count,
        ) + ": "@ + reason,
        ForwardErrorView::Status(line) => "Send endpoint returned HTTP "@ + line + " "@
            + failures::progress_words(count),
    }
}

/// Why a post failed, in words, as the failure of this number in a row.
pub fn post_error_message(e: &ForwardError, count: u32) -> (r: String)
    ensures
        r@ == post_error_words(e@, count),
        e matches ForwardError::Request(reason) ==> r@ == "Send POST failed "@
            + failures::progress_words(count) + ": "@ + reason@,
        e matches ForwardError::Status(line) ==> r@ == "Send endpoint returned HTTP "@ + line@
            + " "@ + failures::progress_words(count),
{
    match e {
        ForwardError::Request(reason) => {
            let mut r = "Send POST failed ".to_owned();
            failures::push_progress(&mut r, count);
            r.append(": ");
            r.append(reason.as_str());
            r
        },
        ForwardError::Status(line) => {
            let mut r = "Send endpoint returned HTTP ".to_owned();
            r.append(line.as_str());
            r.append(" ");
            failures::push_progress(&mut r, count);
            r
        },
    }
}

/// The words of a failure hold what the relay or the transport said, whatever that is, and how
/// many failures there were in a row.
pub proof fn failures_say_their_reason(said: Seq<char>, count: u32)
    ensures
        poll_error_words(PollErrorView::Status(said)) == "Recv endpoint returned HTTP "@ + said,
        post_error_words(ForwardErrorView::Request(said), count) == "Send POST failed "@
            + failures::progress_words(count) + ": "@ + said,
        post_error_words(ForwardErrorView::Status(said), count) == "Send endpoint returned HTTP "@
            + said + " "@ + failures::progress_words(count),
{
}

/// A reply with one text: its bytes as one chunk, no chunk where there are none, and nothing
/// where the text is not Base64.  The texts of a reply are those of its entries, in order.
pub proof fn one_text_gives_one_chunk(text: Seq<char>, body: RecvResponse)
    ensures
        codec::base64_bytes(text) is None ==> nonempty_chunks(seq![text]) is None,
        codec::base64_bytes(text) matches Some(bytes) ==> nonempty_chunks(seq![text]) == Some(
            if bytes.len() > 0 {
                seq![bytes]
            } else {
                Seq::empty()
            },
        ),
        body@.len() == body.chunks@.len(),
        forall|i: int| 0 <= i < body@.len() ==> #[trigger] body@[i] == body.chunks@[i].base64@,
{
    assert(seq![text].drop_last() =~= Seq::empty());
    assert(nonempty_chunks(Seq::empty()) == Some(Seq::<Seq<u8>>::empty()));
    if let Some(bytes) = codec::base64_bytes(text) {
        assert(Seq::<Seq<u8>>::empty().push(bytes) =~= seq![bytes]);
    }
}

} // verus!
