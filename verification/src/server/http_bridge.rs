//! The server's end of a session: polling for what the client sent, and posting what the
//! target sends.
use vstd::prelude::*;
use vstd::string::*;

use crate::codec;
use crate::failures;
use crate::forward::{ForwardError, ForwardErrorView};
use crate::poll;
use crate::poll::{PollError, PollErrorView};
use crate::tasks::{BridgeTasks, End};
use crate::text;

verus! {

/// What the relay answers to a poll of the server.
#[derive(Debug, PartialEq, Eq)]
pub struct ReadResponse {
    pub data: Option<String>,
}

impl View for ReadResponse {
    type V = Option<Seq<char>>;

    /// The Base64 text, if there is one.
    open spec fn view(&self) -> Option<Seq<char>> {
        match self.data {
            Some(b64) => Some(b64@),
            None => None,
        }
    }
}

/// Where the server polls for what the client sent.
pub open spec fn read_url(base_url: Seq<char>, session_id: Seq<char>) -> Seq<char> {
    text::without_trailing_slashes(base_url) + "/session/"@ + session_id + "/read"@
}

/// Where the server posts what is for the client.
pub open spec fn write_url(base_url: Seq<char>, session_id: Seq<char>) -> Seq<char> {
    text::without_trailing_slashes(base_url) + "/session/"@ + session_id + "/write"@
}

/// The server's end of a session.
#[derive(Debug, PartialEq, Eq)]
pub struct HttpBridge {
    pub read_url: String,
    pub write_url: String,
    pub poll_interval_ms: u64,
}

impl HttpBridge {
    /// The end of session `session_id` at the relay `base_url`.
    pub fn new(base_url: String, session_id: String, poll_interval_ms: u64) -> (r: HttpBridge)
        ensures
            r.read_url@ == read_url(base_url@, session_id@),
            r.write_url@ == write_url(base_url@, session_id@),
            r.poll_interval_ms == poll_interval_ms,
    {
        let mut base = text::trim_trailing_slashes(base_url.as_str());
        base.append("/session/");
        base.append(session_id.as_str());
        let mut read_url = base.clone();
        read_url.append("/read");
        base.append("/write");
        HttpBridge { read_url, write_url: base, poll_interval_ms }
    }

    /// Starts the tasks of this end.
    pub fn run(self) -> (r: BridgeTasks)
        ensures
            r.fresh(End::Server, self.read_url@, self.poll_interval_ms, self.write_url@),
    {
        BridgeTasks::start(End::Server, self.read_url, self.poll_interval_ms, self.write_url)
    }
}

/// The chunks to hand on for a reply: its data as one chunk, be it empty, or none where the
/// reply has no data.  Nothing where the data is not Base64.
pub open spec fn data_chunks(data: Option<Seq<char>>) -> Option<Seq<Seq<u8>>> {
    match data {
        Some(b64) => match codec::base64_bytes(b64) {
            Some(bytes) => Some(seq![bytes]),
            None => None,
        },
        None => Some(Seq::empty()),
    }
}

/// The chunks of a reply: one where it has data, none where it has not.
pub fn poll_once(body: ReadResponse) -> (r: Result<Vec<Vec<u8>>, PollError>)
    ensures
        match r {
            Ok(chunks) => data_chunks(body@) == Some(poll::contents(chunks@)),
            Err(e) => data_chunks(body@) is None && e == PollError::Base64,
        },
        body.data is None ==> (r matches Ok(chunks) && chunks@.len() == 0),
        body.data matches Some(b64) ==> match codec::base64_bytes(b64@) {
            Some(bytes) => r matches Ok(chunks) && chunks@.len() == 1 && chunks@[0]@ == bytes,
            None => r is Err,
        },
{
    match body.data {
        Some(b64) => match codec::decode_text(b64.as_str()) {
            Some(bytes) => {
                let ghost piece = bytes@;
                let chunks = vec![bytes];
                proof {
                    assert(poll::contents(chunks@) =~= seq![piece]);
                }
                Ok(chunks)
            },
            None => Err(PollError::Base64),
        },
        None => {
            let chunks: Vec<Vec<u8>> = Vec::new();
            proof {
                assert(poll::contents(chunks@) =~= Seq::empty());
            }
            Ok(chunks)
        },
    }
}

/// Why a poll failed, in words.
pub open spec fn poll_error_words(e: PollErrorView) -> Seq<char> {
    match e {
        PollErrorView::Request => "Failed to POST to read endpoint"@,
        PollErrorView::Status(line) => "Read endpoint returned HTTP "@ + line,
        PollErrorView::Body => "Failed to parse read response JSON"@,
        PollErrorView::Base64 => "Failed to base64-decode read response data"@,
    }
}

/// Why a poll failed, in words.
pub fn poll_error_message(e: &PollError) -> (r: String)
    ensures
        r@ == poll_error_words(e@),
        e matches PollError::Status(line) ==> r@ == "Read endpoint returned HTTP "@ + line@,
{
    match e {
        PollError::Request => "Failed to POST to read endpoint".to_owned(),
        PollError::Status(line) => {
            let mut r = "Read endpoint returned HTTP ".to_owned();
            r.append(line.as_str());
            r
        },
        PollError::Body => "Failed to parse read response JSON".to_owned(),
        PollError::Base64 => "Failed to base64-decode read response data".to_owned(),
    }
}

/// Why a post failed, in words, as the failure of this number in a row.
pub open spec fn post_error_words(e: ForwardErrorView, count: u32) -> Seq<char> {
    match e {
        ForwardErrorView::Request(reason) => "Failed to POST to write endpoint "@ + failures::progress_words(
            count,
        ) + ": "@ + reason,
        ForwardErrorView::Status(line) => "Write endpoint returned HTTP "@ + line + " "@
            + failures::progress_words(count),
    }
}

/// Why a post failed, in words, as the failure of this number in a row.
pub fn post_error_message(e: &ForwardError, count: u32) -> (r: String)
    ensures
        r@ == post_error_words(e@, count),
        e matches ForwardError::Request(reason) ==> r@ == "Failed to POST to write endpoint "@
            + failures::progress_words(count) + ": "@ + reason@,
        e matches ForwardError::Status(line) ==> r@ == "Write endpoint returned HTTP "@ + line@
            + " "@ + failures::progress_words(count),
{
    match e {
        ForwardError::Request(reason) => {
            let mut r = "Failed to POST to write endpoint ".to_owned();
            failures::push_progress(&mut r, count);
            r.append(": ");
            r.append(reason.as_str());
            r
        },
        ForwardError::Status(line) => {
            let mut r = "Write endpoint returned HTTP ".to_owned();
            r.append(line.as_str());
            r.append(" ");
            failures::push_progress(&mut r, count);
            r
        },
    }
}

/// The words of a failure hold what the relay or the transport said, whatever that is, and how
/// many failures there were in a row.
pub proof fn failures_say_their_reason(said: Seq<char>, count: u32)
    ensures
        poll_error_words(PollErrorView::Status(said)) == "Read endpoint returned HTTP "@ + said,
        post_error_words(ForwardErrorView::Request(said), count) == "Failed to POST to write endpoint "@
            + failures::progress_words(count) + ": "@ + said,
        post_error_words(ForwardErrorView::Status(said), count) == "Write endpoint returned HTTP "@
            + said + " "@ + failures::progress_words(count),
{
}

/// A reply without data gives no chunk; one with data gives exactly one, be it empty, with the
/// bytes whose text the data is; and one whose data is the text of no bytes gives nothing.
pub proof fn data_gives_one_chunk(data: Option<Seq<char>>)
    ensures
        data is None ==> data_chunks(data) == Some(Seq::<Seq<u8>>::empty()),
        data matches Some(b64) ==> (data_chunks(data) matches Some(chunks) ==> chunks.len() == 1
            && codec::base64_text(chunks[0]) == b64),
        data matches Some(b64) ==> (data_chunks(data) is None ==> forall|bytes: Seq<u8>|
            #[trigger] codec::base64_text(bytes) != b64),
{
    if let Some(b64) = data {
        codec::only_encoded_texts_decode(b64);
    }
}

} // verus!
