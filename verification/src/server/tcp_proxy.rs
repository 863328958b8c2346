//! The connection to a session's target.
use vstd::prelude::*;
use vstd::string::*;

use crate::pieces;
use crate::pump;
use crate::pump::{
    ReaderEventView, ReaderTask, ReaderTaskView, WriterEventView, WriterStop, WriterTask,
    WriterTaskView, CHANNEL_BUFFER,
};

verus! {

/// The connection to a target.
pub struct TcpProxy;

/// The tasks of a connection, just started, and how many chunks each of the two channels
/// beside them holds.
#[derive(Debug, PartialEq, Eq)]
pub struct TcpTasks {
    pub channel_buffer: usize,
    pub reader: ReaderTask,
    pub writer: WriterTask,
}

/// There is no connection to this target.
#[derive(Debug, PartialEq, Eq)]
pub struct ConnectError {
    pub target: String,
}

impl ConnectError {
    /// The error in words.
    pub fn message(&self) -> (r: String)
        ensures
            r@ == "Failed to connect to "@ + self.target@,
    {
        let mut r = "Failed to connect to ".to_owned();
        r.append(self.target.as_str());
        r
    }
}

impl TcpProxy {
    /// The tasks of the connection to `target`, or that there is none, according to whether
    /// connecting succeeded.
    pub fn connect(target: &str, connected: bool) -> (r: Result<TcpTasks, ConnectError>)
        ensures
            match r {
                Ok(tasks) => {
                    &&& connected
                    &&& tasks.channel_buffer == CHANNEL_BUFFER
                    &&& tasks.reader@ == ReaderTaskView::Reading
                    &&& tasks.writer@ == WriterTaskView::Receiving
                },
                Err(e) => !connected && e.target@ == target@,
            },
    {
        if connected {
            Ok(
                TcpTasks {
                    channel_buffer: CHANNEL_BUFFER,
                    reader: ReaderTask::new(),
                    writer: WriterTask::new(),
                },
            )
        } else {
            Err(ConnectError { target: target.to_owned() })
        }
    }
}

/// A connection invents nothing, loses nothing and keeps the order, as long as its channels
/// do.  What is written to it, with the `part` that has gone out of an unfinished write, is a
/// start of the `messages` that were put into its channel, and all of them once the writer has found that channel closed, which it does only when
/// nothing is left in it.  What was `taken` out of its other channel is a start of what was
/// read.
pub proof fn connections_pass_bytes_on(
    reads: Seq<ReaderEventView>,
    writes: Seq<WriterEventView>,
    part: Seq<u8>,
    messages: Seq<Seq<u8>>,
    taken: Seq<Seq<u8>>,
)
    requires
        pump::is_part_written(writes, part),
        pump::received_chunks(writes).is_prefix_of(messages),
        pump::writer_run(writes) == WriterTaskView::Stopped(WriterStop::SenderDropped)
            ==> pump::received_chunks(writes) == messages,
        taken.is_prefix_of(pump::sent_chunks(reads)),
    ensures
        (pump::written_chunks(writes).flatten() + part).is_prefix_of(messages.flatten()),
        pump::writer_run(writes) == WriterTaskView::Stopped(WriterStop::SenderDropped)
            ==> pump::written_chunks(writes).flatten() + part == messages.flatten(),
        taken.flatten().is_prefix_of(pump::read_pieces(reads).flatten()),
{
    pump::writer_passes_bytes_on(writes);
    pump::writer_passes_parts_on(writes, part);
    pieces::starts_flatten(pump::received_chunks(writes), messages);
    pieces::starts_compose(
        pump::written_chunks(writes).flatten() + part,
        pump::received_chunks(writes).flatten(),
        messages.flatten(),
    );
    if pump::writer_run(writes) == WriterTaskView::Stopped(WriterStop::SenderDropped) {
        assert(pump::written_chunks(writes).flatten() + part =~= messages.flatten());
    }
    pump::reader_passes_bytes_on(reads);
    pieces::starts_flatten(taken, pump::sent_chunks(reads));
    pieces::starts_compose(
        taken.flatten(),
        pump::sent_chunks(reads).flatten(),
        pump::read_pieces(reads).flatten(),
    );
}

} // verus!
