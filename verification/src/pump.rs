//! The two tasks that move bytes between a TCP connection and a channel.  Both ends run
//! them.
use vstd::prelude::*;
use vstd::seq_lib;
use vstd::slice::{slice_subrange, slice_to_vec};

use crate::pieces;

verus! {

/// How many chunks a channel between two tasks holds.
pub const CHANNEL_BUFFER: usize = 256;

/// How many bytes are read at a time.
pub const READ_BUF_SIZE: usize = 8192;

/// Why the reader ended.
#[derive(Debug, Clone, Copy, PartialEq, Eq, Structural)]
pub enum ReaderStop {
    Cancelled,
    Eof,
    ReadFailed,
    ReceiverDropped,
}

impl ReaderStop {
    /// The reason in words.
    pub open spec fn words(self) -> Seq<char> {
        match self {
            ReaderStop::Cancelled => "cancellation requested"@,
            ReaderStop::Eof => "TCP EOF"@,
            ReaderStop::ReadFailed => "TCP read error"@,
            ReaderStop::ReceiverDropped => "read channel receiver dropped"@,
        }
    }

    /// The reason in words.
    pub fn reason(self) -> (r: &'static str)
        ensures
            r@ == self.words(),
    {
        match self {
            ReaderStop::Cancelled => "cancellation requested",
            ReaderStop::Eof => "TCP EOF",
            ReaderStop::ReadFailed => "TCP read error",
            ReaderStop::ReceiverDropped => "read channel receiver dropped",
        }
    }
}

/// What the reader is about to do, and waits for the outcome of.
#[derive(Debug, PartialEq, Eq)]
pub enum ReaderTask {
    /// Read from the connection, or end when the session is cancelled.
    Reading,
    /// Put this chunk into the channel.
    Sending(Vec<u8>),
    /// Ended.
    Stopped(ReaderStop),
}

/// What a [`ReaderTask`] holds.
pub enum ReaderTaskView {
    Reading,
    Sending(Seq<u8>),
    Stopped(ReaderStop),
}

impl View for ReaderTask {
    type V = ReaderTaskView;

    open spec fn view(&self) -> ReaderTaskView {
        match self {
            ReaderTask::Reading => ReaderTaskView::Reading,
            ReaderTask::Sending(chunk) => ReaderTaskView::Sending(chunk@),
            ReaderTask::Stopped(why) => ReaderTaskView::Stopped(*why),
        }
    }
}

/// What can happen to the reader.
#[derive(Debug, PartialEq, Eq)]
pub enum ReaderEvent {
    /// The session was cancelled.
    Cancelled,
    /// These bytes were read; none at the end of the stream.
    Read(Vec<u8>),
    /// Reading failed.
    ReadFailed,
    /// Whether the channel took the chunk.
    Sent(bool),
}

/// What a [`ReaderEvent`] holds.
pub enum ReaderEventView {
    Cancelled,
    Read(Seq<u8>),
    ReadFailed,
    Sent(bool),
}

impl View for ReaderEvent {
    type V = ReaderEventView;

    open spec fn view(&self) -> ReaderEventView {
        match self {
            ReaderEvent::Cancelled => ReaderEventView::Cancelled,
            ReaderEvent::Read(bytes) => ReaderEventView::Read(bytes@),
            ReaderEvent::ReadFailed => ReaderEventView::ReadFailed,
            ReaderEvent::Sent(taken) => ReaderEventView::Sent(*taken),
        }
    }
}

/// What the reader does after `event`.  An event that it does not wait for changes
/// nothing.
pub open spec fn reader_next(task: ReaderTaskView, event: ReaderEventView) -> ReaderTaskView {
    match (task, event) {
        (ReaderTaskView::Reading, ReaderEventView::Cancelled) => ReaderTaskView::Stopped(
            ReaderStop::Cancelled,
        ),
        (ReaderTaskView::Reading, ReaderEventView::ReadFailed) => ReaderTaskView::Stopped(
            ReaderStop::ReadFailed,
        ),
        (ReaderTaskView::Reading, ReaderEventView::Read(bytes)) => {
            if bytes.len() == 0 {
                ReaderTaskView::Stopped(ReaderStop::Eof)
            } else {
                ReaderTaskView::Sending(bytes)
            }
        },
        (ReaderTaskView::Sending(chunk), ReaderEventView::Sent(taken)) => {
            if taken {
                ReaderTaskView::Reading
            } else {
                ReaderTaskView::Stopped(ReaderStop::ReceiverDropped)
            }
        },
        _ => task,
    }
}

/// The first `n` bytes of a read buffer: those that a read of `n` bytes filled.
pub fn filled(buf: &[u8], n: usize) -> (r: Vec<u8>)
    requires
        n <= buf@.len(),
    ensures
        r@ == buf@.take(n as int),
{
    slice_to_vec(slice_subrange(buf, 0, n))
}

impl ReaderTask {
    /// The reader as it starts.
    pub fn new() -> (r: ReaderTask)
        ensures
            r@ == ReaderTaskView::Reading,
    {
        ReaderTask::Reading
    }

    /// Whether the reader has ended, so that its session is to be cancelled.
    pub fn ended(&self) -> (r: bool)
        ensures
            r == (self@ is Stopped),
    {
        match self {
            ReaderTask::Stopped(_) => true,
            _ => false,
        }
    }

    /// Tells the reader what happened.
    pub fn step(self, event: ReaderEvent) -> (r: ReaderTask)
        ensures
            r@ == reader_next(self@, event@),
            self is Reading ==> (event matches ReaderEvent::Read(bytes) ==> (bytes@.len() > 0
                ==> r == ReaderTask::Sending(bytes))),
            self is Sending ==> (event == ReaderEvent::Sent(true) ==> r == ReaderTask::Reading),
    {
        match (self, event) {
            (ReaderTask::Reading, ReaderEvent::Cancelled) => ReaderTask::Stopped(
                ReaderStop::Cancelled,
            ),
            (ReaderTask::Reading, ReaderEvent::ReadFailed) => ReaderTask::Stopped(
                ReaderStop::ReadFailed,
            ),
            (ReaderTask::Reading, ReaderEvent::Read(bytes)) => {
                if bytes.len() == 0 {
                    ReaderTask::Stopped(ReaderStop::Eof)
                } else {
                    ReaderTask::Sending(bytes)
                }
            },
            (ReaderTask::Sending(_), ReaderEvent::Sent(taken)) => {
                if taken {
                    ReaderTask::Reading
                } else {
                    ReaderTask::Stopped(ReaderStop::ReceiverDropped)
                }
            },
            (task, _) => task,
        }
    }
}

/// Why the writer ended.
#[derive(Debug, Clone, Copy, PartialEq, Eq, Structural)]
pub enum WriterStop {
    Cancelled,
    WriteFailed,
    FlushFailed,
    SenderDropped,
}

impl WriterStop {
    /// The reason in words.
    pub open spec fn words(self) -> Seq<char> {
        match self {
            WriterStop::Cancelled => "cancellation requested"@,
            WriterStop::WriteFailed => "TCP write error"@,
            WriterStop::FlushFailed => "TCP flush error"@,
            WriterStop::SenderDropped => "write channel sender dropped"@,
        }
    }

    /// The reason in words.
    pub fn reason(self) -> (r: &'static str)
        ensures
            r@ == self.words(),
    {
        match self {
            WriterStop::Cancelled => "cancellation requested",
            WriterStop::WriteFailed => "TCP write error",
            WriterStop::FlushFailed => "TCP flush error",
            WriterStop::SenderDropped => "write channel sender dropped",
        }
    }
}

/// What the writer is about to do, and waits for the outcome of.
#[derive(Debug, PartialEq, Eq)]
pub enum WriterTask {
    /// Take a chunk from the channel, or end when the session is cancelled.
    Receiving,
    /// Write all of this chunk to the connection.
    Writing(Vec<u8>),
    /// Flush the connection.
    Flushing,
    /// Ended.
    Stopped(WriterStop),
}

/// What a [`WriterTask`] holds.
pub enum WriterTaskView {
    Receiving,
    Writing(Seq<u8>),
    Flushing,
    Stopped(WriterStop),
}

impl View for WriterTask {
    type V = WriterTaskView;

    open spec fn view(&self) -> WriterTaskView {
        match self {
            WriterTask::Receiving => WriterTaskView::Receiving,
            WriterTask::Writing(chunk) => WriterTaskView::Writing(chunk@),
            WriterTask::Flushing => WriterTaskView::Flushing,
            WriterTask::Stopped(why) => WriterTaskView::Stopped(*why),
        }
    }
}

/// What can happen to the writer.
#[derive(Debug, PartialEq, Eq)]
pub enum WriterEvent {
    /// The session was cancelled.
    Cancelled,
    /// The channel gave this chunk.
    Received(Vec<u8>),
    /// The channel gives no more.
    Closed,
    /// Whether all of the chunk was written.
    Written(bool),
    /// Whether the connection was flushed.
    Flushed(bool),
}

/// What a [`WriterEvent`] holds.
pub enum WriterEventView {
    Cancelled,
    Received(Seq<u8>),
    Closed,
    Written(bool),
    Flushed(bool),
}

impl View for WriterEvent {
    type V = WriterEventView;

    open spec fn view(&self) -> WriterEventView {
        match self {
            WriterEvent::Cancelled => WriterEventView::Cancelled,
            WriterEvent::Received(chunk) => WriterEventView::Received(chunk@),
            WriterEvent::Closed => WriterEventView::Closed,
            WriterEvent::Written(ok) => WriterEventView::Written(*ok),
            WriterEvent::Flushed(ok) => WriterEventView::Flushed(*ok),
        }
    }
}

/// What the writer does after `event`.  An event that it does not wait for changes
/// nothing.
pub open spec fn writer_next(task: WriterTaskView, event: WriterEventView) -> WriterTaskView {
    match (task, event) {
        (WriterTaskView::Receiving, WriterEventView::Cancelled) => WriterTaskView::Stopped(
            WriterStop::Cancelled,
        ),
        (WriterTaskView::Receiving, WriterEventView::Closed) => WriterTaskView::Stopped(
            WriterStop::SenderDropped,
        ),
        (WriterTaskView::Receiving, WriterEventView::Received(chunk)) => WriterTaskView::Writing(
            chunk,
        ),
        (WriterTaskView::Writing(chunk), WriterEventView::Written(ok)) => {
            if ok {
                WriterTaskView::Flushing
            } else {
                WriterTaskView::Stopped(WriterStop::WriteFailed)
            }
        },
        (WriterTaskView::Flushing, WriterEventView::Flushed(ok)) => {
            if ok {
                WriterTaskView::Receiving
            } else {
                WriterTaskView::Stopped(WriterStop::FlushFailed)
            }
        },
        _ => task,
    }
}

impl WriterTask {
    /// The writer as it starts.
    pub fn new() -> (r: WriterTask)
        ensures
            r@ == WriterTaskView::Receiving,
    {
        WriterTask::Receiving
    }

    /// Whether the writer has ended, so that its session is to be cancelled.
    pub fn ended(&self) -> (r: bool)
        ensures
            r == (self@ is Stopped),
    {
        match self {
            WriterTask::Stopped(_) => true,
            _ => false,
        }
    }

    /// Tells the writer what happened.
    pub fn step(self, event: WriterEvent) -> (r: WriterTask)
        ensures
            r@ == writer_next(self@, event@),
            self is Receiving ==> (event matches WriterEvent::Received(chunk) ==> r
                == WriterTask::Writing(chunk)),
            self is Writing ==> (event == WriterEvent::Written(true) ==> r
                == WriterTask::Flushing),
            self is Flushing ==> (event == WriterEvent::Flushed(true) ==> r
                == WriterTask::Receiving),
    {
        match (self, event) {
            (WriterTask::Receiving, WriterEvent::Cancelled) => WriterTask::Stopped(
                WriterStop::Cancelled,
            ),
            (WriterTask::Receiving, WriterEvent::Closed) => WriterTask::Stopped(
                WriterStop::SenderDropped,
            ),
            (WriterTask::Receiving, WriterEvent::Received(chunk)) => WriterTask::Writing(chunk),
            (WriterTask::Writing(_), WriterEvent::Written(ok)) => {
                if ok {
                    WriterTask::Flushing
                } else {
                    WriterTask::Stopped(WriterStop::WriteFailed)
                }
            },
            (WriterTask::Flushing, WriterEvent::Flushed(ok)) => {
                if ok {
                    WriterTask::Receiving
                } else {
                    WriterTask::Stopped(WriterStop::FlushFailed)
                }
            },
            (task, _) => task,
        }
    }
}

/// The reader after a history of events.
pub open spec fn reader_run(events: Seq<ReaderEventView>) -> ReaderTaskView
    decreases events.len(),
{
    if events.len() == 0 {
        ReaderTaskView::Reading
    } else {
        reader_next(reader_run(events.drop_last()), events.last())
    }
}

/// The bytes that were read in a history, piece by piece.
pub open spec fn read_pieces(events: Seq<ReaderEventView>) -> Seq<Seq<u8>>
    decreases events.len(),
{
    if events.len() == 0 {
        Seq::empty()
    } else {
        let before = read_pieces(events.drop_last());
        match (reader_run(events.drop_last()), events.last()) {
            (ReaderTaskView::Reading, ReaderEventView::Read(bytes)) => before.push(bytes),
            _ => before,
        }
    }
}

/// The chunks that the channel took in a history.
pub open spec fn sent_chunks(events: Seq<ReaderEventView>) -> Seq<Seq<u8>>
    decreases events.len(),
{
    if events.len() == 0 {
        Seq::empty()
    } else {
        let before = sent_chunks(events.drop_last());
        match (reader_run(events.drop_last()), events.last()) {
            (ReaderTaskView::Sending(chunk), ReaderEventView::Sent(true)) => before.push(chunk),
            _ => before,
        }
    }
}

/// What was read and has not been taken by the channel: the chunk being sent or refused,
/// or the empty piece at the end of the stream.
pub open spec fn unsent_piece(events: Seq<ReaderEventView>) -> Seq<Seq<u8>> {
    let read = read_pieces(events);
    match reader_run(events) {
        ReaderTaskView::Sending(chunk) => seq![chunk],
        ReaderTaskView::Stopped(ReaderStop::Eof) => seq![Seq::empty()],
        ReaderTaskView::Stopped(ReaderStop::ReceiverDropped) => seq![read.last()],
        _ => Seq::empty(),
    }
}

/// Whatever happens, the channel gets the pieces that were read in their order, each once
/// and none of them empty.  At most the last piece is not there: the one being sent or
/// refused, or the empty one at the end of the stream.
pub proof fn read_bytes_are_sent_in_order(events: Seq<ReaderEventView>)
    ensures
        read_pieces(events) == sent_chunks(events) + unsent_piece(events),
        forall|i: int|
            0 <= i < sent_chunks(events).len() ==> (#[trigger] sent_chunks(events)[i]).len() > 0,
        reader_run(events) matches ReaderTaskView::Sending(chunk) ==> chunk.len() > 0,
        reader_run(events) == ReaderTaskView::Stopped(ReaderStop::ReceiverDropped)
            ==> read_pieces(events).len() > 0,
    decreases events.len(),
{
    if events.len() > 0 {
        let before = events.drop_last();
        read_bytes_are_sent_in_order(before);
        match (reader_run(before), events.last()) {
            (ReaderTaskView::Reading, ReaderEventView::Read(bytes)) => {
                if bytes.len() == 0 {
                    assert(bytes =~= Seq::empty());
                }
            },
            (ReaderTaskView::Sending(chunk), ReaderEventView::Sent(true)) => {
                assert forall|i: int| 0 <= i < sent_chunks(events).len() implies
                    (#[trigger] sent_chunks(events)[i]).len() > 0 by {
                    if i < sent_chunks(before).len() {
                        assert(sent_chunks(events)[i] == sent_chunks(before)[i]);
                    }
                }
            },
            _ => {},
        }
        assert(read_pieces(events) =~= sent_chunks(events) + unsent_piece(events));
    }
}

/// Whether no read in a history gives more than the read buffer holds.
pub open spec fn reads_fit(events: Seq<ReaderEventView>) -> bool {
    forall|i: int|
        0 <= i < events.len() ==> (#[trigger] events[i] matches ReaderEventView::Read(bytes)
            ==> bytes.len() <= READ_BUF_SIZE)
}

/// Every chunk that is sent has at least one byte and at most as many as the read buffer
/// holds.
pub proof fn sent_chunks_fit_the_buffer(events: Seq<ReaderEventView>)
    requires
        reads_fit(events),
    ensures
        forall|i: int|
            0 <= i < sent_chunks(events).len() ==> 1 <= (#[trigger] sent_chunks(events)[i]).len()
                <= READ_BUF_SIZE,
        reader_run(events) matches ReaderTaskView::Sending(chunk) ==> 1 <= chunk.len()
            <= READ_BUF_SIZE,
    decreases events.len(),
{
    if events.len() > 0 {
        let before = events.drop_last();
        assert forall|i: int| 0 <= i < before.len() implies (
        #[trigger] before[i] matches ReaderEventView::Read(bytes) ==> bytes.len()
            <= READ_BUF_SIZE) by {
            assert(before[i] == events[i]);
        }
        sent_chunks_fit_the_buffer(before);
        assert(events[events.len() - 1] == events.last());
        assert forall|i: int| 0 <= i < sent_chunks(events).len() implies 1 <= (
        #[trigger] sent_chunks(events)[i]).len() <= READ_BUF_SIZE by {
            if i < sent_chunks(before).len() {
                assert(sent_chunks(events)[i] == sent_chunks(before)[i]);
            }
        }
    }
}

/// The bytes that are sent are a start of those that were read.  They are all of them unless
/// a chunk is being sent or was refused; so they are at the end of the stream.
pub proof fn reader_passes_bytes_on(events: Seq<ReaderEventView>)
    ensures
        sent_chunks(events).flatten().is_prefix_of(read_pieces(events).flatten()),
        !(reader_run(events) is Sending) && reader_run(events) != ReaderTaskView::Stopped(
            ReaderStop::ReceiverDropped,
        ) ==> sent_chunks(events).flatten() == read_pieces(events).flatten(),
{
    let sent = sent_chunks(events);
    let unsent = unsent_piece(events);
    read_bytes_are_sent_in_order(events);
    seq_lib::lemma_flatten_concat(sent, unsent);
    assert(sent.is_prefix_of(read_pieces(events)));
    pieces::starts_flatten(sent, read_pieces(events));
    if reader_run(events) == ReaderTaskView::Stopped(ReaderStop::Eof) {
        unsent.lemma_flatten_one_element();
    }
    if unsent.flatten().len() == 0 {
        assert(sent.flatten() + unsent.flatten() =~= sent.flatten());
    }
}

/// A reader that has ended stays as it is, and cancelling the session ends one that reads.
pub proof fn reader_ends_for_good(task: ReaderTaskView, event: ReaderEventView)
    ensures
        task is Stopped ==> reader_next(task, event) == task,
        task is Reading ==> reader_next(task, ReaderEventView::Cancelled) is Stopped,
{
}

/// The writer after a history of events.
pub open spec fn writer_run(events: Seq<WriterEventView>) -> WriterTaskView
    decreases events.len(),
{
    if events.len() == 0 {
        WriterTaskView::Receiving
    } else {
        writer_next(writer_run(events.drop_last()), events.last())
    }
}

/// The chunks that the channel gave in a history.
pub open spec fn received_chunks(events: Seq<WriterEventView>) -> Seq<Seq<u8>>
    decreases events.len(),
{
    if events.len() == 0 {
        Seq::empty()
    } else {
        let before = received_chunks(events.drop_last());
        match (writer_run(events.drop_last()), events.last()) {
            (WriterTaskView::Receiving, WriterEventView::Received(chunk)) => before.push(chunk),
            _ => before,
        }
    }
}

/// The chunks that were written in full in a history.
pub open spec fn written_chunks(events: Seq<WriterEventView>) -> Seq<Seq<u8>>
    decreases events.len(),
{
    if events.len() == 0 {
        Seq::empty()
    } else {
        let before = written_chunks(events.drop_last());
        match (writer_run(events.drop_last()), events.last()) {
            (WriterTaskView::Writing(chunk), WriterEventView::Written(true)) => before.push(chunk),
            _ => before,
        }
    }
}

/// What the channel gave and was not written in full: the chunk being written, or the one
/// on which writing failed.
pub open spec fn unwritten_chunk(events: Seq<WriterEventView>) -> Seq<Seq<u8>> {
    match writer_run(events) {
        WriterTaskView::Writing(chunk) => seq![chunk],
        WriterTaskView::Stopped(WriterStop::WriteFailed) => seq![received_chunks(events).last()],
        _ => Seq::empty(),
    }
}

/// Whatever happens, the connection gets the chunks of the channel in their order, each
/// once.  At most the last one is not there: the one being written, or the one on which
/// writing failed.
pub proof fn received_chunks_are_written_in_order(events: Seq<WriterEventView>)
    ensures
        received_chunks(events) == written_chunks(events) + unwritten_chunk(events),
    decreases events.len(),
{
    if events.len() > 0 {
        let before = events.drop_last();
        received_chunks_are_written_in_order(before);
        assert(received_chunks(events) =~= written_chunks(events) + unwritten_chunk(events));
    }
}

/// The bytes that are written are a start of those that were received.  They are all of them
/// unless a chunk is being written or writing failed; so they are once the channel gives no
/// more.
pub proof fn writer_passes_bytes_on(events: Seq<WriterEventView>)
    ensures
        written_chunks(events).is_prefix_of(received_chunks(events)),
        written_chunks(events).flatten().is_prefix_of(received_chunks(events).flatten()),
        !(writer_run(events) is Writing) && writer_run(events) != WriterTaskView::Stopped(
            WriterStop::WriteFailed,
        ) ==> written_chunks(events) == received_chunks(events),
{
    received_chunks_are_written_in_order(events);
    assert(written_chunks(events).is_prefix_of(received_chunks(events)));
    pieces::starts_flatten(written_chunks(events), received_chunks(events));
    if unwritten_chunk(events).len() == 0 {
        assert(written_chunks(events) =~= received_chunks(events));
    }
}

/// Whether `part` may be what has gone out of a chunk that was not written in full: any start
/// of it, and nothing where there is no such chunk.
pub open spec fn is_part_written(events: Seq<WriterEventView>, part: Seq<u8>) -> bool {
    part.is_prefix_of(unwritten_chunk(events).flatten())
}

/// Whatever has gone out of the chunk being written, or of the one on which writing failed,
/// all that is written is a start of what was received.
pub proof fn writer_passes_parts_on(events: Seq<WriterEventView>, part: Seq<u8>)
    requires
        is_part_written(events, part),
    ensures
        (written_chunks(events).flatten() + part).is_prefix_of(received_chunks(events).flatten()),
        written_chunks(events) == received_chunks(events) ==> part.len() == 0,
{
    let written = written_chunks(events);
    let unwritten = unwritten_chunk(events);
    received_chunks_are_written_in_order(events);
    seq_lib::lemma_flatten_concat(written, unwritten);
    let all = received_chunks(events).flatten();
    assert(written.flatten() + part =~= all.take((written.flatten() + part).len() as int));
    if written == received_chunks(events) {
        assert(unwritten.len() == 0);
    }
}

/// A writer that has ended stays as it is, and cancelling the session ends one that waits
/// for a chunk.
pub proof fn writer_ends_for_good(task: WriterTaskView, event: WriterEventView)
    ensures
        task is Stopped ==> writer_next(task, event) == task,
        task is Receiving ==> writer_next(task, WriterEventView::Cancelled) is Stopped,
{
}

/// Whether this event stops a reader that waits for it, and why.
pub open spec fn reader_told(task: ReaderTaskView, event: ReaderEventView) -> Option<ReaderStop> {
    match event {
        ReaderEventView::Cancelled if task is Reading => Some(ReaderStop::Cancelled),
        ReaderEventView::Read(bytes) if task is Reading && bytes.len() == 0 => Some(
            ReaderStop::Eof,
        ),
        ReaderEventView::ReadFailed if task is Reading => Some(ReaderStop::ReadFailed),
        ReaderEventView::Sent(false) if task is Sending => Some(ReaderStop::ReceiverDropped),
        _ => None,
    }
}

/// Whether the reader was stopped with the event at `i`, for this reason.
pub open spec fn reader_stopped_at(
    events: Seq<ReaderEventView>,
    i: int,
    why: ReaderStop,
) -> bool {
    &&& 0 <= i < events.len()
    &&& reader_told(reader_run(events.take(i)), events[i]) == Some(why)
}

/// The reader stops only for its reasons: in every history it has stopped for a reason if and
/// only if it was told that reason while it waited for it.
pub proof fn readers_stop_only_for_their_reasons(events: Seq<ReaderEventView>, why: ReaderStop)
    ensures
        reader_run(events) == ReaderTaskView::Stopped(why) <==> exists|i: int|
            reader_stopped_at(events, i, why),
    decreases events.len(),
{
    if events.len() > 0 {
        let last = events.len() - 1;
        let before = events.drop_last();
        readers_stop_only_for_their_reasons(before, why);
        assert(events.take(last) =~= before);
        assert forall|i: int| 0 <= i < last implies (#[trigger] reader_stopped_at(events, i, why)
            <==> reader_stopped_at(before, i, why)) by {
            assert(events.take(i) =~= before.take(i));
        }
        if exists|i: int| reader_stopped_at(before, i, why) {
            let i = choose|i: int| reader_stopped_at(before, i, why);
            assert(reader_stopped_at(events, i, why));
        }
        if exists|i: int| reader_stopped_at(events, i, why) {
            let i = choose|i: int| reader_stopped_at(events, i, why);
            if i < last {
                assert(reader_stopped_at(before, i, why));
            }
        }
        assert(reader_stopped_at(events, last, why) ==> reader_run(events)
            == ReaderTaskView::Stopped(why));
        if reader_run(events) == ReaderTaskView::Stopped(why) && !(reader_run(before) is Stopped) {
            assert(reader_stopped_at(events, last, why));
        }
    } else {
        assert(forall|i: int| !reader_stopped_at(events, i, why));
    }
}

/// Bytes that were read are sent on as they are, and a chunk that the channel took always
/// leads back to reading, whatever it holds.  Other events change nothing.
pub proof fn readers_read_on(task: ReaderTaskView, event: ReaderEventView, bytes: Seq<u8>)
    ensures
        bytes.len() > 0 ==> reader_next(ReaderTaskView::Reading, ReaderEventView::Read(bytes))
            == ReaderTaskView::Sending(bytes),
        reader_next(ReaderTaskView::Sending(bytes), ReaderEventView::Sent(true))
            == ReaderTaskView::Reading,
        task is Reading && event is Sent ==> reader_next(task, event) == task,
        task is Sending && !(event is Sent) ==> reader_next(task, event) == task,
{
}

/// Whether this event stops a writer that waits for it, and why.
pub open spec fn writer_told(task: WriterTaskView, event: WriterEventView) -> Option<WriterStop> {
    match event {
        WriterEventView::Cancelled if task is Receiving => Some(WriterStop::Cancelled),
        WriterEventView::Closed if task is Receiving => Some(WriterStop::SenderDropped),
        WriterEventView::Written(false) if task is Writing => Some(WriterStop::WriteFailed),
        WriterEventView::Flushed(false) if task is Flushing => Some(WriterStop::FlushFailed),
        _ => None,
    }
}

/// Whether the writer was stopped with the event at `i`, for this reason.
pub open spec fn writer_stopped_at(
    events: Seq<WriterEventView>,
    i: int,
    why: WriterStop,
) -> bool {
    &&& 0 <= i < events.len()
    &&& writer_told(writer_run(events.take(i)), events[i]) == Some(why)
}

/// The writer stops only for its reasons: in every history it has stopped for a reason if and
/// only if it was told that reason while it waited for it.
pub proof fn writers_stop_only_for_their_reasons(events: Seq<WriterEventView>, why: WriterStop)
    ensures
        writer_run(events) == WriterTaskView::Stopped(why) <==> exists|i: int|
            writer_stopped_at(events, i, why),
    decreases events.len(),
{
    if events.len() > 0 {
        let last = events.len() - 1;
        let before = events.drop_last();
        writers_stop_only_for_their_reasons(before, why);
        assert(events.take(last) =~= before);
        assert forall|i: int| 0 <= i < last implies (#[trigger] writer_stopped_at(events, i, why)
            <==> writer_stopped_at(before, i, why)) by {
            assert(events.take(i) =~= before.take(i));
        }
        if exists|i: int| writer_stopped_at(before, i, why) {
            let i = choose|i: int| writer_stopped_at(before, i, why);
            assert(writer_stopped_at(events, i, why));
        }
        if exists|i: int| writer_stopped_at(events, i, why) {
            let i = choose|i: int| writer_stopped_at(events, i, why);
            if i < last {
                assert(writer_stopped_at(before, i, why));
            }
        }
        assert(writer_stopped_at(events, last, why) ==> writer_run(events)
            == WriterTaskView::Stopped(why));
        if writer_run(events) == WriterTaskView::Stopped(why) && !(writer_run(before) is Stopped) {
            assert(writer_stopped_at(events, last, why));
        }
    } else {
        assert(forall|i: int| !writer_stopped_at(events, i, why));
    }
}

/// A chunk that was received is written as it is, then flushed, and then the next one is waited
/// for, whatever it holds.  Other events change nothing.
pub proof fn writers_write_on(task: WriterTaskView, event: WriterEventView, chunk: Seq<u8>)
    ensures
        writer_next(WriterTaskView::Receiving, WriterEventView::Received(chunk))
            == WriterTaskView::Writing(chunk),
        writer_next(WriterTaskView::Writing(chunk), WriterEventView::Written(true))
            == WriterTaskView::Flushing,
        writer_next(WriterTaskView::Flushing, WriterEventView::Flushed(true))
            == WriterTaskView::Receiving,
        task is Receiving && (event is Written || event is Flushed) ==> writer_next(task, event)
            == task,
        task is Writing && !(event is Written) ==> writer_next(task, event) == task,
        task is Flushing && !(event is Flushed) ==> writer_next(task, event) == task,
{
}

} // verus!
