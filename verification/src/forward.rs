//! The task that takes what the local side sends and posts it to the relay.  Both ends
//! run it.
use vstd::prelude::*;

use crate::codec;
use crate::failures;
use crate::failures::FailureRun;
use crate::http;
use crate::http::{HttpStatus, HttpStatusView};

verus! {

/// The JSON object that carries bytes to the relay.
#[derive(Debug, PartialEq, Eq)]
pub struct WriteRequest {
    /// The bytes as Base64 text.
    pub data: String,
}

impl WriteRequest {
    /// The request that carries `bytes`.
    pub fn carrying(bytes: &[u8]) -> (r: WriteRequest)
        requires
            codec::encodable(bytes@.len()),
        ensures
            r.data@ == codec::base64_text(bytes@),
            codec::base64_bytes(r.data@) == Some(bytes@),
    {
        proof {
            codec::decoding_inverts_encoding(bytes@);
        }
        WriteRequest { data: codec::encode(bytes) }
    }
}

/// Why a post failed.
#[derive(Debug, PartialEq, Eq)]
pub enum ForwardError {
    /// The request could not be sent, or no reply came, for this reason.
    Request(String),
    /// The reply reports this status, which is no success.
    Status(String),
}

/// What a [`ForwardError`] holds.
pub enum ForwardErrorView {
    Request(Seq<char>),
    Status(Seq<char>),
}

impl View for ForwardError {
    type V = ForwardErrorView;

    open spec fn view(&self) -> ForwardErrorView {
        match self {
            ForwardError::Request(reason) => ForwardErrorView::Request(reason@),
            ForwardError::Status(line) => ForwardErrorView::Status(line@),
        }
    }
}

/// What the forward task is about to do, and waits for the outcome of.
#[derive(Debug, PartialEq, Eq)]
pub enum ForwardTask {
    /// Take bytes from the local side, or end when the session is cancelled.  `failure`
    /// says why the post just made failed, if it did.
    Waiting { errors: FailureRun, failure: Option<ForwardError> },
    /// Post `request` to the relay.
    Posting { errors: FailureRun, request: WriteRequest },
    /// Ended: the session was cancelled.
    Cancelled,
    /// Ended: the local side sends no more.
    SenderGone,
    /// Ended: too many posts in a row failed, the last one for this reason.
    TooManyErrors(ForwardError),
}

/// What a [`ForwardTask`] holds; a request by its text.
pub enum ForwardTaskView {
    Waiting { errors: nat, failure: Option<ForwardErrorView> },
    Posting { errors: nat, text: Seq<char> },
    Cancelled,
    SenderGone,
    TooManyErrors(ForwardErrorView),
}

impl View for ForwardTask {
    type V = ForwardTaskView;

    open spec fn view(&self) -> ForwardTaskView {
        match self {
            ForwardTask::Waiting { errors, failure } => ForwardTaskView::Waiting {
                errors: errors@,
                failure: match failure {
                    Some(e) => Some(e@),
                    None => None,
                },
            },
            ForwardTask::Posting { errors, request } => ForwardTaskView::Posting {
                errors: errors@,
                text: request.data@,
            },
            ForwardTask::Cancelled => ForwardTaskView::Cancelled,
            ForwardTask::SenderGone => ForwardTaskView::SenderGone,
            ForwardTask::TooManyErrors(e) => ForwardTaskView::TooManyErrors(e@),
        }
    }
}

/// What can happen to the forward task.
#[derive(Debug, PartialEq, Eq)]
pub enum ForwardEvent {
    /// The session was cancelled.
    Cancelled,
    /// The local side sent these bytes.
    Data(Vec<u8>),
    /// The local side sends no more.
    Closed,
    /// The request failed before there was a reply, for this reason.
    RequestFailed(String),
    /// A reply came.
    Responded(HttpStatus),
}

/// What a [`ForwardEvent`] holds.
pub enum ForwardEventView {
    Cancelled,
    Data(Seq<u8>),
    Closed,
    RequestFailed(Seq<char>),
    Responded(HttpStatusView),
}

impl View for ForwardEvent {
    type V = ForwardEventView;

    open spec fn view(&self) -> ForwardEventView {
        match self {
            ForwardEvent::Cancelled => ForwardEventView::Cancelled,
            ForwardEvent::Data(bytes) => ForwardEventView::Data(bytes@),
            ForwardEvent::Closed => ForwardEventView::Closed,
            ForwardEvent::RequestFailed(reason) => ForwardEventView::RequestFailed(reason@),
            ForwardEvent::Responded(status) => ForwardEventView::Responded(status@),
        }
    }
}

/// Where a post that failed leads: to the next bytes, or to giving up.
pub open spec fn after_failure(errors: nat, e: ForwardErrorView) -> ForwardTaskView {
    match failures::one_more_failure(errors) {
        Some(run) => ForwardTaskView::Waiting { errors: run, failure: Some(e) },
        None => ForwardTaskView::TooManyErrors(e),
    }
}

/// What the task does after `event`.  An event that it does not wait for changes
/// nothing.
pub open spec fn forward_next(task: ForwardTaskView, event: ForwardEventView) -> ForwardTaskView {
    match (task, event) {
        (ForwardTaskView::Waiting { errors, failure }, ForwardEventView::Cancelled) => {
            ForwardTaskView::Cancelled
        },
        (ForwardTaskView::Waiting { errors, failure }, ForwardEventView::Closed) => {
            ForwardTaskView::SenderGone
        },
        (ForwardTaskView::Waiting { errors, failure }, ForwardEventView::Data(bytes)) => {
            ForwardTaskView::Posting { errors, text: codec::base64_text(bytes) }
        },
        (ForwardTaskView::Posting { errors, text }, ForwardEventView::RequestFailed(reason)) => {
            after_failure(errors, ForwardErrorView::Request(reason))
        },
        (ForwardTaskView::Posting { errors, text }, ForwardEventView::Responded(status)) => {
            if http::success_code(status.code) {
                ForwardTaskView::Waiting { errors: 0, failure: None }
            } else {
                after_failure(errors, ForwardErrorView::Status(status.line))
            }
        },
        _ => task,
    }
}

/// Whether the task has ended.  A task that ends cancels its session.
pub open spec fn forward_ended(task: ForwardTaskView) -> bool {
    task is Cancelled || task is SenderGone || task is TooManyErrors
}

impl ForwardTask {
    /// The task as it starts.
    pub fn new() -> (r: ForwardTask)
        ensures
            r@ == (ForwardTaskView::Waiting { errors: 0, failure: None }),
    {
        ForwardTask::Waiting { errors: FailureRun::none(), failure: None }
    }

    /// Whether the task has ended, so that its session is to be cancelled.
    pub fn ended(&self) -> (r: bool)
        ensures
            r == forward_ended(self@),
            r <==> self is Cancelled || self is SenderGone || self is TooManyErrors,
    {
        match self {
            ForwardTask::Cancelled => true,
            ForwardTask::SenderGone => true,
            ForwardTask::TooManyErrors(_) => true,
            _ => false,
        }
    }

    /// Leads on from a post that failed.
    fn failed(errors: FailureRun, e: ForwardError) -> (r: ForwardTask)
        ensures
            r@ == after_failure(errors@, e@),
            r matches ForwardTask::TooManyErrors(last) ==> last == e,
            r matches ForwardTask::Waiting { errors: _, failure } ==> failure == Some(e),
    {
        match errors.failed() {
            Some(run) => ForwardTask::Waiting { errors: run, failure: Some(e) },
            None => ForwardTask::TooManyErrors(e),
        }
    }

    /// Tells the task what happened.  Bytes that are to be posted must have a Base64
    /// text that fits in memory.
    pub fn step(self, event: ForwardEvent) -> (r: ForwardTask)
        requires
            self@ is Waiting ==> (event@ matches ForwardEventView::Data(bytes)
                ==> codec::encodable(bytes.len())),
        ensures
            r@ == forward_next(self@, event@),
            self is Waiting ==> (event matches ForwardEvent::Data(bytes) ==> (
            r matches ForwardTask::Posting { errors: _, request } && codec::base64_bytes(
                request.data@,
            ) == Some(bytes@))),
            self is Posting ==> (event matches ForwardEvent::Responded(status) ==> (status.code
                / 100 == 2 ==> (r matches ForwardTask::Waiting { errors, failure } && errors@ == 0
                && failure is None))),
    {
        match (self, event) {
            (ForwardTask::Waiting { errors, failure }, ForwardEvent::Cancelled) => {
                ForwardTask::Cancelled
            },
            (ForwardTask::Waiting { errors, failure }, ForwardEvent::Closed) => {
                ForwardTask::SenderGone
            },
            (ForwardTask::Waiting { errors, failure }, ForwardEvent::Data(bytes)) => {
                ForwardTask::Posting { errors, request: WriteRequest::carrying(bytes.as_slice()) }
            },
            (ForwardTask::Posting { errors, request }, ForwardEvent::RequestFailed(reason)) => {
                ForwardTask::failed(errors, ForwardError::Request(reason))
            },
            (ForwardTask::Posting { errors, request }, ForwardEvent::Responded(status)) => {
                if status.is_success() {
                    ForwardTask::Waiting { errors: FailureRun::none(), failure: None }
                } else {
                    ForwardTask::failed(errors, ForwardError::Status(status.line))
                }
            },
            (task, _) => task,
        }
    }
}

/// The task after a history of events.
pub open spec fn forward_run(events: Seq<ForwardEventView>) -> ForwardTaskView
    decreases events.len(),
{
    if events.len() == 0 {
        ForwardTaskView::Waiting { errors: 0, failure: None }
    } else {
        forward_next(forward_run(events.drop_last()), events.last())
    }
}

/// The pieces of data that the task took from the local side in a history, in order.
pub open spec fn taken_data(events: Seq<ForwardEventView>) -> Seq<Seq<u8>>
    decreases events.len(),
{
    if events.len() == 0 {
        Seq::empty()
    } else {
        let before = taken_data(events.drop_last());
        match (forward_run(events.drop_last()), events.last()) {
            (ForwardTaskView::Waiting { errors, failure }, ForwardEventView::Data(bytes)) => {
                before.push(bytes)
            },
            _ => before,
        }
    }
}

/// The texts that the task posts in a history, in order: one for each time that it comes
/// to post.
pub open spec fn posted_texts(events: Seq<ForwardEventView>) -> Seq<Seq<char>>
    decreases events.len(),
{
    if events.len() == 0 {
        Seq::empty()
    } else {
        let before = posted_texts(events.drop_last());
        match (forward_run(events.drop_last()), forward_run(events)) {
            (
                ForwardTaskView::Waiting { errors, failure },
                ForwardTaskView::Posting { errors: _, text },
            ) => before.push(text),
            _ => before,
        }
    }
}

/// The outcomes of the posts in a history, `true` for success.
pub open spec fn post_outcomes(events: Seq<ForwardEventView>) -> Seq<bool>
    decreases events.len(),
{
    if events.len() == 0 {
        Seq::empty()
    } else {
        let before = post_outcomes(events.drop_last());
        match (forward_run(events.drop_last()), events.last()) {
            (ForwardTaskView::Posting { errors, text }, ForwardEventView::RequestFailed(reason)) => {
                before.push(false)
            },
            (ForwardTaskView::Posting { errors, text }, ForwardEventView::Responded(status)) => {
                before.push(http::success_code(status.code))
            },
            _ => before,
        }
    }
}

/// Every piece of data that is taken is posted once, in its turn, as a text that decodes
/// to exactly that piece.
pub proof fn every_piece_is_posted_once(events: Seq<ForwardEventView>)
    ensures
        posted_texts(events).len() == taken_data(events).len(),
        forall|i: int|
            0 <= i < taken_data(events).len() ==> #[trigger] codec::base64_bytes(
                posted_texts(events)[i],
            ) == Some(taken_data(events)[i]),
    decreases events.len(),
{
    if events.len() > 0 {
        let before = events.drop_last();
        every_piece_is_posted_once(before);
        match (forward_run(before), events.last()) {
            (ForwardTaskView::Waiting { errors, failure }, ForwardEventView::Data(bytes)) => {
                codec::decoding_inverts_encoding(bytes);
                assert forall|i: int| 0 <= i < taken_data(events).len() implies
                    #[trigger] codec::base64_bytes(posted_texts(events)[i])
                    == Some(taken_data(events)[i]) by {
                    if i < taken_data(before).len() {
                        assert(posted_texts(events)[i] == posted_texts(before)[i]);
                        assert(taken_data(events)[i] == taken_data(before)[i]);
                    }
                }
            },
            _ => {},
        }
    }
}

/// Forwarding is given up exactly when as many posts in a row have failed as the limit.
/// Until then the task counts the failures since the last success.
pub proof fn forwarding_is_given_up_at_the_limit(events: Seq<ForwardEventView>)
    ensures
        forward_run(events) is TooManyErrors <==> failures::has_failure_streak(
            post_outcomes(events),
        ),
        match forward_run(events) {
            ForwardTaskView::Waiting { errors, failure } => errors == failures::trailing_failures(
                post_outcomes(events),
            ),
            ForwardTaskView::Posting { errors, text } => errors == failures::trailing_failures(
                post_outcomes(events),
            ),
            _ => true,
        },
    decreases events.len(),
{
    if events.len() > 0 {
        let before = events.drop_last();
        forwarding_is_given_up_at_the_limit(before);
        let past = post_outcomes(before);
        assert(past.push(false).drop_last() =~= past);
        if !failures::has_failure_streak(past) {
            failures::streak_appears_at_the_limit(past, true);
            failures::streak_appears_at_the_limit(past, false);
        }
    }
}

/// A task that has ended stays as it is, whatever happens.
pub proof fn ended_forwarding_stays_ended(task: ForwardTaskView, event: ForwardEventView)
    requires
        forward_ended(task),
    ensures
        forward_next(task, event) == task,
{
}

/// Cancelling the session ends the task when it next waits for data.
pub proof fn cancellation_ends_forwarding(task: ForwardTaskView)
    requires
        task is Waiting,
    ensures
        forward_ended(forward_next(task, ForwardEventView::Cancelled)),
{
}

/// Why the post that is under way fails with this event, if it does: no reply, or a status
/// outside the two hundreds.
pub open spec fn post_failure(event: ForwardEventView) -> Option<ForwardErrorView> {
    match event {
        ForwardEventView::RequestFailed(reason) => Some(ForwardErrorView::Request(reason)),
        ForwardEventView::Responded(status) => if status.code / 100 != 2 {
            Some(ForwardErrorView::Status(status.line))
        } else {
            None
        },
        _ => None,
    }
}

/// Bytes that the task takes are posted next, as a text that decodes to them, whatever they
/// are, and the failures so far are kept.
pub proof fn taken_bytes_are_posted_next(
    errors: nat,
    failure: Option<ForwardErrorView>,
    bytes: Seq<u8>,
)
    ensures
        forward_next(
            ForwardTaskView::Waiting { errors, failure },
            ForwardEventView::Data(bytes),
        ) matches ForwardTaskView::Posting { errors: kept, text } && kept == errors
            && codec::base64_bytes(text) == Some(bytes),
{
    codec::decoding_inverts_encoding(bytes);
}

/// A post that is answered leads back to waiting for data, whatever was posted: with no
/// failures to its name where the answer is in the two hundreds, and with one more where it
/// is not or none came, short of the tenth in a row.  The tenth ends the task, with its
/// reason.
pub proof fn answered_posts_lead_back_to_waiting(
    errors: nat,
    text: Seq<char>,
    event: ForwardEventView,
)
    requires
        event is Responded || event is RequestFailed,
    ensures
        ({
            let next = forward_next(ForwardTaskView::Posting { errors, text }, event);
            match post_failure(event) {
                None => next == (ForwardTaskView::Waiting { errors: 0, failure: None }),
                Some(e) => if errors + 1 < 10 {
                    next == (ForwardTaskView::Waiting { errors: errors + 1, failure: Some(e) })
                } else {
                    next == ForwardTaskView::TooManyErrors(e)
                },
            }
        }),
{
}

/// An event that the task does not wait for changes nothing: answers while it waits for data,
/// anything but an answer while it posts, and everything once it has ended.
pub proof fn forwarding_ignores_other_events(task: ForwardTaskView, event: ForwardEventView)
    requires
        task is Waiting ==> event is Responded || event is RequestFailed,
        task is Posting ==> !(event is Responded || event is RequestFailed),
    ensures
        forward_next(task, event) == task,
{
}

/// Whether the task was told with the event at `i`, while it waited for data, that the session
/// is cancelled.
pub open spec fn cancelled_at(events: Seq<ForwardEventView>, i: int) -> bool {
    &&& 0 <= i < events.len()
    &&& forward_run(events.take(i)) is Waiting
    &&& events[i] == ForwardEventView::Cancelled
}

/// Whether the task was told with the event at `i`, while it waited for data, that none is to
/// come.
pub open spec fn closed_at(events: Seq<ForwardEventView>, i: int) -> bool {
    &&& 0 <= i < events.len()
    &&& forward_run(events.take(i)) is Waiting
    &&& events[i] == ForwardEventView::Closed
}

/// Forwarding ends only for its reasons.  In every history, the task is cancelled, or its
/// sender gone, if and only if it was told so while it waited for data.  A history with
/// neither, and without ten failed posts in a row, leaves it running.
pub proof fn forwarding_ends_only_for_its_reasons(events: Seq<ForwardEventView>)
    ensures
        forward_run(events) is Cancelled <==> exists|i: int| cancelled_at(events, i),
        forward_run(events) is SenderGone <==> exists|i: int| closed_at(events, i),
        (forall|i: int| !cancelled_at(events, i)) && (forall|i: int| !closed_at(events, i))
            && !failures::has_failure_streak(post_outcomes(events)) ==> !forward_ended(
            forward_run(events),
        ),
    decreases events.len(),
{
    forwarding_is_given_up_at_the_limit(events);
    if events.len() > 0 {
        let last = events.len() - 1;
        let before = events.drop_last();
        forwarding_ends_only_for_its_reasons(before);
        assert(events.take(last) =~= before);
        assert forall|i: int| 0 <= i < last implies (#[trigger] cancelled_at(events, i)
            <==> cancelled_at(before, i)) && (closed_at(events, i) <==> closed_at(before, i)) by {
            assert(events.take(i) =~= before.take(i));
        }
        if exists|i: int| cancelled_at(before, i) {
            let i = choose|i: int| cancelled_at(before, i);
            assert(cancelled_at(events, i));
        }
        if exists|i: int| closed_at(before, i) {
            let i = choose|i: int| closed_at(before, i);
            assert(cancelled_at(events, i) <==> cancelled_at(before, i));
            assert(closed_at(events, i));
        }
        if exists|i: int| cancelled_at(events, i) {
            let i = choose|i: int| cancelled_at(events, i);
            if i < last {
                assert(cancelled_at(before, i));
            }
        }
        if exists|i: int| closed_at(events, i) {
            let i = choose|i: int| closed_at(events, i);
            if i < last {
                assert(cancelled_at(events, i) <==> cancelled_at(before, i));
                assert(closed_at(before, i));
            }
        }
        assert(cancelled_at(events, last) ==> forward_run(events) is Cancelled);
        assert(closed_at(events, last) ==> forward_run(events) is SenderGone);
        if forward_run(events) is Cancelled && !(forward_run(before) is Cancelled) {
            assert(cancelled_at(events, last));
        }
        if forward_run(events) is SenderGone && !(forward_run(before) is SenderGone) {
            assert(closed_at(events, last));
        }
    } else {
        assert(forall|i: int| !cancelled_at(events, i));
        assert(forall|i: int| !closed_at(events, i));
    }
}

/// The task has ended if and only if it neither waits for data nor posts.
pub proof fn ended_forwarding_neither_waits_nor_posts(task: ForwardTaskView)
    ensures
        forward_ended(task) <==> !(task is Waiting) && !(task is Posting),
{
}

} // verus!
