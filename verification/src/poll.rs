//! The task that polls the relay and hands what it gets to the local side.
//!
//! Both ends run it; they differ in what a reply holds (see `poll_once` of each end).
use vstd::prelude::*;

use crate::failures;
use crate::failures::FailureRun;
use crate::http;
use crate::http::{HttpStatus, HttpStatusView};

verus! {

/// Why one poll failed.
#[derive(Debug, PartialEq, Eq)]
pub enum PollError {
    /// The request could not be sent, or no reply came.
    Request,
    /// The reply reports this status, which is no success.
    Status(String),
    /// The reply is not the JSON that is asked for.
    Body,
    /// The reply holds text that is not Base64.
    Base64,
}

/// What a [`PollError`] holds.
pub enum PollErrorView {
    Request,
    Status(Seq<char>),
    Body,
    Base64,
}

impl View for PollError {
    type V = PollErrorView;

    open spec fn view(&self) -> PollErrorView {
        match self {
            PollError::Request => PollErrorView::Request,
            PollError::Status(line) => PollErrorView::Status(line@),
            PollError::Body => PollErrorView::Body,
            PollError::Base64 => PollErrorView::Base64,
        }
    }
}

/// The contents of a list of chunks.
pub open spec fn contents(chunks: Seq<Vec<u8>>) -> Seq<Seq<u8>> {
    Seq::new(chunks.len(), |i: int| chunks[i]@)
}

/// What the poll task is about to do, and waits for the outcome of.
#[derive(Debug, PartialEq, Eq)]
pub enum PollTask {
    /// Look whether the session is cancelled.
    Idle { errors: FailureRun },
    /// Send a poll request.
    Polling { errors: FailureRun },
    /// Read the body of a successful reply.
    ReadingBody { errors: FailureRun },
    /// Hand `chunk` to the local side, and then those of `rest`.
    Delivering { chunk: Vec<u8>, rest: Vec<Vec<u8>> },
    /// Sleep for the poll interval, or until the session is cancelled.  `failure` says
    /// why the poll just made failed, if it did.
    Pausing { errors: FailureRun, failure: Option<PollError> },
    /// Ended: the session was cancelled.
    Cancelled,
    /// Ended: the local side takes no more.
    ReceiverGone,
    /// Ended: too many polls in a row failed, the last one for this reason.
    TooManyErrors(PollError),
}

/// What a [`PollTask`] holds.
pub enum PollTaskView {
    Idle { errors: nat },
    Polling { errors: nat },
    ReadingBody { errors: nat },
    Delivering { chunk: Seq<u8>, rest: Seq<Seq<u8>> },
    Pausing { errors: nat, failure: Option<PollErrorView> },
    Cancelled,
    ReceiverGone,
    TooManyErrors(PollErrorView),
}

impl View for PollTask {
    type V = PollTaskView;

    open spec fn view(&self) -> PollTaskView {
        match self {
            PollTask::Idle { errors } => PollTaskView::Idle { errors: errors@ },
            PollTask::Polling { errors } => PollTaskView::Polling { errors: errors@ },
            PollTask::ReadingBody { errors } => PollTaskView::ReadingBody { errors: errors@ },
            PollTask::Delivering { chunk, rest } => PollTaskView::Delivering {
                chunk: chunk@,
                rest: contents(rest@),
            },
            PollTask::Pausing { errors, failure } => PollTaskView::Pausing {
                errors: errors@,
                failure: match failure {
                    Some(e) => Some(e@),
                    None => None,
                },
            },
            PollTask::Cancelled => PollTaskView::Cancelled,
            PollTask::ReceiverGone => PollTaskView::ReceiverGone,
            PollTask::TooManyErrors(e) => PollTaskView::TooManyErrors(e@),
        }
    }
}

/// What can happen to the poll task.
#[derive(Debug, PartialEq, Eq)]
pub enum PollEvent {
    /// Whether the session is cancelled.
    CancelFlag(bool),
    /// The request failed before there was a reply.
    RequestFailed,
    /// A reply came.
    Responded(HttpStatus),
    /// What the body of the reply gives: the chunks in it, or why there are none.
    Body(Result<Vec<Vec<u8>>, PollError>),
    /// Whether the local side took the chunk.
    Delivered(bool),
    /// The poll interval is over.
    Slept,
    /// The session was cancelled during the pause.
    Cancelled,
}

/// What a [`PollEvent`] holds.
pub enum PollEventView {
    CancelFlag(bool),
    RequestFailed,
    Responded(HttpStatusView),
    Body(Result<Seq<Seq<u8>>, PollErrorView>),
    Delivered(bool),
    Slept,
    Cancelled,
}

impl View for PollEvent {
    type V = PollEventView;

    open spec fn view(&self) -> PollEventView {
        match self {
            PollEvent::CancelFlag(b) => PollEventView::CancelFlag(*b),
            PollEvent::RequestFailed => PollEventView::RequestFailed,
            PollEvent::Responded(status) => PollEventView::Responded(status@),
            PollEvent::Body(Ok(chunks)) => PollEventView::Body(Ok(contents(chunks@))),
            PollEvent::Body(Err(e)) => PollEventView::Body(Err(e@)),
            PollEvent::Delivered(b) => PollEventView::Delivered(*b),
            PollEvent::Slept => PollEventView::Slept,
            PollEvent::Cancelled => PollEventView::Cancelled,
        }
    }
}

/// Where a poll that failed leads: to the pause, or to giving up.
pub open spec fn after_failure(errors: nat, e: PollErrorView) -> PollTaskView {
    match failures::one_more_failure(errors) {
        Some(run) => PollTaskView::Pausing { errors: run, failure: Some(e) },
        None => PollTaskView::TooManyErrors(e),
    }
}

/// Where a successful poll leads while `chunks` are still to be handed on.
pub open spec fn after_success(chunks: Seq<Seq<u8>>) -> PollTaskView {
    if chunks.len() == 0 {
        PollTaskView::Pausing { errors: 0, failure: None }
    } else {
        PollTaskView::Delivering { chunk: chunks[0], rest: chunks.drop_first() }
    }
}

/// What the task does after `event`.  An event that it does not wait for changes
/// nothing.
pub open spec fn poll_next(task: PollTaskView, event: PollEventView) -> PollTaskView {
    match (task, event) {
        (PollTaskView::Idle { errors }, PollEventView::CancelFlag(cancelled)) => {
            if cancelled {
                PollTaskView::Cancelled
            } else {
                PollTaskView::Polling { errors }
            }
        },
        (PollTaskView::Polling { errors }, PollEventView::RequestFailed) => after_failure(
            errors,
            PollErrorView::Request,
        ),
        (PollTaskView::Polling { errors }, PollEventView::Responded(status)) => {
            if http::success_code(status.code) {
                PollTaskView::ReadingBody { errors }
            } else {
                after_failure(errors, PollErrorView::Status(status.line))
            }
        },
        (PollTaskView::ReadingBody { errors }, PollEventView::Body(body)) => match body {
            Ok(chunks) => after_success(chunks),
            Err(e) => after_failure(errors, e),
        },
        (PollTaskView::Delivering { chunk, rest }, PollEventView::Delivered(taken)) => {
            if taken {
                after_success(rest)
            } else {
                PollTaskView::ReceiverGone
            }
        },
        (PollTaskView::Pausing { errors, failure }, PollEventView::Slept) => PollTaskView::Idle {
            errors,
        },
        (PollTaskView::Pausing { errors, failure }, PollEventView::Cancelled) => {
            PollTaskView::Cancelled
        },
        _ => task,
    }
}

/// Whether the task has ended.  A task that ends cancels its session.
pub open spec fn poll_ended(task: PollTaskView) -> bool {
    task is Cancelled || task is ReceiverGone || task is TooManyErrors
}

impl PollTask {
    /// The task as it starts.
    pub fn new() -> (r: PollTask)
        ensures
            r@ == (PollTaskView::Idle { errors: 0 }),
    {
        PollTask::Idle { errors: FailureRun::none() }
    }

    /// Whether the task has ended, so that its session is to be cancelled.
    pub fn ended(&self) -> (r: bool)
        ensures
            r == poll_ended(self@),
            r <==> self is Cancelled || self is ReceiverGone || self is TooManyErrors,
    {
        match self {
            PollTask::Cancelled => true,
            PollTask::ReceiverGone => true,
            PollTask::TooManyErrors(_) => true,
            _ => false,
        }
    }

    /// Leads on from a poll that failed.
    fn failed(errors: FailureRun, e: PollError) -> (r: PollTask)
        ensures
            r@ == after_failure(errors@, e@),
            r matches PollTask::TooManyErrors(last) ==> last == e,
            r matches PollTask::Pausing { errors: _, failure } ==> failure == Some(e),
    {
        match errors.failed() {
            Some(run) => PollTask::Pausing { errors: run, failure: Some(e) },
            None => PollTask::TooManyErrors(e),
        }
    }

    /// Leads on from a successful poll while `chunks` are still to be handed on.
    fn deliver(chunks: Vec<Vec<u8>>) -> (r: PollTask)
        ensures
            r@ == after_success(contents(chunks@)),
            chunks@.len() > 0 ==> (r matches PollTask::Delivering { chunk, rest } && chunk
                == chunks@[0] && rest@ == chunks@.drop_first()),
    {
        let mut chunks = chunks;
        if chunks.len() == 0 {
            PollTask::Pausing { errors: FailureRun::none(), failure: None }
        } else {
            let ghost all = chunks@;
            let chunk = chunks.remove(0);
            proof {
                assert(chunks@ =~= all.drop_first());
                assert(contents(chunks@) =~= contents(all).drop_first());
            }
            PollTask::Delivering { chunk, rest: chunks }
        }
    }

    /// Tells the task what happened.
    pub fn step(self, event: PollEvent) -> (r: PollTask)
        ensures
            r@ == poll_next(self@, event@),
            self is Polling ==> (event matches PollEvent::Responded(status) ==> (status.code / 100
                == 2 <==> r is ReadingBody)),
            self is Polling ==> (event matches PollEvent::Responded(status) ==> (
            r matches PollTask::TooManyErrors(e) ==> e == PollError::Status(status.line))),
            self is ReadingBody ==> (event matches PollEvent::Body(Ok(chunks)) ==> (chunks@.len()
                > 0 ==> (r matches PollTask::Delivering { chunk, rest } && chunk == chunks@[0]
                && rest@ == chunks@.drop_first()))),
            self matches PollTask::Delivering { chunk: _, rest } ==> (
            event == PollEvent::Delivered(true) ==> (rest@.len() > 0 ==> (
            r matches PollTask::Delivering { chunk: next, rest: others } && next == rest@[0]
                && others@ == rest@.drop_first()))),
    {
        match (self, event) {
            (PollTask::Idle { errors }, PollEvent::CancelFlag(cancelled)) => {
                if cancelled {
                    PollTask::Cancelled
                } else {
                    PollTask::Polling { errors }
                }
            },
            (PollTask::Polling { errors }, PollEvent::RequestFailed) => {
                PollTask::failed(errors, PollError::Request)
            },
            (PollTask::Polling { errors }, PollEvent::Responded(status)) => {
                if status.is_success() {
                    PollTask::ReadingBody { errors }
                } else {
                    PollTask::failed(errors, PollError::Status(status.line))
                }
            },
            (PollTask::ReadingBody { errors }, PollEvent::Body(body)) => match body {
                Ok(chunks) => PollTask::deliver(chunks),
                Err(e) => PollTask::failed(errors, e),
            },
            (PollTask::Delivering { chunk, rest }, PollEvent::Delivered(taken)) => {
                if taken {
                    PollTask::deliver(rest)
                } else {
                    PollTask::ReceiverGone
                }
            },
            (PollTask::Pausing { errors, failure }, PollEvent::Slept) => PollTask::Idle { errors },
            (PollTask::Pausing { errors, failure }, PollEvent::Cancelled) => PollTask::Cancelled,
            (task, _) => task,
        }
    }
}

/// The task after a history of events.
pub open spec fn poll_run(events: Seq<PollEventView>) -> PollTaskView
    decreases events.len(),
{
    if events.len() == 0 {
        PollTaskView::Idle { errors: 0 }
    } else {
        poll_next(poll_run(events.drop_last()), events.last())
    }
}

/// The chunks of all successful polls in a history, in order.
pub open spec fn polled_chunks(events: Seq<PollEventView>) -> Seq<Seq<u8>>
    decreases events.len(),
{
    if events.len() == 0 {
        Seq::empty()
    } else {
        let before = polled_chunks(events.drop_last());
        match (poll_run(events.drop_last()), events.last()) {
            (PollTaskView::ReadingBody { errors }, PollEventView::Body(Ok(chunks))) => before
                + chunks,
            _ => before,
        }
    }
}

/// What the bodies of the successful polls in a history give, one list of chunks for each.
pub open spec fn good_bodies(events: Seq<PollEventView>) -> Seq<Seq<Seq<u8>>>
    decreases events.len(),
{
    if events.len() == 0 {
        Seq::empty()
    } else {
        let before = good_bodies(events.drop_last());
        match (poll_run(events.drop_last()), events.last()) {
            (PollTaskView::ReadingBody { errors }, PollEventView::Body(Ok(chunks))) => {
                before.push(chunks)
            },
            _ => before,
        }
    }
}

/// The chunks of the successful polls are those of their bodies, one after another.
pub proof fn polled_chunks_are_those_of_the_bodies(events: Seq<PollEventView>)
    ensures
        polled_chunks(events) == good_bodies(events).flatten(),
    decreases events.len(),
{
    if events.len() > 0 {
        let before = events.drop_last();
        polled_chunks_are_those_of_the_bodies(before);
        match (poll_run(before), events.last()) {
            (PollTaskView::ReadingBody { errors }, PollEventView::Body(Ok(chunks))) => {
                good_bodies(before).lemma_flatten_push(chunks);
            },
            _ => {},
        }
    }
}

/// The chunks that the local side took in a history, in order.
pub open spec fn delivered_chunks(events: Seq<PollEventView>) -> Seq<Seq<u8>>
    decreases events.len(),
{
    if events.len() == 0 {
        Seq::empty()
    } else {
        let before = delivered_chunks(events.drop_last());
        match (poll_run(events.drop_last()), events.last()) {
            (PollTaskView::Delivering { chunk, rest }, PollEventView::Delivered(true)) => {
                before.push(chunk)
            },
            _ => before,
        }
    }
}

/// The chunks that are still to be handed on.
pub open spec fn pending_chunks(task: PollTaskView) -> Seq<Seq<u8>> {
    match task {
        PollTaskView::Delivering { chunk, rest } => seq![chunk] + rest,
        _ => Seq::empty(),
    }
}

/// The outcomes of the polls in a history, `true` for success.
pub open spec fn poll_outcomes(events: Seq<PollEventView>) -> Seq<bool>
    decreases events.len(),
{
    if events.len() == 0 {
        Seq::empty()
    } else {
        let before = poll_outcomes(events.drop_last());
        match (poll_run(events.drop_last()), events.last()) {
            (PollTaskView::Polling { errors }, PollEventView::RequestFailed) => before.push(false),
            (PollTaskView::Polling { errors }, PollEventView::Responded(status)) => {
                if http::success_code(status.code) {
                    before
                } else {
                    before.push(false)
                }
            },
            (PollTaskView::ReadingBody { errors }, PollEventView::Body(body)) => before.push(
                body is Ok,
            ),
            _ => before,
        }
    }
}

/// Whatever happens, the local side gets the chunks of the successful polls in their
/// order, each once.  None is missing but those still to be handed on, unless the local
/// side refused one; then none comes after the refused one.
pub proof fn polled_chunks_arrive_in_order(events: Seq<PollEventView>)
    ensures
        delivered_chunks(events).is_prefix_of(polled_chunks(events)),
        !(poll_run(events) is ReceiverGone) ==> polled_chunks(events) == delivered_chunks(events)
            + pending_chunks(poll_run(events)),
    decreases events.len(),
{
    if events.len() > 0 {
        let before = events.drop_last();
        polled_chunks_arrive_in_order(before);
        match (poll_run(before), events.last()) {
            (PollTaskView::ReadingBody { errors }, PollEventView::Body(Ok(chunks))) => {
                assert(pending_chunks(after_success(chunks)) =~= chunks);
            },
            (PollTaskView::Delivering { chunk, rest }, PollEventView::Delivered(true)) => {
                assert(pending_chunks(after_success(rest)) =~= rest);
                assert(delivered_chunks(before) + (seq![chunk] + rest) =~= delivered_chunks(
                    before,
                ).push(chunk) + rest);
            },
            _ => {},
        }
    }
}

/// Polling is given up exactly when as many polls in a row have failed as the limit.
/// Until then the task counts the failures since the last success.
pub proof fn polling_is_given_up_at_the_limit(events: Seq<PollEventView>)
    ensures
        poll_run(events) is TooManyErrors <==> failures::has_failure_streak(poll_outcomes(events)),
        match poll_run(events) {
            PollTaskView::Idle { errors } => errors == failures::trailing_failures(
                poll_outcomes(events),
            ),
            PollTaskView::Polling { errors } => errors == failures::trailing_failures(
                poll_outcomes(events),
            ),
            PollTaskView::ReadingBody { errors } => errors == failures::trailing_failures(
                poll_outcomes(events),
            ),
            PollTaskView::Delivering { chunk, rest } => failures::trailing_failures(
                poll_outcomes(events),
            ) == 0,
            PollTaskView::Pausing { errors, failure } => errors == failures::trailing_failures(
                poll_outcomes(events),
            ),
            _ => true,
        },
    decreases events.len(),
{
    if events.len() > 0 {
        let before = events.drop_last();
        polling_is_given_up_at_the_limit(before);
        let past = poll_outcomes(before);
        assert(past.push(false).drop_last() =~= past);
        if !failures::has_failure_streak(past) {
            failures::streak_appears_at_the_limit(past, true);
            failures::streak_appears_at_the_limit(past, false);
        }
    }
}

/// A task that has ended stays as it is, whatever happens.
pub proof fn ended_polling_stays_ended(task: PollTaskView, event: PollEventView)
    requires
        poll_ended(task),
    ensures
        poll_next(task, event) == task,
{
}

/// Cancelling the session ends the task at its next pause, or where it looks.
pub proof fn cancellation_ends_polling(task: PollTaskView)
    ensures
        task is Idle ==> poll_ended(poll_next(task, PollEventView::CancelFlag(true))),
        task is Pausing ==> poll_ended(poll_next(task, PollEventView::Cancelled)),
{
}

/// The contents of a list of chunks are its chunks, as many and each at its place.
pub proof fn contents_are_the_chunks(chunks: Seq<Vec<u8>>)
    ensures
        contents(chunks).len() == chunks.len(),
        forall|i: int| 0 <= i < chunks.len() ==> #[trigger] contents(chunks)[i] == chunks[i]@,
{
}

/// Why the poll that is under way fails with this event, if it does: no reply, a status
/// outside the two hundreds, or a body from which nothing can be had.
pub open spec fn poll_failure(task: PollTaskView, event: PollEventView) -> Option<PollErrorView> {
    if task is Polling && event is RequestFailed {
        Some(PollErrorView::Request)
    } else {
        match event {
            PollEventView::Responded(status) => if task is Polling && status.code / 100 != 2 {
                Some(PollErrorView::Status(status.line))
            } else {
                None
            },
            PollEventView::Body(Err(e)) => if task is ReadingBody {
                Some(e)
            } else {
                None
            },
            _ => None,
        }
    }
}

/// The failures in a row that a task carries while it polls or pauses.
pub open spec fn carried_errors(task: PollTaskView) -> nat {
    match task {
        PollTaskView::Idle { errors } => errors,
        PollTaskView::Polling { errors } => errors,
        PollTaskView::ReadingBody { errors } => errors,
        PollTaskView::Pausing { errors, failure } => errors,
        _ => 0,
    }
}

/// A poll that fails is noted with its reason: as one more failure, before a pause, or, where
/// it is the tenth in a row, as the end of the task.
pub proof fn failed_polls_are_noted(task: PollTaskView, event: PollEventView, e: PollErrorView)
    requires
        poll_failure(task, event) == Some(e),
    ensures
        carried_errors(task) + 1 < 10 ==> poll_next(task, event) == (PollTaskView::Pausing {
            errors: carried_errors(task) + 1,
            failure: Some(e),
        }),
        carried_errors(task) + 1 >= 10 ==> poll_next(task, event) == PollTaskView::TooManyErrors(
            e,
        ),
{
}

/// A reply in the two hundreds is read, and what its body gives is handed on: its first chunk
/// at once and all the others after it, in order, or, where it has none, nothing before a
/// pause.  Each chunk that is taken makes way for the next one, whatever it holds; after the
/// last one comes the pause.
pub proof fn successful_polls_hand_on_every_chunk(
    task: PollTaskView,
    status: HttpStatusView,
    chunks: Seq<Seq<u8>>,
)
    ensures
        task is Polling && status.code / 100 == 2 ==> poll_next(
            task,
            PollEventView::Responded(status),
        ) == (PollTaskView::ReadingBody { errors: carried_errors(task) }),
        task is ReadingBody ==> {
            let next = poll_next(task, PollEventView::Body(Ok(chunks)));
            &&& pending_chunks(next) == chunks
            &&& next is Delivering <==> chunks.len() > 0
            &&& chunks.len() == 0 ==> next == (PollTaskView::Pausing { errors: 0, failure: None })
        },
        task is Delivering ==> {
            let next = poll_next(task, PollEventView::Delivered(true));
            &&& pending_chunks(next) == pending_chunks(task).drop_first()
            &&& next is Delivering <==> pending_chunks(task).len() > 1
            &&& pending_chunks(task).len() == 1 ==> next == (PollTaskView::Pausing {
                errors: 0,
                failure: None,
            })
        },
{
    if task is ReadingBody {
        assert(pending_chunks(after_success(chunks)) =~= chunks);
    }
    if let PollTaskView::Delivering { chunk, rest } = task {
        assert(pending_chunks(task).drop_first() =~= rest);
        assert(pending_chunks(after_success(rest)) =~= rest);
    }
}

/// After a pause the task looks whether the session is cancelled and then polls again, with
/// the failures that it carries.
pub proof fn pauses_lead_to_the_next_poll(errors: nat, failure: Option<PollErrorView>)
    ensures
        poll_next(PollTaskView::Pausing { errors, failure }, PollEventView::Slept) == (
        PollTaskView::Idle { errors }),
        poll_next(PollTaskView::Idle { errors }, PollEventView::CancelFlag(false)) == (
        PollTaskView::Polling { errors }),
{
}

/// Whether the task waits for events of this form.
pub open spec fn poll_waits_for(task: PollTaskView, event: PollEventView) -> bool {
    match event {
        PollEventView::CancelFlag(_) => task is Idle,
        PollEventView::RequestFailed => task is Polling,
        PollEventView::Responded(_) => task is Polling,
        PollEventView::Body(_) => task is ReadingBody,
        PollEventView::Delivered(_) => task is Delivering,
        PollEventView::Slept => task is Pausing,
        PollEventView::Cancelled => task is Pausing,
    }
}

/// An event that the task does not wait for changes nothing.
pub proof fn polling_ignores_other_events(task: PollTaskView, event: PollEventView)
    requires
        !poll_waits_for(task, event),
    ensures
        poll_next(task, event) == task,
{
}

/// Whether the local side refused a chunk with the event at `i`.
pub open spec fn refused_at(events: Seq<PollEventView>, i: int) -> bool {
    &&& 0 <= i < events.len()
    &&& poll_run(events.take(i)) is Delivering
    &&& events[i] == PollEventView::Delivered(false)
}

/// Whether the task was told of the cancellation with the event at `i`, where it looks for it.
pub open spec fn cancelled_at(events: Seq<PollEventView>, i: int) -> bool {
    &&& 0 <= i < events.len()
    &&& {
        ||| poll_run(events.take(i)) is Idle && events[i] == PollEventView::CancelFlag(true)
        ||| poll_run(events.take(i)) is Pausing && events[i] == PollEventView::Cancelled
    }
}

/// Polling ends only for its reasons.  In every history, the local side is gone if and only
/// if it refused a chunk, and the task is cancelled if and only if it was told so where it
/// looks.  A history with neither, and without ten failed polls in a row, leaves it running.
pub proof fn polling_ends_only_for_its_reasons(events: Seq<PollEventView>)
    ensures
        poll_run(events) is ReceiverGone <==> exists|i: int| refused_at(events, i),
        poll_run(events) is Cancelled <==> exists|i: int| cancelled_at(events, i),
        (forall|i: int| !refused_at(events, i)) && (forall|i: int| !cancelled_at(events, i))
            && !failures::has_failure_streak(poll_outcomes(events)) ==> !poll_ended(
            poll_run(events),
        ),
    decreases events.len(),
{
    polling_is_given_up_at_the_limit(events);
    if events.len() > 0 {
        let last = events.len() - 1;
        let before = events.drop_last();
        polling_ends_only_for_its_reasons(before);
        assert(events.take(last) =~= before);
        assert forall|i: int| 0 <= i < last implies (#[trigger] refused_at(events, i)
            <==> refused_at(before, i)) && (cancelled_at(events, i) <==> cancelled_at(
            before,
            i,
        )) by {
            assert(events.take(i) =~= before.take(i));
        }
        if exists|i: int| refused_at(before, i) {
            let i = choose|i: int| refused_at(before, i);
            assert(refused_at(events, i));
        }
        if exists|i: int| cancelled_at(before, i) {
            let i = choose|i: int| cancelled_at(before, i);
            assert(refused_at(events, i) <==> refused_at(before, i));
            assert(cancelled_at(events, i));
        }
        if exists|i: int| refused_at(events, i) {
            let i = choose|i: int| refused_at(events, i);
            if i < last {
                assert(refused_at(before, i));
            }
        }
        if exists|i: int| cancelled_at(events, i) {
            let i = choose|i: int| cancelled_at(events, i);
            if i < last {
                assert(refused_at(events, i) <==> refused_at(before, i));
                assert(cancelled_at(before, i));
            }
        }
        assert(refused_at(events, last) ==> poll_run(events) is ReceiverGone);
        assert(cancelled_at(events, last) ==> poll_run(events) is Cancelled);
        if poll_run(events) is ReceiverGone && !(poll_run(before) is ReceiverGone) {
            assert(refused_at(events, last));
        }
        if poll_run(events) is Cancelled && !(poll_run(before) is Cancelled) {
            assert(cancelled_at(events, last));
        }
    } else {
        assert(forall|i: int| !refused_at(events, i));
        assert(forall|i: int| !cancelled_at(events, i));
    }
}

/// The task has ended if and only if there is no event that it waits for.
pub proof fn ended_polling_waits_for_nothing(task: PollTaskView)
    ensures
        poll_ended(task) <==> !poll_waits_for(task, PollEventView::CancelFlag(true))
            && !poll_waits_for(task, PollEventView::RequestFailed) && !poll_waits_for(
            task,
            PollEventView::Body(Err(PollErrorView::Body)),
        ) && !poll_waits_for(task, PollEventView::Delivered(true)) && !poll_waits_for(
            task,
            PollEventView::Slept,
        ),
{
}

} // verus!
