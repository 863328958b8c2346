use http_bridge::failures::{FailureRun, MAX_CONSECUTIVE_ERRORS};
use http_bridge::forward::{ForwardError, ForwardEvent, ForwardTask, WriteRequest};
use http_bridge::http::HttpStatus;
use http_bridge::poll::{PollError, PollEvent, PollTask};
use http_bridge::pump::{
    filled, ReaderEvent, ReaderStop, ReaderTask, WriterEvent, WriterStop, WriterTask,
};
use http_bridge::tasks::{TaskGroup, WaitFor};

fn ok() -> HttpStatus {
    HttpStatus { code: 200, line: "200 OK".to_string() }
}

fn not_found() -> HttpStatus {
    HttpStatus { code: 404, line: "404 Not Found".to_string() }
}

/// A task that has come to send its poll request.
fn about_to_poll(task: PollTask) -> PollTask {
    let task = match task {
        PollTask::Pausing { .. } => task.step(PollEvent::Slept),
        other => other,
    };
    task.step(PollEvent::CancelFlag(false))
}

fn errors_of(task: &PollTask) -> u32 {
    match task {
        PollTask::Idle { errors }
        | PollTask::Polling { errors }
        | PollTask::ReadingBody { errors }
        | PollTask::Pausing { errors, .. } => errors.count(),
        _ => panic!("no count in {:?}", task),
    }
}

#[test]
fn failures_are_counted_up_to_the_limit() {
    let mut run = FailureRun::none();
    for n in 1..MAX_CONSECUTIVE_ERRORS {
        run = run.failed().unwrap();
        assert_eq!(run.count(), n);
    }
    assert_eq!(run.failed(), None);
}

#[test]
fn success_statuses_are_two_hundred_to_two_ninety_nine() {
    for code in 100..1000u16 {
        let status = HttpStatus { code, line: String::new() };
        assert_eq!(status.is_success(), code / 100 == 2);
    }
}

#[test]
fn polled_chunks_are_delivered_in_order() {
    let task = about_to_poll(PollTask::new()).step(PollEvent::Responded(ok()));
    let mut task = task.step(PollEvent::Body(Ok(vec![vec![1], vec![2, 3], vec![4]])));
    let mut got = Vec::new();
    while let PollTask::Delivering { chunk, .. } = &task {
        got.push(chunk.clone());
        task = task.step(PollEvent::Delivered(true));
    }
    assert_eq!(got, vec![vec![1], vec![2, 3], vec![4]]);
    assert_eq!(task, PollTask::Pausing { errors: FailureRun::none(), failure: None });
}

#[test]
fn empty_poll_pauses() {
    let task = about_to_poll(PollTask::new()).step(PollEvent::Responded(ok()));
    let task = task.step(PollEvent::Body(Ok(vec![])));
    assert_eq!(task, PollTask::Pausing { errors: FailureRun::none(), failure: None });
    assert_eq!(task.step(PollEvent::Slept), PollTask::new());
}

#[test]
fn refused_chunk_ends_polling() {
    let task = about_to_poll(PollTask::new()).step(PollEvent::Responded(ok()));
    let task = task.step(PollEvent::Body(Ok(vec![vec![1], vec![2]])));
    let task = task.step(PollEvent::Delivered(false));
    assert_eq!(task, PollTask::ReceiverGone);
    assert!(task.ended());
    assert_eq!(task.step(PollEvent::Delivered(true)), PollTask::ReceiverGone);
}

#[test]
fn polling_is_given_up_at_the_tenth_failure_in_a_row() {
    let mut task = PollTask::new();
    for n in 1..=9 {
        task = about_to_poll(task).step(PollEvent::RequestFailed);
        assert_eq!(errors_of(&task), n);
        assert!(!task.ended());
    }
    task = about_to_poll(task).step(PollEvent::Responded(not_found()));
    assert_eq!(task, PollTask::TooManyErrors(PollError::Status("404 Not Found".to_string())));
    assert!(task.ended());
}

#[test]
fn success_resets_the_failures_of_polling() {
    let mut task = PollTask::new();
    for _ in 0..9 {
        task = about_to_poll(task).step(PollEvent::RequestFailed);
    }
    task = about_to_poll(task).step(PollEvent::Responded(ok()));
    assert_eq!(errors_of(&task), 9);
    task = task.step(PollEvent::Body(Ok(vec![])));
    assert_eq!(errors_of(&task), 0);
    for _ in 0..9 {
        task = about_to_poll(task).step(PollEvent::RequestFailed);
    }
    assert!(!task.ended());
}

#[test]
fn every_kind_of_poll_failure_is_kept() {
    let task = about_to_poll(PollTask::new()).step(PollEvent::RequestFailed);
    assert!(matches!(task, PollTask::Pausing { failure: Some(PollError::Request), .. }));
    let task = about_to_poll(PollTask::new()).step(PollEvent::Responded(ok()));
    let task = task.step(PollEvent::Body(Err(PollError::Body)));
    assert!(matches!(task, PollTask::Pausing { failure: Some(PollError::Body), .. }));
    let task = about_to_poll(PollTask::new()).step(PollEvent::Responded(ok()));
    let task = task.step(PollEvent::Body(Err(PollError::Base64)));
    assert!(matches!(task, PollTask::Pausing { failure: Some(PollError::Base64), .. }));
    let task = about_to_poll(PollTask::new()).step(PollEvent::Responded(not_found()));
    assert!(matches!(task, PollTask::Pausing { failure: Some(PollError::Status(_)), .. }));
}

#[test]
fn cancelled_polling_ends() {
    assert_eq!(PollTask::new().step(PollEvent::CancelFlag(true)), PollTask::Cancelled);
    let task = about_to_poll(PollTask::new()).step(PollEvent::RequestFailed);
    assert_eq!(task.step(PollEvent::Cancelled), PollTask::Cancelled);
    let task = about_to_poll(PollTask::new());
    assert!(!task.step(PollEvent::Cancelled).ended());
}

#[test]
fn data_is_posted_as_base64() {
    let task = ForwardTask::new().step(ForwardEvent::Data(b"hello".to_vec()));
    assert_eq!(
        task,
        ForwardTask::Posting {
            errors: FailureRun::none(),
            request: WriteRequest { data: "aGVsbG8=".to_string() }
        }
    );
    assert_eq!(task.step(ForwardEvent::Responded(ok())), ForwardTask::new());
}

#[test]
fn forwarding_is_given_up_at_the_tenth_failure_in_a_row() {
    let mut task = ForwardTask::new();
    for _ in 0..9 {
        task = task.step(ForwardEvent::Data(vec![1])).step(ForwardEvent::RequestFailed("refused".to_string()));
        assert!(!task.ended());
    }
    let last = task.step(ForwardEvent::Data(vec![1])).step(ForwardEvent::Responded(not_found()));
    assert_eq!(
        last,
        ForwardTask::TooManyErrors(ForwardError::Status("404 Not Found".to_string()))
    );
    assert!(last.ended());
}

#[test]
fn success_resets_the_failures_of_forwarding() {
    let mut task = ForwardTask::new();
    for _ in 0..9 {
        task = task.step(ForwardEvent::Data(vec![1])).step(ForwardEvent::RequestFailed("refused".to_string()));
    }
    task = task.step(ForwardEvent::Data(vec![1])).step(ForwardEvent::Responded(ok()));
    assert_eq!(task, ForwardTask::new());
    task = task.step(ForwardEvent::Data(vec![1])).step(ForwardEvent::RequestFailed("refused".to_string()));
    assert!(matches!(
        task,
        ForwardTask::Waiting { failure: Some(ForwardError::Request(_)), .. }
    ));
}

#[test]
fn forwarding_ends_when_cancelled_or_closed() {
    assert_eq!(ForwardTask::new().step(ForwardEvent::Cancelled), ForwardTask::Cancelled);
    assert_eq!(ForwardTask::new().step(ForwardEvent::Closed), ForwardTask::SenderGone);
    let ended = ForwardTask::new().step(ForwardEvent::Closed);
    assert_eq!(ended.step(ForwardEvent::Data(vec![1])), ForwardTask::SenderGone);
}

#[test]
fn reader_sends_what_it_reads() {
    let buf = [1u8, 2, 3, 4];
    let task = ReaderTask::new().step(ReaderEvent::Read(filled(&buf, 3)));
    assert_eq!(task, ReaderTask::Sending(vec![1, 2, 3]));
    assert_eq!(task.step(ReaderEvent::Sent(true)), ReaderTask::Reading);
}

#[test]
fn reader_stops_for_its_reasons() {
    let stop = |events: Vec<ReaderEvent>| {
        let mut task = ReaderTask::new();
        for event in events {
            task = task.step(event);
        }
        assert!(task.ended());
        match task {
            ReaderTask::Stopped(why) => why.reason(),
            _ => panic!("still running"),
        }
    };
    assert_eq!(stop(vec![ReaderEvent::Cancelled]), "cancellation requested");
    assert_eq!(stop(vec![ReaderEvent::Read(filled(&[0; 8], 0))]), "TCP EOF");
    assert_eq!(stop(vec![ReaderEvent::ReadFailed]), "TCP read error");
    assert_eq!(
        stop(vec![ReaderEvent::Read(vec![1]), ReaderEvent::Sent(false)]),
        "read channel receiver dropped"
    );
    assert_eq!(
        ReaderTask::Stopped(ReaderStop::Eof).step(ReaderEvent::Read(vec![1])),
        ReaderTask::Stopped(ReaderStop::Eof)
    );
}

#[test]
fn writer_writes_and_flushes() {
    let task = WriterTask::new().step(WriterEvent::Received(vec![7, 8]));
    assert_eq!(task, WriterTask::Writing(vec![7, 8]));
    let task = task.step(WriterEvent::Written(true));
    assert_eq!(task, WriterTask::Flushing);
    assert_eq!(task.step(WriterEvent::Flushed(true)), WriterTask::Receiving);
}

#[test]
fn writer_stops_for_its_reasons() {
    let stop = |events: Vec<WriterEvent>| {
        let mut task = WriterTask::new();
        for event in events {
            task = task.step(event);
        }
        assert!(task.ended());
        match task {
            WriterTask::Stopped(why) => why.reason(),
            _ => panic!("still running"),
        }
    };
    assert_eq!(stop(vec![WriterEvent::Cancelled]), "cancellation requested");
    assert_eq!(stop(vec![WriterEvent::Closed]), "write channel sender dropped");
    assert_eq!(
        stop(vec![WriterEvent::Received(vec![1]), WriterEvent::Written(false)]),
        "TCP write error"
    );
    assert_eq!(
        stop(vec![
            WriterEvent::Received(vec![1]),
            WriterEvent::Written(true),
            WriterEvent::Flushed(false)
        ]),
        "TCP flush error"
    );
    assert_eq!(
        WriterTask::Stopped(WriterStop::Cancelled).step(WriterEvent::Received(vec![1])),
        WriterTask::Stopped(WriterStop::Cancelled)
    );
}

#[test]
fn group_for_the_first_is_over_at_the_first_end() {
    let group = TaskGroup::new(2, WaitFor::First);
    assert!(!group.must_cancel() && !group.is_over());
    let group = group.task_ended();
    assert!(group.must_cancel() && group.is_over());
}

#[test]
fn group_for_all_is_over_at_the_last_end() {
    let mut group = TaskGroup::new(3, WaitFor::All);
    for n in 1..=3 {
        group = group.task_ended();
        assert!(group.must_cancel());
        assert_eq!(group.is_over(), n == 3);
    }
    assert_eq!(group.task_ended(), TaskGroup::new(3, WaitFor::All).task_ended().task_ended().task_ended());
}
