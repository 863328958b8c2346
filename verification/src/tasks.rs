//! Tasks that run side by side for one session.
use vstd::prelude::*;

use crate::forward::{ForwardTask, ForwardTaskView};
use crate::http::HttpMethod;
use crate::poll::{PollTask, PollTaskView};

verus! {

/// Until when a group of tasks is waited for.
#[derive(Debug, Clone, Copy, PartialEq, Eq, Structural)]
pub enum WaitFor {
    /// Until the first task has ended.
    First,
    /// Until every task has ended.
    All,
}

/// A group of tasks: how many were started, how many of them have ended, and until when
/// they are waited for.
#[derive(Debug, PartialEq, Eq)]
pub struct TaskGroup {
    started: usize,
    ended: usize,
    wait_for: WaitFor,
}

/// What a [`TaskGroup`] holds.
pub struct TaskGroupView {
    pub started: nat,
    pub ended: nat,
    pub wait_for: WaitFor,
}

impl View for TaskGroup {
    type V = TaskGroupView;

    closed spec fn view(&self) -> TaskGroupView {
        TaskGroupView {
            started: self.started as nat,
            ended: self.ended as nat,
            wait_for: self.wait_for,
        }
    }
}

/// The group after one more task has ended.
pub open spec fn one_more_ended(group: TaskGroupView) -> TaskGroupView {
    TaskGroupView {
        ended: if group.ended < group.started {
            group.ended + 1
        } else {
            group.ended
        },
        ..group
    }
}

/// Whether the session of the group is to be cancelled: as soon as one task has ended.
pub open spec fn must_cancel(group: TaskGroupView) -> bool {
    group.ended > 0
}

/// Whether the group is waited for no longer.
pub open spec fn is_over(group: TaskGroupView) -> bool {
    match group.wait_for {
        WaitFor::First => group.ended > 0,
        WaitFor::All => group.ended >= group.started,
    }
}

impl TaskGroup {
    /// A group of which no task has ended.
    pub fn new(started: usize, wait_for: WaitFor) -> (r: TaskGroup)
        ensures
            r@ == (TaskGroupView { started: started as nat, ended: 0, wait_for }),
    {
        TaskGroup { started, ended: 0, wait_for }
    }

    /// Notes that one of the tasks has ended, in whatever way.
    pub fn task_ended(self) -> (r: TaskGroup)
        ensures
            r@ == one_more_ended(self@),
    {
        TaskGroup {
            started: self.started,
            ended: if self.ended < self.started {
                self.ended + 1
            } else {
                self.ended
            },
            wait_for: self.wait_for,
        }
    }

    /// Whether the session of the group is to be cancelled.
    pub fn must_cancel(&self) -> (r: bool)
        ensures
            r == must_cancel(self@),
    {
        self.ended > 0
    }

    /// Whether the group is waited for no longer.
    pub fn is_over(&self) -> (r: bool)
        ensures
            r == is_over(self@),
    {
        match self.wait_for {
            WaitFor::First => self.ended > 0,
            WaitFor::All => self.ended >= self.started,
        }
    }
}

/// The group after `n` tasks have ended.
pub open spec fn after_ends(group: TaskGroupView, n: nat) -> TaskGroupView
    decreases n,
{
    if n == 0 {
        group
    } else {
        one_more_ended(after_ends(group, (n - 1) as nat))
    }
}

/// The session is cancelled at the first end of a task.  A group that waits for the first
/// is over then, and one that waits for all exactly when each of its tasks has ended.  So the
/// session of a group that is over has been cancelled.
pub proof fn groups_end_as_they_wait(started: nat, wait_for: WaitFor, n: nat)
    requires
        0 < started,
        n <= started,
    ensures
        ({
            let group = after_ends(TaskGroupView { started, ended: 0, wait_for }, n);
            &&& group.ended == n
            &&& must_cancel(group) <==> n > 0
            &&& is_over(group) <==> match wait_for {
                WaitFor::First => n > 0,
                WaitFor::All => n == started,
            }
            &&& is_over(group) ==> must_cancel(group)
        }),
{
    let fresh = TaskGroupView { started, ended: 0, wait_for };
    after_ends_counts(fresh, n);
}

/// Counts the tasks that have ended.
proof fn after_ends_counts(fresh: TaskGroupView, n: nat)
    requires
        fresh.ended == 0,
        n <= fresh.started,
    ensures
        after_ends(fresh, n) == (TaskGroupView { ended: n, ..fresh }),
    decreases n,
{
    if n > 0 {
        after_ends_counts(fresh, (n - 1) as nat);
    }
}

/// Which end of a session a bridge is: the two poll with different methods and get replies
/// of different forms.
#[derive(Debug, Clone, Copy, PartialEq, Eq, Structural)]
pub enum End {
    Client,
    Server,
}

/// The method with which an end polls.
pub open spec fn poll_method(end: End) -> HttpMethod {
    match end {
        End::Client => HttpMethod::Get,
        End::Server => HttpMethod::Post,
    }
}

impl End {
    /// The method with which this end polls.
    pub fn poll_method(self) -> (r: HttpMethod)
        ensures
            r == poll_method(self),
            r == HttpMethod::Get <==> self == End::Client,
    {
        match self {
            End::Client => HttpMethod::Get,
            End::Server => HttpMethod::Post,
        }
    }
}

/// A bridge that runs: which end it is, the task that polls and the task that posts, with
/// their URLs, and the group of the two, which is waited for until one of them ends.
#[derive(Debug, PartialEq, Eq)]
pub struct BridgeTasks {
    pub end: End,
    pub poll_url: String,
    pub poll_interval_ms: u64,
    pub poll: PollTask,
    pub post_url: String,
    pub forward: ForwardTask,
    pub group: TaskGroup,
}

impl BridgeTasks {
    /// Whether this bridge is this end, polls and posts at these URLs and has just started.
    pub open spec fn fresh(
        self,
        end: End,
        poll_url: Seq<char>,
        poll_interval_ms: u64,
        post_url: Seq<char>,
    ) -> bool {
        &&& self.end == end
        &&& self.poll_url@ == poll_url
        &&& self.poll_interval_ms == poll_interval_ms
        &&& self.poll@ == (PollTaskView::Idle { errors: 0 })
        &&& self.post_url@ == post_url
        &&& self.forward@ == (ForwardTaskView::Waiting { errors: 0, failure: None })
        &&& self.group@ == (TaskGroupView { started: 2, ended: 0, wait_for: WaitFor::First })
    }

    /// Starts a bridge.
    pub fn start(
        end: End,
        poll_url: String,
        poll_interval_ms: u64,
        post_url: String,
    ) -> (r: BridgeTasks)
        ensures
            r.fresh(end, poll_url@, poll_interval_ms, post_url@),
            r.end == end,
            r.poll_url == poll_url,
            r.poll_interval_ms == poll_interval_ms,
            r.post_url == post_url,
            r.group@.started == 2,
            r.group@.ended == 0,
            r.group@.wait_for == WaitFor::First,
    {
        BridgeTasks {
            end,
            poll_url,
            poll_interval_ms,
            poll: PollTask::new(),
            post_url,
            forward: ForwardTask::new(),
            group: TaskGroup::new(2, WaitFor::First),
        }
    }
}

/// Ends beyond the last task change nothing, and a group never forgets how many tasks it has
/// and until when it is waited for.
pub proof fn groups_count_each_task_once(group: TaskGroupView)
    requires
        group.ended <= group.started,
    ensures
        one_more_ended(group).started == group.started,
        one_more_ended(group).wait_for == group.wait_for,
        group.ended < group.started ==> one_more_ended(group).ended == group.ended + 1,
        group.ended == group.started ==> one_more_ended(group).ended == group.ended,
        must_cancel(group) <==> group.ended >= 1,
        group.wait_for == WaitFor::First ==> (is_over(group) <==> group.ended >= 1),
        group.wait_for == WaitFor::All ==> (is_over(group) <==> group.ended == group.started),
{
}

/// A bridge that has just started polls and posts at its own URLs, has had no failure, and is
/// waited for until the first of its two tasks ends.
pub proof fn fresh_bridges_have_done_nothing(
    bridge: BridgeTasks,
    end: End,
    poll_url: Seq<char>,
    poll_interval_ms: u64,
    post_url: Seq<char>,
)
    requires
        bridge.fresh(end, poll_url, poll_interval_ms, post_url),
    ensures
        bridge.end == end,
        bridge.poll_url@ == poll_url,
        bridge.poll_interval_ms == poll_interval_ms,
        bridge.post_url@ == post_url,
        bridge.poll@ == (PollTaskView::Idle { errors: 0 }),
        bridge.forward@ == (ForwardTaskView::Waiting { errors: 0, failure: None }),
        bridge.group@.started == 2,
        bridge.group@.ended == 0,
        bridge.group@.wait_for == WaitFor::First,
{
}

/// The client polls with GET, the server with POST.
pub proof fn ends_poll_with_their_methods()
    ensures
        poll_method(End::Client) == HttpMethod::Get,
        poll_method(End::Server) == HttpMethod::Post,
{
}

} // verus!
