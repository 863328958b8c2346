//! The tunnel between a SOCKS5 client and its session.
use vstd::prelude::*;

use crate::client::http_bridge;
use crate::client::http_bridge::HttpBridge;
use crate::pump::{ReaderTask, ReaderTaskView, WriterTask, WriterTaskView, CHANNEL_BUFFER};
use crate::tasks::{TaskGroup, TaskGroupView, WaitFor};

verus! {

/// A tunnel: how many chunks each of its two channels holds, the bridge to the relay, the
/// tasks that read from and write to the client, and the group of the three, which is waited
/// for until all have ended.
#[derive(Debug, PartialEq, Eq)]
pub struct Relay {
    pub channel_buffer: usize,
    pub bridge: HttpBridge,
    pub reader: ReaderTask,
    pub writer: WriterTask,
    pub group: TaskGroup,
}

impl Relay {
    /// Whether this is the tunnel over that session, just started.
    pub open spec fn fresh(
        self,
        bridge_url: Seq<char>,
        session_id: Seq<char>,
        poll_interval_ms: u64,
    ) -> bool {
        &&& self.channel_buffer == CHANNEL_BUFFER
        &&& self.bridge.recv_url@ == http_bridge::recv_url(bridge_url, session_id)
        &&& self.bridge.send_url@ == http_bridge::send_url(bridge_url, session_id)
        &&& self.bridge.poll_interval_ms == poll_interval_ms
        &&& self.reader@ == ReaderTaskView::Reading
        &&& self.writer@ == WriterTaskView::Receiving
        &&& self.group@ == (TaskGroupView { started: 3, ended: 0, wait_for: WaitFor::All })
    }
}

/// Starts the tunnel over a session.
pub fn relay(bridge_url: &str, session_id: &str, poll_interval_ms: u64) -> (r: Relay)
    ensures
        r.fresh(bridge_url@, session_id@, poll_interval_ms),
{
    Relay {
        channel_buffer: CHANNEL_BUFFER,
        bridge: HttpBridge::new(bridge_url.to_owned(), session_id.to_owned(), poll_interval_ms),
        reader: ReaderTask::new(),
        writer: WriterTask::new(),
        group: TaskGroup::new(3, WaitFor::All),
    }
}

/// A tunnel that has just started uses the URLs of its session, reads from and writes to the
/// client, and is waited for until all of its three tasks have ended.
pub proof fn fresh_tunnels_have_done_nothing(
    tunnel: Relay,
    bridge_url: Seq<char>,
    session_id: Seq<char>,
    poll_interval_ms: u64,
)
    requires
        tunnel.fresh(bridge_url, session_id, poll_interval_ms),
    ensures
        tunnel.channel_buffer == 256,
        tunnel.bridge.recv_url@ == http_bridge::recv_url(bridge_url, session_id),
        tunnel.bridge.send_url@ == http_bridge::send_url(bridge_url, session_id),
        tunnel.bridge.poll_interval_ms == poll_interval_ms,
        tunnel.reader@ == ReaderTaskView::Reading,
        tunnel.writer@ == WriterTaskView::Receiving,
        tunnel.group@.started == 3,
        tunnel.group@.ended == 0,
        tunnel.group@.wait_for == WaitFor::All,
{
}

} // verus!
