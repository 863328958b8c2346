//! Discovering sessions and running them.
use vstd::hash_set::StringHashSet;
use vstd::prelude::*;
use vstd::string::*;

use crate::http;
use crate::http::{HttpStatus, HttpStatusView};
use crate::server::http_bridge;
use crate::server::http_bridge::HttpBridge;
use crate::text;

verus! {

/// A session as the relay lists it.
#[derive(Debug, PartialEq, Eq)]
pub struct SessionInfo {
    pub session_id: String,
    /// Empty where the relay names no target.
    pub target_addr: String,
    /// Zero where the relay names no target.
    pub target_port: u16,
}

/// What a [`SessionInfo`] holds.
pub struct SessionInfoView {
    pub session_id: Seq<char>,
    pub target_addr: Seq<char>,
    pub target_port: u16,
}

impl View for SessionInfo {
    type V = SessionInfoView;

    open spec fn view(&self) -> SessionInfoView {
        SessionInfoView {
            session_id: self.session_id@,
            target_addr: self.target_addr@,
            target_port: self.target_port,
        }
    }
}

/// The contents of a list of sessions.
pub open spec fn listed(sessions: Seq<SessionInfo>) -> Seq<SessionInfoView> {
    Seq::new(sessions.len(), |i: int| sessions[i]@)
}

/// A session that is to be started, and the target to connect to.
#[derive(Debug, PartialEq, Eq)]
pub struct Launch {
    pub session_id: String,
    pub target: String,
}

/// What a [`Launch`] holds.
pub struct LaunchView {
    pub session_id: Seq<char>,
    pub target: Seq<char>,
}

impl View for Launch {
    type V = LaunchView;

    open spec fn view(&self) -> LaunchView {
        LaunchView { session_id: self.session_id@, target: self.target@ }
    }
}

/// The contents of a list of launches.
pub open spec fn planned(launches: Seq<Launch>) -> Seq<LaunchView> {
    Seq::new(launches.len(), |i: int| launches[i]@)
}

impl SessionInfoView {
    /// Whether the relay names a target.
    pub open spec fn has_target(self) -> bool {
        self.target_addr.len() > 0 && self.target_port != 0
    }

    /// The launch of this session: its target is the address and the port with a colon
    /// between them.
    pub open spec fn launch(self) -> LaunchView {
        LaunchView {
            session_id: self.session_id,
            target: self.target_addr + seq![':'] + text::decimal(self.target_port as nat),
        }
    }
}

/// Whether a session of this id is among the launches.
pub open spec fn launches_id(launches: Seq<LaunchView>, session_id: Seq<char>) -> bool {
    exists|i: int| 0 <= i < launches.len() && (#[trigger] launches[i]).session_id == session_id
}

/// The sessions to start for a list, in its order: those that have a target, do not run,
/// and were not already started for an earlier entry.
pub open spec fn new_launches(
    running: Set<Seq<char>>,
    sessions: Seq<SessionInfoView>,
) -> Seq<LaunchView>
    decreases sessions.len(),
{
    if sessions.len() == 0 {
        Seq::empty()
    } else {
        let before = new_launches(running, sessions.drop_last());
        let session = sessions.last();
        if session.has_target() && !running.contains(session.session_id) && !launches_id(
            before,
            session.session_id,
        ) {
            before.push(session.launch())
        } else {
            before
        }
    }
}

/// The sessions that run once those of a list are started.
pub open spec fn running_after(
    running: Set<Seq<char>>,
    sessions: Seq<SessionInfoView>,
) -> Set<Seq<char>>
    decreases sessions.len(),
{
    if sessions.len() == 0 {
        running
    } else {
        let before = running_after(running, sessions.drop_last());
        if sessions.last().has_target() {
            before.insert(sessions.last().session_id)
        } else {
            before
        }
    }
}

/// The sessions of a list that are passed over because the relay names no target for them,
/// in its order: those that do not run when their turn comes.
pub open spec fn passed_over(
    running: Set<Seq<char>>,
    sessions: Seq<SessionInfoView>,
) -> Seq<Seq<char>>
    decreases sessions.len(),
{
    if sessions.len() == 0 {
        Seq::empty()
    } else {
        let before = passed_over(running, sessions.drop_last());
        let session = sessions.last();
        if !session.has_target() && !running_after(running, sessions.drop_last()).contains(
            session.session_id,
        ) {
            before.push(session.session_id)
        } else {
            before
        }
    }
}

/// What a list of the relay leads to: the sessions to start, and the ids of those that are
/// passed over because they have no target.
#[derive(Debug, PartialEq, Eq)]
pub struct Discovered {
    pub launches: Vec<Launch>,
    pub passed_over: Vec<String>,
}

/// The contents of a list of ids.
pub open spec fn ids(session_ids: Seq<String>) -> Seq<Seq<char>> {
    Seq::new(session_ids.len(), |i: int| session_ids[i]@)
}

impl SessionInfo {
    /// The launch of this session, where the relay names a target.
    pub fn launch(&self) -> (r: Option<Launch>)
        ensures
            match r {
                Some(launch) => self@.has_target() && launch@ == self@.launch(),
                None => !self@.has_target(),
            },
            r is Some <==> self.target_addr@.len() > 0 && self.target_port != 0,
            r matches Some(launch) ==> launch.session_id@ == self.session_id@ && launch.target@
                == self.target_addr@ + seq![':'] + text::decimal(self.target_port as nat),
    {
        if self.target_addr.as_str().is_empty() || self.target_port == 0 {
            return None;
        }
        proof {
            reveal_strlit(":");
            assert(":"@ =~= seq![':']);
        }
        let mut target = self.target_addr.clone();
        target.append(":");
        text::push_decimal(&mut target, self.target_port as u64);
        Some(Launch { session_id: self.session_id.clone(), target })
    }
}

/// What runs after a list is what ran before it and what was started for it.
pub proof fn running_are_old_or_launched(
    running: Set<Seq<char>>,
    sessions: Seq<SessionInfoView>,
    session_id: Seq<char>,
)
    ensures
        running_after(running, sessions).contains(session_id) <==> running.contains(session_id)
            || launches_id(new_launches(running, sessions), session_id),
    decreases sessions.len(),
{
    if sessions.len() > 0 {
        let before = new_launches(running, sessions.drop_last());
        let after = new_launches(running, sessions);
        let last = sessions.last();
        running_are_old_or_launched(running, sessions.drop_last(), session_id);
        running_are_old_or_launched(running, sessions.drop_last(), last.session_id);
        if launches_id(before, session_id) {
            let i = choose|i: int|
                0 <= i < before.len() && (#[trigger] before[i]).session_id == session_id;
            assert(after[i].session_id == session_id);
        }
        if after.len() > before.len() {
            assert(after[before.len() as int].session_id == last.session_id);
            if launches_id(after, session_id) && !launches_id(before, session_id) {
                let i = choose|i: int|
                    0 <= i < after.len() && (#[trigger] after[i]).session_id == session_id;
                if i < before.len() {
                    assert(before[i].session_id == session_id);
                }
            }
        }
    }
}

/// Where the relay lists its sessions.
pub open spec fn sessions_url(bridge_url: Seq<char>) -> Seq<char> {
    text::without_trailing_slashes(bridge_url) + "/debug/sessions"@
}

/// The discovery of sessions: the relay that is asked, how often, and which sessions run.
pub struct Discovery {
    pub base_url: String,
    pub sessions_url: String,
    pub poll_interval_ms: u64,
    pub discovery_interval_ms: u64,
    /// The ids of the sessions that run.
    pub running: StringHashSet,
}

impl Discovery {
    /// Whether nothing but the running sessions differs from `other`.
    pub open spec fn same_settings(self, other: Discovery) -> bool {
        &&& self.base_url@ == other.base_url@
        &&& self.sessions_url@ == other.sessions_url@
        &&& self.poll_interval_ms == other.poll_interval_ms
        &&& self.discovery_interval_ms == other.discovery_interval_ms
    }

    /// A discovery that has started no session yet.
    pub fn new(bridge_url: &str, poll_interval_ms: u64, discovery_interval_ms: u64) -> (r: Discovery)
        ensures
            r.base_url@ == text::without_trailing_slashes(bridge_url@),
            r.sessions_url@ == sessions_url(bridge_url@),
            r.poll_interval_ms == poll_interval_ms,
            r.discovery_interval_ms == discovery_interval_ms,
            r.running@ == Set::<Seq<char>>::empty(),
    {
        let base_url = text::trim_trailing_slashes(bridge_url);
        let mut sessions_url = base_url.clone();
        sessions_url.append("/debug/sessions");
        Discovery {
            base_url,
            sessions_url,
            poll_interval_ms,
            discovery_interval_ms,
            running: StringHashSet::new(),
        }
    }

    /// Forgets a session whose task is finished, and says whether it ran: it is then to be
    /// cancelled.
    pub fn finished(&mut self, session_id: &str) -> (r: bool)
        ensures
            r == old(self).running@.contains(session_id@),
            final(self).running@ == old(self).running@.remove(session_id@),
            final(self).same_settings(*old(self)),
            final(self).base_url == old(self).base_url,
            final(self).sessions_url == old(self).sessions_url,
            final(self).poll_interval_ms == old(self).poll_interval_ms,
            final(self).discovery_interval_ms == old(self).discovery_interval_ms,
    {
        self.running.remove(session_id)
    }

    /// Takes a list of the relay and gives the sessions to start, which then count as
    /// running, and those that are passed over.
    pub fn discovered(&mut self, sessions: &Vec<SessionInfo>) -> (r: Discovered)
        ensures
            planned(r.launches@) == new_launches(old(self).running@, listed(sessions@)),
            ids(r.passed_over@) == passed_over(old(self).running@, listed(sessions@)),
            final(self).running@ == running_after(old(self).running@, listed(sessions@)),
            final(self).same_settings(*old(self)),
            final(self).base_url == old(self).base_url,
            final(self).sessions_url == old(self).sessions_url,
            final(self).poll_interval_ms == old(self).poll_interval_ms,
            final(self).discovery_interval_ms == old(self).discovery_interval_ms,
    {
        let ghost running = self.running@;
        let mut launches: Vec<Launch> = Vec::new();
        let mut skipped: Vec<String> = Vec::new();
        let mut i: usize = 0;
        proof {
            assert(planned(launches@) =~= Seq::empty());
            assert(ids(skipped@) =~= Seq::empty());
            assert(listed(sessions@).take(0) =~= Seq::empty());
        }
        while i < sessions.len()
            invariant
                i <= sessions@.len(),
                self.running@ == running_after(running, listed(sessions@).take(i as int)),
                self.same_settings(*old(self)),
                self.base_url == old(self).base_url,
                self.sessions_url == old(self).sessions_url,
                self.poll_interval_ms == old(self).poll_interval_ms,
                self.discovery_interval_ms == old(self).discovery_interval_ms,
                planned(launches@) == new_launches(running, listed(sessions@).take(i as int)),
                ids(skipped@) == passed_over(running, listed(sessions@).take(i as int)),
            decreases sessions@.len() - i,
        {
            let session = &sessions[i];
            let ghost upto = listed(sessions@).take(i + 1);
            proof {
                assert(upto.drop_last() =~= listed(sessions@).take(i as int));
                assert(upto.last() == session@);
                running_are_old_or_launched(running, upto.drop_last(), session@.session_id);
                if self.running@.contains(session@.session_id) {
                    assert(self.running@.insert(session@.session_id) =~= self.running@);
                }
            }
            if !self.running.contains(session.session_id.as_str()) {
                match session.launch() {
                    Some(launch) => {
                        let ghost before = planned(launches@);
                        let ghost added = launch@;
                        launches.push(launch);
                        proof {
                            assert(planned(launches@) =~= before.push(added));
                        }
                        self.running.insert(session.session_id.clone());
                    },
                    None => {
                        let ghost before = ids(skipped@);
                        skipped.push(session.session_id.clone());
                        proof {
                            assert(ids(skipped@) =~= before.push(session@.session_id));
                        }
                    },
                }
            }
            i = i + 1;
        }
        proof {
            assert(listed(sessions@).take(i as int) =~= listed(sessions@));
        }
        Discovered { launches, passed_over: skipped }
    }
}

/// Whether this launch is that of the entry at `k`: it has a target, and no earlier entry
/// of the same session has.
pub open spec fn is_launch_of(
    launch: LaunchView,
    sessions: Seq<SessionInfoView>,
    k: int,
) -> bool {
    &&& 0 <= k < sessions.len()
    &&& sessions[k].has_target()
    &&& launch == sessions[k].launch()
    &&& forall|m: int|
        0 <= m < k && (#[trigger] sessions[m]).session_id == launch.session_id
            ==> !sessions[m].has_target()
}

/// Whether this launch is that of an entry of the list.
pub open spec fn is_launch_from(launch: LaunchView, sessions: Seq<SessionInfoView>) -> bool {
    exists|k: int| is_launch_of(launch, sessions, k)
}

/// A session is started only when it does not run, never twice for one list, and to the
/// target that its first entry with a target names.
pub proof fn launches_are_new_and_distinct(
    running: Set<Seq<char>>,
    sessions: Seq<SessionInfoView>,
)
    ensures
        ({
            let launches = new_launches(running, sessions);
            &&& forall|i: int|
                0 <= i < launches.len() ==> !running.contains(
                    (#[trigger] launches[i]).session_id,
                )
            &&& forall|i: int, j: int|
                0 <= i < j < launches.len() ==> (#[trigger] launches[i]).session_id != (
                #[trigger] launches[j]).session_id
            &&& forall|i: int|
                0 <= i < launches.len() ==> #[trigger] is_launch_from(launches[i], sessions)
        }),
    decreases sessions.len(),
{
    if sessions.len() > 0 {
        let fewer = sessions.drop_last();
        let before = new_launches(running, fewer);
        let launches = new_launches(running, sessions);
        launches_are_new_and_distinct(running, fewer);
        assert forall|i: int| 0 <= i < launches.len() implies #[trigger] is_launch_from(
            launches[i],
            sessions,
        ) by {
            if i < before.len() {
                assert(launches[i] == before[i]);
                assert(is_launch_from(before[i], fewer));
                let k = choose|k: int| is_launch_of(before[i], fewer, k);
                assert forall|m: int|
                    0 <= m < k && (#[trigger] sessions[m]).session_id
                        == launches[i].session_id implies !sessions[m].has_target() by {
                    assert(fewer[m] == sessions[m]);
                }
                assert(is_launch_of(launches[i], sessions, k));
            } else {
                let last = sessions.len() - 1;
                assert forall|m: int|
                    0 <= m < last && (#[trigger] sessions[m]).session_id
                        == launches[i].session_id implies !sessions[m].has_target() by {
                    assert(fewer[m] == sessions[m]);
                    if sessions[m].has_target() {
                        listed_targets_run(running, fewer, m);
                        running_are_old_or_launched(running, fewer, sessions[m].session_id);
                    }
                }
                assert(is_launch_of(launches[i], sessions, last));
            }
        }
        assert forall|i: int, j: int| 0 <= i < j < launches.len() implies (
        #[trigger] launches[i]).session_id != (#[trigger] launches[j]).session_id by {
            assert(launches[i] == before[i]);
            if j < before.len() {
                assert(launches[j] == before[j]);
            }
        }
        assert forall|i: int| 0 <= i < launches.len() implies !running.contains(
            (#[trigger] launches[i]).session_id,
        ) by {
            if i < before.len() {
                assert(launches[i] == before[i]);
            }
        }
    }
}

/// Every listed session that has a target runs once the list was taken.
pub proof fn listed_targets_run(
    running: Set<Seq<char>>,
    sessions: Seq<SessionInfoView>,
    k: int,
)
    requires
        0 <= k < sessions.len(),
        sessions[k].has_target(),
    ensures
        running_after(running, sessions).contains(sessions[k].session_id),
    decreases sessions.len(),
{
    if k < sessions.len() - 1 {
        listed_targets_run(running, sessions.drop_last(), k);
    }
}

/// No session stops running because of a list.
pub proof fn running_stays(
    running: Set<Seq<char>>,
    sessions: Seq<SessionInfoView>,
    session_id: Seq<char>,
)
    requires
        running.contains(session_id),
    ensures
        running_after(running, sessions).contains(session_id),
    decreases sessions.len(),
{
    if sessions.len() > 0 {
        running_stays(running, sessions.drop_last(), session_id);
    }
}

/// A list that is taken a second time, with nothing finished in between, starts nothing.
pub proof fn listing_again_launches_nothing(
    running: Set<Seq<char>>,
    sessions: Seq<SessionInfoView>,
)
    ensures
        new_launches(running_after(running, sessions), sessions) == Seq::<LaunchView>::empty(),
        running_after(running_after(running, sessions), sessions) == running_after(
            running,
            sessions,
        ),
{
    let now = running_after(running, sessions);
    let again = new_launches(now, sessions);
    launches_are_new_and_distinct(now, sessions);
    if again.len() > 0 {
        assert(is_launch_from(again[0], sessions));
        let k = choose|k: int| is_launch_of(again[0], sessions, k);
        listed_targets_run(running, sessions, k);
        assert(!now.contains(again[0].session_id));
    }
    assert(again =~= Seq::<LaunchView>::empty());
    assert forall|id: Seq<char>| running_after(now, sessions).contains(id) <==> now.contains(
        id,
    ) by {
        running_are_old_or_launched(now, sessions, id);
    }
    assert(running_after(now, sessions) =~= now);
}

/// A session that has finished and is still listed with a target is started again.
pub proof fn finished_sessions_start_again(
    running: Set<Seq<char>>,
    sessions: Seq<SessionInfoView>,
    k: int,
)
    requires
        0 <= k < sessions.len(),
        sessions[k].has_target(),
    ensures
        launches_id(
            new_launches(running.remove(sessions[k].session_id), sessions),
            sessions[k].session_id,
        ),
{
    let left = running.remove(sessions[k].session_id);
    listed_targets_run(left, sessions, k);
    running_are_old_or_launched(left, sessions, sessions[k].session_id);
}

/// Why the list of sessions could not be had.
#[derive(Debug, PartialEq, Eq)]
pub enum FetchError {
    /// The request or its reply failed, for this reason.
    Failed(String),
    /// The reply reports this status, which is no success.
    Status(String),
}

/// What a [`FetchError`] holds.
pub enum FetchErrorView {
    Failed(Seq<char>),
    Status(Seq<char>),
}

impl View for FetchError {
    type V = FetchErrorView;

    open spec fn view(&self) -> FetchErrorView {
        match self {
            FetchError::Failed(reason) => FetchErrorView::Failed(reason@),
            FetchError::Status(line) => FetchErrorView::Status(line@),
        }
    }
}

impl FetchErrorView {
    /// The error in words.
    pub open spec fn words(self) -> Seq<char> {
        match self {
            FetchErrorView::Failed(reason) => reason,
            FetchErrorView::Status(line) => "GET sessions returned HTTP "@ + line,
        }
    }
}

impl FetchError {
    /// The error in words.
    pub fn message(&self) -> (r: String)
        ensures
            r@ == self@.words(),
            self matches FetchError::Failed(reason) ==> r@ == reason@,
            self matches FetchError::Status(line) ==> r@ == "GET sessions returned HTTP "@ + line@,
    {
        match self {
            FetchError::Failed(reason) => reason.clone(),
            FetchError::Status(line) => {
                let mut r = "GET sessions returned HTTP ".to_owned();
                r.append(line.as_str());
                r
            },
        }
    }
}

/// What fetching the list is about to do, and waits for the outcome of.
#[derive(Debug, PartialEq, Eq)]
pub enum Fetch {
    /// Ask for the list.
    Requesting,
    /// Read the list.
    ReadingList,
    /// Ended: the list.
    Fetched(Vec<SessionInfo>),
    /// Ended: there is none.
    Failed(FetchError),
}

/// What a [`Fetch`] holds.
pub enum FetchView {
    Requesting,
    ReadingList,
    Fetched(Seq<SessionInfoView>),
    Failed(FetchErrorView),
}

impl View for Fetch {
    type V = FetchView;

    open spec fn view(&self) -> FetchView {
        match self {
            Fetch::Requesting => FetchView::Requesting,
            Fetch::ReadingList => FetchView::ReadingList,
            Fetch::Fetched(sessions) => FetchView::Fetched(listed(sessions@)),
            Fetch::Failed(e) => FetchView::Failed(e@),
        }
    }
}

/// What can happen while the list is fetched.
#[derive(Debug, PartialEq, Eq)]
pub enum FetchEvent {
    /// The request failed before there was a reply, or the reply is not the JSON that is
    /// asked for.
    Failed(String),
    /// A reply came.
    Responded(HttpStatus),
    /// The list.
    List(Vec<SessionInfo>),
}

/// What a [`FetchEvent`] holds.
pub enum FetchEventView {
    Failed(Seq<char>),
    Responded(HttpStatusView),
    List(Seq<SessionInfoView>),
}

impl View for FetchEvent {
    type V = FetchEventView;

    open spec fn view(&self) -> FetchEventView {
        match self {
            FetchEvent::Failed(reason) => FetchEventView::Failed(reason@),
            FetchEvent::Responded(status) => FetchEventView::Responded(status@),
            FetchEvent::List(sessions) => FetchEventView::List(listed(sessions@)),
        }
    }
}

/// What fetching does after `event`.  An event that it does not wait for changes nothing.
pub open spec fn fetch_next(fetch: FetchView, event: FetchEventView) -> FetchView {
    match (fetch, event) {
        (FetchView::Requesting, FetchEventView::Failed(reason)) => FetchView::Failed(
            FetchErrorView::Failed(reason),
        ),
        (FetchView::Requesting, FetchEventView::Responded(status)) => {
            if http::success_code(status.code) {
                FetchView::ReadingList
            } else {
                FetchView::Failed(FetchErrorView::Status(status.line))
            }
        },
        (FetchView::ReadingList, FetchEventView::Failed(reason)) => FetchView::Failed(
            FetchErrorView::Failed(reason),
        ),
        (FetchView::ReadingList, FetchEventView::List(sessions)) => FetchView::Fetched(sessions),
        _ => fetch,
    }
}

/// Starts fetching the list of sessions.
pub fn fetch_sessions() -> (r: Fetch)
    ensures
        r@ == FetchView::Requesting,
{
    Fetch::Requesting
}

impl Fetch {
    /// Tells what happened.
    pub fn step(self, event: FetchEvent) -> (r: Fetch)
        ensures
            r@ == fetch_next(self@, event@),
            self is ReadingList ==> (event matches FetchEvent::List(sessions) ==> r
                == Fetch::Fetched(sessions)),
            self is Requesting || self is ReadingList ==> (
            event matches FetchEvent::Failed(reason) ==> r == Fetch::Failed(
                FetchError::Failed(reason),
            )),
            self is Requesting ==> (event matches FetchEvent::Responded(status) ==> r == (
            if status.code / 100 == 2 {
                Fetch::ReadingList
            } else {
                Fetch::Failed(FetchError::Status(status.line))
            })),
    {
        match (self, event) {
            (Fetch::Requesting, FetchEvent::Failed(reason)) => Fetch::Failed(
                FetchError::Failed(reason),
            ),
            (Fetch::Requesting, FetchEvent::Responded(status)) => {
                if status.is_success() {
                    Fetch::ReadingList
                } else {
                    Fetch::Failed(FetchError::Status(status.line))
                }
            },
            (Fetch::ReadingList, FetchEvent::Failed(reason)) => Fetch::Failed(
                FetchError::Failed(reason),
            ),
            (Fetch::ReadingList, FetchEvent::List(sessions)) => Fetch::Fetched(sessions),
            (fetch, _) => fetch,
        }
    }
}

/// What a session is about to do, and waits for the outcome of.
#[derive(Debug, Clone, Copy, PartialEq, Eq, Structural)]
pub enum SessionPhase {
    /// Connect to the target.
    Connecting,
    /// Run the bridge.
    Bridging,
    /// Ended: there is no connection.
    ConnectFailed,
    /// Ended: the bridge has ended.
    Finished,
}

/// What can happen to a session.
#[derive(Debug, Clone, Copy, PartialEq, Eq, Structural)]
pub enum SessionEvent {
    /// Whether connecting to the target succeeded.
    Connected(bool),
    /// The bridge has ended.
    BridgeEnded,
}

/// What a session does after `event`.  An event that it does not wait for changes nothing.
pub open spec fn session_next(phase: SessionPhase, event: SessionEvent) -> SessionPhase {
    match (phase, event) {
        (SessionPhase::Connecting, SessionEvent::Connected(true)) => SessionPhase::Bridging,
        (SessionPhase::Connecting, SessionEvent::Connected(false)) => SessionPhase::ConnectFailed,
        (SessionPhase::Bridging, SessionEvent::BridgeEnded) => SessionPhase::Finished,
        _ => phase,
    }
}

/// Whether a session has ended.  A session that ends is cancelled.
pub open spec fn session_ended(phase: SessionPhase) -> bool {
    phase is ConnectFailed || phase is Finished
}

/// A session: its id, the target that it connects to, its end of the bridge, and how far it
/// has come.
#[derive(Debug, PartialEq, Eq)]
pub struct SessionRun {
    pub session_id: String,
    pub target: String,
    pub bridge: HttpBridge,
    pub phase: SessionPhase,
}

/// Starts a session, which connects to its target first.
pub fn run_session(base_url: &str, launch: Launch, poll_interval_ms: u64) -> (r: SessionRun)
    ensures
        r.session_id@ == launch@.session_id,
        r.target@ == launch@.target,
        r.session_id == launch.session_id,
        r.target == launch.target,
        r.bridge.read_url@ == http_bridge::read_url(base_url@, launch@.session_id),
        r.bridge.write_url@ == http_bridge::write_url(base_url@, launch@.session_id),
        r.bridge.poll_interval_ms == poll_interval_ms,
        r.phase == SessionPhase::Connecting,
{
    let bridge = HttpBridge::new(
        base_url.to_owned(),
        launch.session_id.clone(),
        poll_interval_ms,
    );
    SessionRun {
        session_id: launch.session_id,
        target: launch.target,
        bridge,
        phase: SessionPhase::Connecting,
    }
}

impl SessionPhase {
    /// Tells the session what happened.
    pub fn step(self, event: SessionEvent) -> (r: SessionPhase)
        ensures
            r == session_next(self, event),
    {
        match (self, event) {
            (SessionPhase::Connecting, SessionEvent::Connected(connected)) => {
                if connected {
                    SessionPhase::Bridging
                } else {
                    SessionPhase::ConnectFailed
                }
            },
            (SessionPhase::Bridging, SessionEvent::BridgeEnded) => SessionPhase::Finished,
            (phase, _) => phase,
        }
    }

    /// Whether the session has ended, so that it is to be cancelled.
    pub fn ended(self) -> (r: bool)
        ensures
            r == session_ended(self),
            r <==> self != SessionPhase::Connecting && self != SessionPhase::Bridging,
    {
        match self {
            SessionPhase::ConnectFailed => true,
            SessionPhase::Finished => true,
            _ => false,
        }
    }
}

/// A session after a history of events.
pub open spec fn session_run(events: Seq<SessionEvent>) -> SessionPhase
    decreases events.len(),
{
    if events.len() == 0 {
        SessionPhase::Connecting
    } else {
        session_next(session_run(events.drop_last()), events.last())
    }
}

/// How often a session has connected, or tried to, in a history.
pub open spec fn attempts(events: Seq<SessionEvent>) -> nat
    decreases events.len(),
{
    if events.len() == 0 {
        0
    } else {
        let before = attempts(events.drop_last());
        if session_run(events.drop_last()) is Connecting && events.last() is Connected {
            before + 1
        } else {
            before
        }
    }
}

/// A session connects to its target once, and tries no second time.
pub proof fn sessions_connect_once(events: Seq<SessionEvent>)
    ensures
        attempts(events) == if session_run(events) is Connecting {
            0nat
        } else {
            1nat
        },
    decreases events.len(),
{
    if events.len() > 0 {
        sessions_connect_once(events.drop_last());
    }
}

/// A session that is not connected never bridges, and one that has ended stays as it is.
pub proof fn sessions_end_for_good(phase: SessionPhase, event: SessionEvent)
    ensures
        session_ended(phase) ==> session_next(phase, event) == phase,
        session_next(phase, event) is Bridging ==> phase is Bridging || event
            == SessionEvent::Connected(true),
{
}

/// The contents of a list are its entries, as many and each at its place.
pub proof fn contents_of_lists_are_their_entries(
    sessions: Seq<SessionInfo>,
    launches: Seq<Launch>,
    session_ids: Seq<String>,
)
    ensures
        listed(sessions).len() == sessions.len(),
        forall|i: int|
            0 <= i < sessions.len() ==> {
                let entry = #[trigger] listed(sessions)[i];
                &&& entry.session_id == sessions[i].session_id@
                &&& entry.target_addr == sessions[i].target_addr@
                &&& entry.target_port == sessions[i].target_port
            },
        planned(launches).len() == launches.len(),
        forall|i: int|
            0 <= i < launches.len() ==> {
                let launch = #[trigger] planned(launches)[i];
                &&& launch.session_id == launches[i].session_id@
                &&& launch.target == launches[i].target@
            },
        ids(session_ids).len() == session_ids.len(),
        forall|i: int|
            0 <= i < session_ids.len() ==> #[trigger] ids(session_ids)[i] == session_ids[i]@,
{
}

/// An entry whose session runs starts nothing and is not passed over.  One whose session does
/// not run is started, with its address and its port as the target, if it names an address and
/// a port other than zero, and is passed over otherwise.  What ran before goes on running.
pub proof fn one_entry_is_started_or_passed_over(
    running: Set<Seq<char>>,
    session_id: Seq<char>,
    addr: Seq<char>,
    port: u16,
)
    ensures
        ({
            let list = seq![SessionInfoView { session_id, target_addr: addr, target_port: port }];
            let named = addr.len() > 0 && port > 0;
            let runs = running.contains(session_id);
            &&& new_launches(running, list) == if named && !runs {
                seq![
                    LaunchView {
                        session_id,
                        target: addr + seq![':'] + text::decimal(port as nat),
                    },
                ]
            } else {
                Seq::empty()
            }
            &&& passed_over(running, list) == if !named && !runs {
                seq![session_id]
            } else {
                Seq::empty()
            }
            &&& running_after(running, list) == if named {
                running.insert(session_id)
            } else {
                running
            }
        }),
{
    let session = SessionInfoView { session_id, target_addr: addr, target_port: port };
    let list = seq![session];
    assert(list.drop_last() =~= Seq::empty());
    assert(list.last() == session);
    let none = new_launches(running, list.drop_last());
    assert(none =~= Seq::empty());
    assert(passed_over(running, list.drop_last()) =~= Seq::empty());
    assert(running_after(running, list.drop_last()) == running);
    assert(!launches_id(none, session_id));
    assert(none.push(session.launch()) =~= seq![session.launch()]);
    assert(Seq::<Seq<char>>::empty().push(session_id) =~= seq![session_id]);
}

/// A session is launched in two lists together if it is launched in one of them.
proof fn launches_in_two_lists(a: Seq<LaunchView>, b: Seq<LaunchView>, session_id: Seq<char>)
    ensures
        launches_id(a + b, session_id) <==> launches_id(a, session_id) || launches_id(
            b,
            session_id,
        ),
{
    if launches_id(a, session_id) {
        let i = choose|i: int| 0 <= i < a.len() && (#[trigger] a[i]).session_id == session_id;
        assert((a + b)[i].session_id == session_id);
    }
    if launches_id(b, session_id) {
        let i = choose|i: int| 0 <= i < b.len() && (#[trigger] b[i]).session_id == session_id;
        assert((a + b)[a.len() + i].session_id == session_id);
    }
    if launches_id(a + b, session_id) {
        let i = choose|i: int|
            0 <= i < (a + b).len() && (#[trigger] (a + b)[i]).session_id == session_id;
        if i < a.len() {
            assert(a[i].session_id == session_id);
        } else {
            assert(b[i - a.len()].session_id == session_id);
        }
    }
}

/// It does not matter whether entries come in one list or in two, one after the other: the
/// same sessions are started, in the same order, the same are passed over, and the same run.
pub proof fn lists_may_be_split(
    running: Set<Seq<char>>,
    a: Seq<SessionInfoView>,
    b: Seq<SessionInfoView>,
)
    ensures
        running_after(running, a + b) == running_after(running_after(running, a), b),
        new_launches(running, a + b) == new_launches(running, a) + new_launches(
            running_after(running, a),
            b,
        ),
        passed_over(running, a + b) == passed_over(running, a) + passed_over(
            running_after(running, a),
            b,
        ),
    decreases b.len(),
{
    let now = running_after(running, a);
    if b.len() == 0 {
        assert(a + b =~= a);
        assert(new_launches(running, a) + Seq::<LaunchView>::empty() =~= new_launches(running, a));
        assert(passed_over(running, a) + Seq::<Seq<char>>::empty() =~= passed_over(running, a));
    } else {
        let fewer = b.drop_last();
        let last = b.last();
        assert((a + b).drop_last() =~= a + fewer);
        assert((a + b).last() == last);
        lists_may_be_split(running, a, fewer);
        running_are_old_or_launched(running, a, last.session_id);
        launches_in_two_lists(
            new_launches(running, a),
            new_launches(now, fewer),
            last.session_id,
        );
        let x = new_launches(running, a);
        let y = new_launches(now, fewer);
        assert((x + y).push(last.launch()) =~= x + y.push(last.launch()));
        let p = passed_over(running, a);
        let q = passed_over(now, fewer);
        assert((p + q).push(last.session_id) =~= p + q.push(last.session_id));
    }
}

/// Fetching after a history of events.
pub open spec fn fetch_run(events: Seq<FetchEventView>) -> FetchView
    decreases events.len(),
{
    if events.len() == 0 {
        FetchView::Requesting
    } else {
        fetch_next(fetch_run(events.drop_last()), events.last())
    }
}

/// Fetching hands on the list as it came: a reply in the two hundreds and then a list, however
/// long, end in that list, with the same entry at each place.  Every listed session that has a
/// target runs once discovery has taken it.
pub proof fn fetched_lists_are_handed_on_whole(
    status: HttpStatusView,
    sessions: Seq<SessionInfoView>,
    running: Set<Seq<char>>,
)
    requires
        status.code / 100 == 2,
    ensures
        fetch_run(
            seq![FetchEventView::Responded(status), FetchEventView::List(sessions)],
        ) matches FetchView::Fetched(list) && {
            &&& list.len() == sessions.len()
            &&& forall|k: int| 0 <= k < sessions.len() ==> #[trigger] list[k] == sessions[k]
            &&& forall|k: int|
                0 <= k < sessions.len() && (#[trigger] sessions[k]).target_addr.len() > 0
                    && sessions[k].target_port > 0 ==> running_after(running, list).contains(
                    sessions[k].session_id,
                )
        },
{
    let replied = seq![FetchEventView::Responded(status)];
    let events = seq![FetchEventView::Responded(status), FetchEventView::List(sessions)];
    assert(events.drop_last() =~= replied);
    assert(replied.drop_last() =~= Seq::empty());
    assert(fetch_run(Seq::empty()) == FetchView::Requesting);
    assert(fetch_run(replied) == FetchView::ReadingList);
    assert forall|k: int|
        0 <= k < sessions.len() && (#[trigger] sessions[k]).target_addr.len() > 0
            && sessions[k].target_port > 0 implies running_after(running, sessions).contains(
        sessions[k].session_id,
    ) by {
        listed_targets_run(running, sessions, k);
    }
}

/// Fetching ends only for its reasons, and with them: with the list that came while it was
/// read, with the reason for which the request or its reply failed, or with a status outside
/// the two hundreds.  A status in the two hundreds leads to reading the list.
pub proof fn fetching_ends_only_for_its_reasons(
    fetch: FetchView,
    event: FetchEventView,
    list: Seq<SessionInfoView>,
    said: Seq<char>,
)
    ensures
        fetch_next(fetch, event) == FetchView::Fetched(list) <==> fetch == FetchView::Fetched(list)
            || (fetch is ReadingList && event == FetchEventView::List(list)),
        fetch_next(fetch, event) == FetchView::Failed(FetchErrorView::Failed(said)) <==> fetch
            == FetchView::Failed(FetchErrorView::Failed(said)) || ((fetch is Requesting
            || fetch is ReadingList) && event == FetchEventView::Failed(said)),
        fetch_next(fetch, event) == FetchView::Failed(FetchErrorView::Status(said)) <==> fetch
            == FetchView::Failed(FetchErrorView::Status(said)) || (fetch is Requesting && (
        event matches FetchEventView::Responded(status) && status.code / 100 != 2 && status.line
            == said)),
        fetch_next(fetch, event) is ReadingList <==> (fetch is ReadingList && event is Responded)
            || (fetch is Requesting && (event matches FetchEventView::Responded(status)
            && status.code / 100 == 2)),
{
}

/// The words of a failed fetch end in what the transport or the relay said, whatever that is.
pub proof fn fetch_errors_say_their_reason(reason: Seq<char>)
    ensures
        FetchErrorView::Failed(reason).words() == reason,
        FetchErrorView::Status(reason).words() == "GET sessions returned HTTP "@ + reason,
{
}

/// A session bridges if and only if it was connecting and is now connected, until its bridge
/// ends; it has failed if and only if it could not connect; and it is finished if and only if
/// its bridge has ended.
pub proof fn sessions_run_their_course(phase: SessionPhase, event: SessionEvent)
    ensures
        session_next(phase, event) == SessionPhase::Connecting <==> phase
            == SessionPhase::Connecting && event == SessionEvent::BridgeEnded,
        session_next(phase, event) == SessionPhase::Bridging <==> (phase
            == SessionPhase::Connecting && event == SessionEvent::Connected(true)) || (phase
            == SessionPhase::Bridging && event != SessionEvent::BridgeEnded),
        session_next(phase, event) == SessionPhase::ConnectFailed <==> phase
            == SessionPhase::ConnectFailed || (phase == SessionPhase::Connecting && event
            == SessionEvent::Connected(false)),
        session_next(phase, event) == SessionPhase::Finished <==> phase == SessionPhase::Finished
            || (phase == SessionPhase::Bridging && event == SessionEvent::BridgeEnded),
{
}

} // verus!
