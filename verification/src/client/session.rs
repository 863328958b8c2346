//! Asking the relay for a session.
use vstd::prelude::*;
use vstd::string::*;

use crate::text;

verus! {

/// The request for a session: where it is posted, and the target that it names.
#[derive(Debug, PartialEq, Eq)]
pub struct CreateSessionRequest {
    pub url: String,
    pub target_addr: String,
    pub target_port: u16,
}

/// The relay's answer to a request for a session.
#[derive(Debug, PartialEq, Eq)]
pub struct CreateSessionResponse {
    pub session_id: Option<String>,
    pub error: Option<String>,
}

/// What a [`CreateSessionResponse`] holds.
pub struct CreateSessionResponseView {
    pub session_id: Option<Seq<char>>,
    pub error: Option<Seq<char>>,
}

/// The text in an optional string.
pub open spec fn text_of(s: Option<String>) -> Option<Seq<char>> {
    match s {
        Some(s) => Some(s@),
        None => None,
    }
}

impl View for CreateSessionResponse {
    type V = CreateSessionResponseView;

    open spec fn view(&self) -> CreateSessionResponseView {
        CreateSessionResponseView {
            session_id: text_of(self.session_id),
            error: text_of(self.error),
        }
    }
}

/// Why there is no session.
#[derive(Debug, PartialEq, Eq)]
pub enum SessionError {
    /// No HTTP client could be made, for this reason.
    Client(String),
    /// The request could not be sent, or no reply came.
    Request,
    /// The reply reports a status that is no success.
    Status { line: String, body: String },
    /// The reply is not the JSON that is asked for.
    Body,
    /// The relay refuses, for this reason.
    Refused(String),
    /// The relay names no session.
    MissingId,
}

/// What a [`SessionError`] holds.
pub enum SessionErrorView {
    Client(Seq<char>),
    Request,
    Status { line: Seq<char>, body: Seq<char> },
    Body,
    Refused(Seq<char>),
    MissingId,
}

impl View for SessionError {
    type V = SessionErrorView;

    open spec fn view(&self) -> SessionErrorView {
        match self {
            SessionError::Client(reason) => SessionErrorView::Client(reason@),
            SessionError::Request => SessionErrorView::Request,
            SessionError::Status { line, body } => SessionErrorView::Status {
                line: line@,
                body: body@,
            },
            SessionError::Body => SessionErrorView::Body,
            SessionError::Refused(reason) => SessionErrorView::Refused(reason@),
            SessionError::MissingId => SessionErrorView::MissingId,
        }
    }
}

impl SessionErrorView {
    /// The error in words.
    pub open spec fn words(self) -> Seq<char> {
        match self {
            SessionErrorView::Client(reason) => reason,
            SessionErrorView::Request => "Failed to POST /session/create"@,
            SessionErrorView::Status { line, body } => "POST /session/create returned HTTP "@ + line
                + ": "@ + body,
            SessionErrorView::Body => "Failed to parse /session/create response"@,
            SessionErrorView::Refused(reason) => "Server refused session: "@ + reason,
            SessionErrorView::MissingId => "Server returned success but no session_id"@,
        }
    }
}

impl SessionError {
    /// The error in words.
    pub fn message(&self) -> (r: String)
        ensures
            r@ == self@.words(),
            self matches SessionError::Client(reason) ==> r@ == reason@,
            self matches SessionError::Refused(reason) ==> r@ == "Server refused session: "@
                + reason@,
            self matches SessionError::Status { line, body } ==> r@
                == "POST /session/create returned HTTP "@ + line@ + ": "@ + body@,
    {
        match self {
            SessionError::Client(reason) => reason.clone(),
            SessionError::Request => "Failed to POST /session/create".to_owned(),
            SessionError::Status { line, body } => {
                let mut r = "POST /session/create returned HTTP ".to_owned();
                r.append(line.as_str());
                r.append(": ");
                r.append(body.as_str());
                r
            },
            SessionError::Body => "Failed to parse /session/create response".to_owned(),
            SessionError::Refused(reason) => {
                let mut r = "Server refused session: ".to_owned();
                r.append(reason.as_str());
                r
            },
            SessionError::MissingId => "Server returned success but no session_id".to_owned(),
        }
    }
}

/// Where sessions are asked for.
pub open spec fn create_url(bridge_url: Seq<char>) -> Seq<char> {
    text::without_trailing_slashes(bridge_url) + "/session/create"@
}

/// The request for a session to `target_addr` and `target_port`.
pub fn create_request(bridge_url: &str, target_addr: &str, target_port: u16) -> (r:
    CreateSessionRequest)
    ensures
        r.url@ == create_url(bridge_url@),
        r.target_addr@ == target_addr@,
        r.target_port == target_port,
{
    let mut url = text::trim_trailing_slashes(bridge_url);
    url.append("/session/create");
    CreateSessionRequest { url, target_addr: target_addr.to_owned(), target_port }
}

/// What the relay's answer means: a session's id, or why there is none.  An error that it
/// names counts, whatever else it says.
pub open spec fn answered(response: CreateSessionResponseView) -> Result<
    Seq<char>,
    SessionErrorView,
> {
    match (response.error, response.session_id) {
        (Some(reason), _) => Err(SessionErrorView::Refused(reason)),
        (None, Some(id)) => Ok(id),
        (None, None) => Err(SessionErrorView::MissingId),
    }
}

/// The id of the session that the relay created, or why there is none.
pub fn create_session(response: CreateSessionResponse) -> (r: Result<String, SessionError>)
    ensures
        match r {
            Ok(id) => answered(response@) == Ok::<Seq<char>, SessionErrorView>(id@),
            Err(e) => answered(response@) == Err::<Seq<char>, SessionErrorView>(e@),
        },
        r is Ok <==> response.error is None && response.session_id is Some,
        r matches Ok(id) ==> response.session_id == Some(id),
        response.error matches Some(reason) ==> r == Err::<String, SessionError>(
            SessionError::Refused(reason),
        ),
        response.error is None && response.session_id is None ==> r == Err::<String, SessionError>(
            SessionError::MissingId,
        ),
{
    match response.error {
        Some(reason) => Err(SessionError::Refused(reason)),
        None => match response.session_id {
            Some(id) => Ok(id),
            None => Err(SessionError::MissingId),
        },
    }
}

/// A session is had if and only if the relay names no error and names a session, and then it
/// is that session.  An error that the relay names is the outcome, with or without a session
/// beside it.
pub proof fn sessions_are_had_only_without_an_error(response: CreateSessionResponseView)
    ensures
        answered(response) is Ok <==> response.error is None && response.session_id is Some,
        answered(response) matches Ok(id) ==> response.session_id == Some(id),
        response.error matches Some(reason) ==> answered(response) == Err::<
            Seq<char>,
            SessionErrorView,
        >(SessionErrorView::Refused(reason)),
        response.error is None && response.session_id is None ==> answered(response) == Err::<
            Seq<char>,
            SessionErrorView,
        >(SessionErrorView::MissingId),
{
}

/// The words of an error end in what the relay or the transport said, whatever that is.
pub proof fn session_errors_say_their_reason(a: Seq<char>, b: Seq<char>)
    ensures
        SessionErrorView::Client(a).words() == a,
        SessionErrorView::Refused(a).words() == "Server refused session: "@ + a,
        (SessionErrorView::Status { line: a, body: b }).words()
            == "POST /session/create returned HTTP "@ + a + ": "@ + b,
{
}

} // verus!
