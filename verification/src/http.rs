//! The little of HTTP that decisions rest on.
use vstd::prelude::*;

verus! {

/// How long one request may take, in seconds.
pub const REQUEST_TIMEOUT_SECS: u64 = 10;

/// The method of a request.
#[derive(Debug, Clone, Copy, PartialEq, Eq, Structural)]
pub enum HttpMethod {
    Get,
    Post,
}

/// The status of a reply: its code, and how it is written in messages.
#[derive(Debug, PartialEq, Eq)]
pub struct HttpStatus {
    pub code: u16,
    pub line: String,
}

/// What an [`HttpStatus`] holds.
pub struct HttpStatusView {
    pub code: u16,
    pub line: Seq<char>,
}

impl View for HttpStatus {
    type V = HttpStatusView;

    open spec fn view(&self) -> HttpStatusView {
        HttpStatusView { code: self.code, line: self.line@ }
    }
}

/// Whether a status code is in the success class.
pub open spec fn success_code(code: u16) -> bool {
    200 <= code < 300
}

impl HttpStatus {
    /// Whether the reply reports success.
    pub fn is_success(&self) -> (r: bool)
        ensures
            r == success_code(self@.code),
            r <==> self.code / 100 == 2,
    {
        200 <= self.code && self.code < 300
    }
}

/// The codes of success are those in the two hundreds.
pub proof fn success_is_in_the_two_hundreds(code: u16)
    ensures
        success_code(code) <==> code / 100 == 2,
{
}

} // verus!
