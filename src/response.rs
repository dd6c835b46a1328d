//! Error kinds, the outcome of an operation, and the response sent for it.

use vstd::prelude::*;

verus! {

/// Why a request failed.
#[derive(Debug, Clone, Copy, PartialEq, Eq, Structural)]
pub enum ErrorKind {
    /// The named blob does not exist.
    NotFound,
    /// The store failed to create, write or read a blob.
    IoError,
    /// The request body broke off or could not be read.
    StreamError,
    /// No free generated name was found within the attempt budget.
    ExhaustedAttempts,
    /// No operation matches the method and path.
    InvalidRoute,
}

/// What an operation produced.
#[derive(Debug, Clone, PartialEq, Eq)]
pub enum Outcome {
    /// A delete or a write that succeeded.
    Done,
    /// The contents of a blob that was read.
    Contents(Vec<u8>),
    /// The name under which a new blob was committed.
    Committed(String),
    /// The operation failed.
    Failed(ErrorKind),
}

/// The body of a response.
#[derive(Debug, Clone, PartialEq, Eq)]
pub enum Body {
    Empty,
    /// A blob's bytes, sent as `text/plain`.
    Bytes(Vec<u8>),
    /// A generated file name, sent as `text/plain`.
    Name(String),
}

/// A response: its status code and its body.
#[derive(Debug, Clone, PartialEq, Eq)]
pub struct Response {
    pub status: u16,
    pub body: Body,
}

/// A response's body as plain values.
pub enum BodyView {
    Empty,
    Bytes(Seq<u8>),
    Name(Seq<char>),
}

/// A response as plain values.
pub struct ResponseView {
    pub status: u16,
    pub body: BodyView,
}

impl View for Response {
    type V = ResponseView;

    open spec fn view(&self) -> ResponseView {
        ResponseView {
            status: self.status,
            body: match self.body {
                Body::Empty => BodyView::Empty,
                Body::Bytes(b) => BodyView::Bytes(b@),
                Body::Name(n) => BodyView::Name(n@),
            },
        }
    }
}

/// A 200 response with `body`.
pub open spec fn ok_view(body: BodyView) -> ResponseView {
    ResponseView { status: STATUS_OK, body }
}

/// The 404 response with an empty body, sent for every failure.
pub open spec fn not_found_view() -> ResponseView {
    ResponseView { status: STATUS_NOT_FOUND, body: BodyView::Empty }
}

pub const STATUS_OK: u16 = 200;

pub const STATUS_NOT_FOUND: u16 = 404;

/// The response sent for an outcome: every success is 200 with what it
/// produced, every failure is 404 with an empty body.
pub open spec fn response_for(o: Outcome) -> Response {
    match o {
        Outcome::Done => Response { status: STATUS_OK, body: Body::Empty },
        Outcome::Contents(p) => Response { status: STATUS_OK, body: Body::Bytes(p) },
        Outcome::Committed(n) => Response { status: STATUS_OK, body: Body::Name(n) },
        Outcome::Failed(_) => Response { status: STATUS_NOT_FOUND, body: Body::Empty },
    }
}

/// The response for `o`.
pub fn respond(o: Outcome) -> (r: Response)
    ensures
        r == response_for(o),
{
    match o {
        Outcome::Done => Response { status: STATUS_OK, body: Body::Empty },
        Outcome::Contents(p) => Response { status: STATUS_OK, body: Body::Bytes(p) },
        Outcome::Committed(n) => Response { status: STATUS_OK, body: Body::Name(n) },
        Outcome::Failed(_) => Response { status: STATUS_NOT_FOUND, body: Body::Empty },
    }
}

impl Response {
    /// Whether the status is 200.
    pub fn is_ok(&self) -> (r: bool)
        ensures
            r == (self.status == STATUS_OK),
    {
        self.status == STATUS_OK
    }

    /// The content type the body is sent with, if any.
    pub fn content_type(&self) -> (r: Option<&'static str>)
        ensures
            r is Some <==> !(self.body is Empty),
            r matches Some(t) ==> t@ == "text/plain"@,
    {
        match self.body {
            Body::Empty => None,
            _ => Some("text/plain"),
        }
    }
}

} // verus!
