//! What a request is answered.

use vstd::prelude::*;

verus! {

/// The identity of whoever sends a request: the common name of their client
/// certificate.
#[derive(Debug)]
pub struct PeerIdentity(pub String);

impl DeepView for PeerIdentity {
    type V = Seq<char>;

    open spec fn deep_view(&self) -> Seq<char> {
        self.0@
    }
}

/// An answer whose body, if it succeeds, is a `B`.
#[derive(Debug)]
pub enum Reply<B> {
    /// This body.
    Body { status: u16, body: B },
    /// No body.
    Empty { status: u16 },
    /// An error, as a JSON object with this message under `error`.
    Error { status: u16, message: String },
}

/// The model of an answer.
pub enum ReplyView<V> {
    Body { status: u16, body: V },
    Empty { status: u16 },
    Error { status: u16, message: Seq<char> },
}

impl<B: DeepView> DeepView for Reply<B> {
    type V = ReplyView<B::V>;

    open spec fn deep_view(&self) -> ReplyView<B::V> {
        match *self {
            Reply::Body { status, body } => ReplyView::Body { status, body: body.deep_view() },
            Reply::Empty { status } => ReplyView::Empty { status },
            Reply::Error { status, message } => ReplyView::Error { status, message: message@ },
        }
    }
}

impl<B> Reply<B> {
    /// The status of the answer.
    pub open spec fn status_spec(&self) -> u16 {
        match *self {
            Reply::Body { status, .. } => status,
            Reply::Empty { status } => status,
            Reply::Error { status, .. } => status,
        }
    }

    /// The HTTP status.
    pub fn status(&self) -> (res: u16)
        ensures
            res == self.status_spec(),
    {
        match self {
            Reply::Body { status, .. } => *status,
            Reply::Empty { status } => *status,
            Reply::Error { status, .. } => *status,
        }
    }
}

/// An error answer.
pub fn error_reply<B: DeepView>(status: u16, message: &str) -> (res: Reply<B>)
    ensures
        res.deep_view() == (ReplyView::<B::V>::Error { status, message: message@ }),
{
    Reply::Error { status, message: message.to_owned() }
}

} // verus!
