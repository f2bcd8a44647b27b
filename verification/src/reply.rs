//! What a handler asks of the caller, and what it answers with.

use vstd::prelude::*;

verus! {

/// The status of a reply that serves a file, or the lack of one.
pub const OK: u16 = 200;

/// The status of the reply to an upload.
pub const ACCEPTED: u16 = 202;

/// The byte string that an optional owned byte string holds.
pub open spec fn held(bytes: Option<Vec<u8>>) -> Option<Seq<u8>> {
    match bytes {
        Some(bytes) => Some(bytes@),
        None => None,
    }
}

/// The one step of input or output that a request calls for. The caller takes
/// the step and hands back how it went.
#[derive(Debug, PartialEq, Eq)]
pub enum Action {
    /// Open the regular file at `path` and read it.
    Open { path: Vec<u8> },
    /// Create or truncate the file at `path` and write `bytes` to it.
    Persist { path: Vec<u8>, bytes: Vec<u8> },
    /// Touch nothing: the request was not routed, and is answered as not found.
    Refuse,
}

/// What an `Action` holds.
pub enum ActionView {
    Open { path: Seq<u8> },
    Persist { path: Seq<u8>, bytes: Seq<u8> },
    Refuse,
}

impl View for Action {
    type V = ActionView;

    open spec fn view(&self) -> ActionView {
        match *self {
            Action::Open { path } => ActionView::Open { path: path@ },
            Action::Persist { path, bytes } => ActionView::Persist { path: path@, bytes: bytes@ },
            Action::Refuse => ActionView::Refuse,
        }
    }
}

/// A response before the cross-origin stage: status, content type and body.
#[derive(Debug, PartialEq, Eq)]
pub struct Reply {
    pub status: u16,
    pub content_type: Option<Vec<u8>>,
    pub body: Vec<u8>,
}

/// What a `Reply` holds.
pub struct ReplyView {
    pub status: u16,
    pub content_type: Option<Seq<u8>>,
    pub body: Seq<u8>,
}

impl View for Reply {
    type V = ReplyView;

    open spec fn view(&self) -> ReplyView {
        ReplyView { status: self.status, content_type: held(self.content_type), body: self.body@ }
    }
}

} // verus!
