//! The upload acceptor: where an uploaded document goes, and the fixed reply.
//!
//! Every upload goes to the same file, so a later one replaces an earlier one.
//! The reply is the same whether or not the write went through.

use crate::reply::{Action, ActionView, Reply, ReplyView, ACCEPTED};
use vstd::prelude::*;
use vstd::string::{StrSliceExecFns, StringSliceAdditionalSpecFns};

verus! {

/// The file that every upload is written to.
pub const UPLOAD_TARGET: &'static str = "./.data/resumes/0.pdf";

/// The body of the reply to an upload.
pub const THANKS: &'static str = "Thank You!";

/// The content type of the reply to an upload.
pub const PLAIN_TEXT: &'static str = "text/plain; charset=utf-8";

/// `POST /new_resume`: stores the uploaded document at the upload target,
/// whatever the sender details say.
#[allow(unused_variables)]
pub fn new_resume(name: &[u8], email: &[u8], other: &[u8], file: Vec<u8>) -> (action: Action)
    ensures
        action@ == (ActionView::Persist { path: UPLOAD_TARGET.spec_bytes(), bytes: file@ }),
{
    Action::Persist { path: UPLOAD_TARGET.as_bytes_vec(), bytes: file }
}

/// The reply to an upload.
pub open spec fn acknowledgement() -> ReplyView {
    ReplyView {
        status: ACCEPTED,
        content_type: Some(PLAIN_TEXT.spec_bytes()),
        body: THANKS.spec_bytes(),
    }
}

/// Builds the reply to an upload. `written` says whether the write went
/// through; the reply does not depend on it.
#[allow(unused_variables)]
pub fn accepted(written: bool) -> (reply: Reply)
    ensures
        reply@ == acknowledgement(),
{
    Reply {
        status: ACCEPTED,
        content_type: Some(PLAIN_TEXT.as_bytes_vec()),
        body: THANKS.as_bytes_vec(),
    }
}

} // verus!
