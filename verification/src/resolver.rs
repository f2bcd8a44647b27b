//! The static resolver: which file a route serves, and the reply once the
//! caller has tried to open it.
//!
//! A file that is missing and a file that cannot be read are not told apart:
//! either way the reply is an empty one, with the status of a success.

use crate::path::{path_extension, path_extension_of, resolve, resolved, views};
use crate::reply::{held, Action, ActionView, Reply, ReplyView, OK};
use rocket_http::ContentType;
use vstd::prelude::*;
use vstd::string::{StrSliceExecFns, StringSliceAdditionalSpecFns};

verus! {

/// The base directory of the static tree.
pub const CONTENT_ROOT: &'static str = "./static/";

/// The base directory of the assets subtree.
pub const ASSETS_ROOT: &'static str = "./static/assets/";

/// The default document.
pub const DEFAULT_DOCUMENT: &'static str = "./static/index.html";

/// The content type that `rocket_http::ContentType::from_extension` knows
/// for a file extension, written out as a header value, if it knows one.
pub uninterp spec fn extension_content_type(extension: Seq<u8>) -> Option<Seq<u8>>;

/// Calls `rocket_http::ContentType::from_extension` on the extension, read
/// as text, and writes the content type it finds out as a header value. The
/// result depends on the extension alone.
#[verifier::external_body]
fn content_type_from_extension(extension: &[u8]) -> (found: Option<Vec<u8>>)
    ensures
        held(found) == extension_content_type(extension@),
{
    let text = String::from_utf8_lossy(extension);
    match ContentType::from_extension(&text) {
        Some(content_type) => Some(content_type.to_string().into_bytes()),
        None => None,
    }
}

/// `GET /`: opens the default document.
pub fn index() -> (action: Action)
    ensures
        action@ == (ActionView::Open { path: DEFAULT_DOCUMENT.spec_bytes() }),
{
    Action::Open { path: DEFAULT_DOCUMENT.as_bytes_vec() }
}

/// The catch-all `GET`: opens the default document.
pub fn index_route() -> (action: Action)
    ensures
        action@ == (ActionView::Open { path: DEFAULT_DOCUMENT.spec_bytes() }),
{
    Action::Open { path: DEFAULT_DOCUMENT.as_bytes_vec() }
}

/// `GET /static/<file..>`: opens the captured file below the static tree.
pub fn files(file: Vec<Vec<u8>>) -> (action: Action)
    ensures
        action@ == (ActionView::Open { path: resolved(CONTENT_ROOT.spec_bytes(), views(file@)) }),
{
    Action::Open { path: resolve(CONTENT_ROOT.as_bytes(), file.as_slice()) }
}

/// `GET /assets/<file..>`: opens the captured file below the assets subtree.
pub fn assets(file: Vec<Vec<u8>>) -> (action: Action)
    ensures
        action@ == (ActionView::Open { path: resolved(ASSETS_ROOT.spec_bytes(), views(file@)) }),
{
    Action::Open { path: resolve(ASSETS_ROOT.as_bytes(), file.as_slice()) }
}

/// The reply for a file of a known content type, if any, once the caller has
/// tried to open it: its bytes, with that content type, or nothing at all.
pub open spec fn file_reply_of(content_type: Option<Seq<u8>>, opened: Option<Seq<u8>>) -> ReplyView {
    match opened {
        Some(bytes) => ReplyView { status: OK, content_type, body: bytes },
        None => ReplyView { status: OK, content_type: None, body: Seq::empty() },
    }
}

/// Builds the reply for a file from its content type and from what opening it
/// gave: `Some` with the file's bytes, or `None` where it could not be had.
pub fn file_reply(content_type: Option<Vec<u8>>, opened: Option<Vec<u8>>) -> (reply: Reply)
    ensures
        reply@ == file_reply_of(held(content_type), held(opened)),
{
    match opened {
        Some(bytes) => Reply { status: OK, content_type, body: bytes },
        None => Reply { status: OK, content_type: None, body: Vec::new() },
    }
}

/// The content type of the file that a path names, by its extension.
pub open spec fn content_type_of(path: Seq<u8>) -> Option<Seq<u8>> {
    match path_extension_of(path) {
        Some(extension) => extension_content_type(extension),
        None => None,
    }
}

/// The reply for the file at `path`, given what opening it gave.
pub open spec fn served(path: Seq<u8>, opened: Option<Seq<u8>>) -> ReplyView {
    file_reply_of(content_type_of(path), opened)
}

/// Builds the reply for the file at `path` from what opening it gave: `Some`
/// with the file's bytes, or `None` where it is missing or could not be read.
pub fn serve(path: &[u8], opened: Option<Vec<u8>>) -> (reply: Reply)
    ensures
        reply@ == served(path@, held(opened)),
{
    match opened {
        Some(bytes) => {
            let content_type = match path_extension(path) {
                Some(extension) => content_type_from_extension(extension.as_slice()),
                None => None,
            };
            file_reply(content_type, Some(bytes))
        },
        None => file_reply(None, None),
    }
}

} // verus!
