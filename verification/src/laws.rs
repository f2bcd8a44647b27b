//! What holds of the gateway as a whole, stated over a model of the disk.
//!
//! The gateway never touches a disk itself. These laws say what a caller sees
//! who carries out each action on a disk that does as it is told: the files
//! that can be opened are a map from path to contents, opening a path that the
//! map lacks gives nothing, and a write that goes through replaces the
//! contents at its path.

use crate::cors::{
    field_key, lemma_cors_headers_present, ALLOW_CREDENTIALS, ALLOW_HEADERS, ALLOW_METHODS,
    ALLOW_ORIGIN, ANY, CREDENTIALS, METHODS,
};
use crate::gateway::{plan_of, Gateway};
use crate::path::{
    capture_of, is_plain_name, is_segment, joined, lemma_capture_is_plain, lemma_capture_of_plain,
    lemma_segments_of_concat, lemma_segments_of_joined, lemma_segments_of_segment, resolved,
    segments_of, SLASH,
};
use crate::reply::{ActionView, ReplyView, OK};
use crate::resolver::{served, ASSETS_ROOT, CONTENT_ROOT, DEFAULT_DOCUMENT};
use crate::router::{
    declares_pdf, is_upload_path, route_of, Method, RouteView, ASSETS, NEW_RESUME, STATIC,
};
use crate::upload::{acknowledgement, THANKS, UPLOAD_TARGET};
use vstd::prelude::*;
use vstd::string::{is_ascii_spec_bytes, StringSliceAdditionalSpecFns};

verus! {

/// The files that can be opened and read, by path.
pub type Disk = Map<Seq<u8>, Seq<u8>>;

/// What opening a path gives: the file's bytes, or nothing.
pub open spec fn opened(disk: Disk, path: Seq<u8>) -> Option<Seq<u8>> {
    if disk.contains_key(path) {
        Some(disk[path])
    } else {
        None
    }
}

/// The disk once an action has been carried out in full.
pub open spec fn disk_after(disk: Disk, action: ActionView) -> Disk {
    match action {
        ActionView::Persist { path, bytes } => disk.insert(path, bytes),
        _ => disk,
    }
}

/// The reply that follows an action carried out on a disk; none where the
/// request was refused.
pub open spec fn reply_after(disk: Disk, action: ActionView) -> Option<ReplyView> {
    match action {
        ActionView::Open { path } => Some(served(path, opened(disk, path))),
        ActionView::Persist { path, bytes } => Some(acknowledgement()),
        ActionView::Refuse => None,
    }
}

/// The action that a request calls for.
pub open spec fn action_of(
    method: Method,
    path: Seq<u8>,
    content_type: Option<Seq<u8>>,
    body: Seq<u8>,
) -> ActionView {
    plan_of(route_of(method, path, content_type), body)
}

/// The path `/first/rest..`, written out.
pub open spec fn path_under(first: Seq<u8>, rest: Seq<Seq<u8>>) -> Seq<u8> {
    seq![SLASH] + first + seq![SLASH] + joined(rest)
}

/// The empty reply: the status of a success, no content type, no body.
pub open spec fn empty_reply() -> ReplyView {
    ReplyView { status: OK, content_type: None, body: Seq::empty() }
}

/// The three fixed first segments are segments, and no two are the same.
pub proof fn lemma_route_names()
    ensures
        is_segment(STATIC.spec_bytes()),
        is_segment(ASSETS.spec_bytes()),
        is_segment(NEW_RESUME.spec_bytes()),
        STATIC.spec_bytes() != ASSETS.spec_bytes(),
        STATIC.spec_bytes() != NEW_RESUME.spec_bytes(),
        ASSETS.spec_bytes() != NEW_RESUME.spec_bytes(),
{
    reveal_strlit("static");
    reveal_strlit("assets");
    reveal_strlit("new_resume");
    is_ascii_spec_bytes(STATIC);
    is_ascii_spec_bytes(ASSETS);
    is_ascii_spec_bytes(NEW_RESUME);
    assert(STATIC.spec_bytes().len() == 6);
    assert(ASSETS.spec_bytes().len() == 6);
    assert(NEW_RESUME.spec_bytes().len() == 10);
    assert(STATIC.spec_bytes()[0] == 115);
    assert(ASSETS.spec_bytes()[0] == 97);
}

/// The path `/first/rest..` has the segments `first`, `rest..`.
pub proof fn lemma_segments_of_path_under(first: Seq<u8>, rest: Seq<Seq<u8>>)
    requires
        is_segment(first),
        forall|k: int| 0 <= k < rest.len() ==> is_segment(#[trigger] rest[k]),
    ensures
        segments_of(path_under(first, rest)) == seq![first] + rest,
{
    let nothing = Seq::<u8>::empty();
    lemma_segments_of_concat(nothing, first);
    lemma_segments_of_segment(first);
    assert(nothing + seq![SLASH] + first == seq![SLASH] + first);
    assert(segments_of(nothing) + seq![first] == seq![first]);
    lemma_segments_of_concat(seq![SLASH] + first, joined(rest));
    lemma_segments_of_joined(rest);
}

/// A file of the static tree is served as it is: where `file` is made of
/// plain names and the disk holds a file at its place below the content root,
/// `GET /static/file` is answered with exactly that file's bytes.
pub proof fn lemma_static_file_is_served(
    disk: Disk,
    file: Seq<Seq<u8>>,
    content_type: Option<Seq<u8>>,
    body: Seq<u8>,
)
    requires
        forall|k: int| 0 <= k < file.len() ==> is_plain_name(#[trigger] file[k]),
        disk.contains_key(resolved(CONTENT_ROOT.spec_bytes(), file)),
    ensures
        ({
            let place = resolved(CONTENT_ROOT.spec_bytes(), file);
            let action = action_of(
                Method::Get,
                path_under(STATIC.spec_bytes(), file),
                content_type,
                body,
            );
            &&& action == (ActionView::Open { path: place })
            &&& reply_after(disk, action) matches Some(reply)
            &&& reply.status == OK
            &&& reply.body == disk[place]
        }),
{
    lemma_route_names();
    lemma_segments_of_path_under(STATIC.spec_bytes(), file);
    lemma_capture_of_plain(file);
    let segments = segments_of(path_under(STATIC.spec_bytes(), file));
    assert(segments.skip(1) == file);
}

/// The same for the assets subtree: `GET /assets/file` is answered with
/// exactly the bytes of the file at its place below the assets root.
pub proof fn lemma_asset_file_is_served(
    disk: Disk,
    file: Seq<Seq<u8>>,
    content_type: Option<Seq<u8>>,
    body: Seq<u8>,
)
    requires
        forall|k: int| 0 <= k < file.len() ==> is_plain_name(#[trigger] file[k]),
        disk.contains_key(resolved(ASSETS_ROOT.spec_bytes(), file)),
    ensures
        ({
            let place = resolved(ASSETS_ROOT.spec_bytes(), file);
            let action = action_of(
                Method::Get,
                path_under(ASSETS.spec_bytes(), file),
                content_type,
                body,
            );
            &&& action == (ActionView::Open { path: place })
            &&& reply_after(disk, action) matches Some(reply)
            &&& reply.status == OK
            &&& reply.body == disk[place]
        }),
{
    lemma_route_names();
    lemma_segments_of_path_under(ASSETS.spec_bytes(), file);
    lemma_capture_of_plain(file);
    let segments = segments_of(path_under(ASSETS.spec_bytes(), file));
    assert(segments.skip(1) == file);
}

/// Every `GET` opens one file and is answered, whatever the path.
pub proof fn lemma_get_opens(path: Seq<u8>, content_type: Option<Seq<u8>>, body: Seq<u8>)
    ensures
        (action_of(Method::Get, path, content_type, body) is Open),
{
}

/// A file that is not there is answered with the empty reply: where the file
/// that a `GET` opens cannot be had, the reply has the status of a success
/// and neither content type nor body.
pub proof fn lemma_missing_file_is_empty(
    disk: Disk,
    path: Seq<u8>,
    content_type: Option<Seq<u8>>,
    body: Seq<u8>,
)
    requires
        !disk.contains_key(action_of(Method::Get, path, content_type, body)->Open_path),
    ensures
        reply_after(disk, action_of(Method::Get, path, content_type, body)) == Some(empty_reply()),
{
}

/// `GET /` and every `GET` that neither the static tree nor the assets
/// subtree takes open the default document, and so are answered alike.
pub proof fn lemma_default_document(
    disk: Disk,
    path: Seq<u8>,
    content_type: Option<Seq<u8>>,
    body: Seq<u8>,
)
    requires
        !takes_capture(segments_of(path)),
    ensures
        (route_of(Method::Get, seq![SLASH], None) is Index),
        action_of(Method::Get, path, content_type, body) == (ActionView::Open {
            path: DEFAULT_DOCUMENT.spec_bytes(),
        }),
        reply_after(disk, action_of(Method::Get, path, content_type, body)) == reply_after(
            disk,
            action_of(Method::Get, seq![SLASH], None, Seq::empty()),
        ),
        disk.contains_key(DEFAULT_DOCUMENT.spec_bytes()) ==> reply_after(
            disk,
            action_of(Method::Get, path, content_type, body),
        )->0.body == disk[DEFAULT_DOCUMENT.spec_bytes()],
{
    let root = seq![SLASH];
    assert(root.drop_first() == Seq::<u8>::empty());
    assert(segments_of(root.drop_first()).len() == 0);
    assert(segments_of(root).len() == 0);
}

/// Whether the static tree or the assets subtree takes a path with these
/// segments: the first names one of the two, and the rest can be captured.
pub open spec fn takes_capture(segments: Seq<Seq<u8>>) -> bool {
    &&& segments.len() > 0
    &&& segments[0] == STATIC.spec_bytes() || segments[0] == ASSETS.spec_bytes()
    &&& capture_of(segments.skip(1)) is Some
}

/// A `GET` falls to the catch-all, and so to the default document, where its
/// path starts with neither `static` nor `assets`, and also where it does but
/// what follows cannot be captured.
pub proof fn lemma_catch_all(path: Seq<u8>, content_type: Option<Seq<u8>>)
    requires
        segments_of(path).len() > 0,
        !takes_capture(segments_of(path)),
    ensures
        (route_of(Method::Get, path, content_type) is IndexRoute),
{
}

/// No `GET` leaves its base directory: the file it opens is the default
/// document, or lies below the content root or the assets root along plain
/// names only.
pub proof fn lemma_get_stays_below_root(
    path: Seq<u8>,
    content_type: Option<Seq<u8>>,
    body: Seq<u8>,
)
    ensures
        ({
            let opens = action_of(Method::Get, path, content_type, body)->Open_path;
            ||| opens == DEFAULT_DOCUMENT.spec_bytes()
            ||| exists|file: Seq<Seq<u8>>|
                {
                    &&& (forall|k: int| 0 <= k < file.len() ==> is_plain_name(#[trigger] file[k]))
                    &&& (opens == resolved(CONTENT_ROOT.spec_bytes(), file) || opens == resolved(
                        ASSETS_ROOT.spec_bytes(),
                        file,
                    ))
                }
        }),
{
    let segments = segments_of(path);
    match route_of(Method::Get, path, content_type) {
        RouteView::Files { file } => {
            lemma_capture_is_plain(segments.skip(1));
            assert(forall|k: int| 0 <= k < file.len() ==> is_plain_name(#[trigger] file[k]));
        },
        RouteView::Assets { file } => {
            lemma_capture_is_plain(segments.skip(1));
            assert(forall|k: int| 0 <= k < file.len() ==> is_plain_name(#[trigger] file[k]));
        },
        _ => {},
    }
}

/// An upload is accepted and stored: a `POST` to an upload path that declares
/// a PDF is answered with the acknowledgement, whose status is 202 and whose
/// body is `Thank You!`, and once the write has gone through the upload
/// target holds exactly the posted bytes.
pub proof fn lemma_upload_is_stored(
    disk: Disk,
    path: Seq<u8>,
    content_type: Seq<u8>,
    body: Seq<u8>,
)
    requires
        is_upload_path(segments_of(path)),
        declares_pdf(content_type),
    ensures
        action_of(Method::Post, path, Some(content_type), body) == (ActionView::Persist {
            path: UPLOAD_TARGET.spec_bytes(),
            bytes: body,
        }),
        reply_after(disk, action_of(Method::Post, path, Some(content_type), body)) == Some(
            acknowledgement(),
        ),
        acknowledgement().status == 202,
        acknowledgement().body == THANKS.spec_bytes(),
        opened(
            disk_after(disk, action_of(Method::Post, path, Some(content_type), body)),
            UPLOAD_TARGET.spec_bytes(),
        ) == Some(body),
{
}

/// `/new_resume` is an upload path, and so is `/new_resume/name/email/other`
/// for any three segments.
pub proof fn lemma_upload_paths(name: Seq<u8>, email: Seq<u8>, other: Seq<u8>)
    requires
        is_segment(name),
        is_segment(email),
        is_segment(other),
    ensures
        is_upload_path(segments_of(seq![SLASH] + NEW_RESUME.spec_bytes())),
        is_upload_path(segments_of(path_under(NEW_RESUME.spec_bytes(), seq![name, email, other]))),
{
    lemma_route_names();
    let nothing = Seq::<u8>::empty();
    let first = NEW_RESUME.spec_bytes();
    lemma_segments_of_concat(nothing, first);
    lemma_segments_of_segment(first);
    assert(nothing + seq![SLASH] + first == seq![SLASH] + first);
    assert(segments_of(nothing) + seq![first] == seq![first]);
    lemma_segments_of_path_under(first, seq![name, email, other]);
}

/// The last upload wins: of two uploads carried out one after the other, both
/// are acknowledged, and afterwards the upload target holds the bytes of the
/// second and nothing of the first.
pub proof fn lemma_last_upload_wins(
    disk: Disk,
    first_path: Seq<u8>,
    first_type: Seq<u8>,
    first_body: Seq<u8>,
    second_path: Seq<u8>,
    second_type: Seq<u8>,
    second_body: Seq<u8>,
)
    requires
        is_upload_path(segments_of(first_path)),
        declares_pdf(first_type),
        is_upload_path(segments_of(second_path)),
        declares_pdf(second_type),
    ensures
        ({
            let first = action_of(Method::Post, first_path, Some(first_type), first_body);
            let second = action_of(Method::Post, second_path, Some(second_type), second_body);
            let between = disk_after(disk, first);
            &&& reply_after(disk, first) == Some(acknowledgement())
            &&& reply_after(between, second) == Some(acknowledgement())
            &&& opened(disk_after(between, second), UPLOAD_TARGET.spec_bytes()) == Some(second_body)
            &&& disk_after(between, second) == disk_after(disk, second)
        }),
{
    let first = action_of(Method::Post, first_path, Some(first_type), first_body);
    let second = action_of(Method::Post, second_path, Some(second_type), second_body);
    assert(disk_after(disk_after(disk, first), second) =~= disk_after(disk, second));
}

/// What the router does not recognise is refused: a request is refused exactly
/// where it is neither a `GET` nor a `POST` to an upload path that declares a
/// PDF, and a refused request opens no file, stores nothing and gets no reply
/// from a handler.
pub proof fn lemma_unrouted_is_refused(
    disk: Disk,
    method: Method,
    path: Seq<u8>,
    content_type: Option<Seq<u8>>,
    body: Seq<u8>,
)
    ensures
        action_of(method, path, content_type, body) is Refuse <==> !(method is Get) && !(method is Post
            && content_type is Some && declares_pdf(content_type->0) && is_upload_path(
            segments_of(path),
        )),
        action_of(method, path, content_type, body) is Refuse <==> route_of(
            method,
            path,
            content_type,
        ) is NotFound,
        action_of(method, path, content_type, body) is Refuse ==> {
            &&& reply_after(disk, action_of(method, path, content_type, body)) is None
            &&& disk_after(disk, action_of(method, path, content_type, body)) == disk
        },
{
}

/// With the cross-origin stage active, every response leaves with all four
/// cross-origin fields, each holding exactly its one fixed value, whatever
/// fields the handler gave it: those of a served file, of an empty reply or of
/// an acknowledgement.
pub proof fn lemma_active_cors_marks_every_response(
    gateway: Gateway,
    before: Map<Seq<char>, Seq<Seq<char>>>,
)
    requires
        gateway.cors is Some,
    ensures
        gateway.headers_after(before).contains_key(field_key(ALLOW_ORIGIN@)),
        gateway.headers_after(before)[field_key(ALLOW_ORIGIN@)] == seq![ANY@],
        gateway.headers_after(before).contains_key(field_key(ALLOW_METHODS@)),
        gateway.headers_after(before)[field_key(ALLOW_METHODS@)] == seq![METHODS@],
        gateway.headers_after(before).contains_key(field_key(ALLOW_HEADERS@)),
        gateway.headers_after(before)[field_key(ALLOW_HEADERS@)] == seq![ANY@],
        gateway.headers_after(before).contains_key(field_key(ALLOW_CREDENTIALS@)),
        gateway.headers_after(before)[field_key(ALLOW_CREDENTIALS@)] == seq![CREDENTIALS@],
{
    lemma_cors_headers_present(before);
}

/// Serving a file writes nothing: a `GET` leaves the disk as it was.
pub proof fn lemma_get_writes_nothing(
    disk: Disk,
    path: Seq<u8>,
    content_type: Option<Seq<u8>>,
    body: Seq<u8>,
)
    ensures
        disk_after(disk, action_of(Method::Get, path, content_type, body)) == disk,
{
}

} // verus!
