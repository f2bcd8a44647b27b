//! The router: which handler, if any, a request goes to.
//!
//! Five patterns are recognised, tried from the most specific to the least:
//! `GET /`, `GET /static/<file..>`, `GET /assets/<file..>`, the catch-all
//! `GET /<_..>`, and `POST /new_resume` with or without three segments of
//! sender details, for a body declared as PDF. Nothing else is routed.

use crate::path::{capture, capture_of, segments_of, split_segments, views};
use crate::path::bytes_equal;
use vstd::prelude::*;
use vstd::slice::slice_to_vec;
use vstd::string::StringSliceAdditionalSpecFns;

verus! {

/// The first segment of the paths that serve the static tree.
pub const STATIC: &'static str = "static";

/// The first segment of the paths that serve the assets subtree.
pub const ASSETS: &'static str = "assets";

/// The first segment of the upload paths.
pub const NEW_RESUME: &'static str = "new_resume";

/// The one media type that an upload may declare.
pub const PDF: &'static str = "application/pdf";

/// `;`
pub const SEMICOLON: u8 = 59;

/// A space.
pub const SPACE: u8 = 32;

/// A horizontal tab.
pub const TAB: u8 = 9;

/// A request method.
#[derive(Clone, Copy, Debug, PartialEq, Eq, Structural)]
pub enum Method {
    Get,
    Put,
    Post,
    Delete,
    Options,
    Head,
    Trace,
    Connect,
    Patch,
}

/// The sender details that an upload path may carry. They are taken in and
/// play no part in where the upload is stored.
#[derive(Debug, PartialEq, Eq)]
pub struct Sender {
    pub name: Vec<u8>,
    pub email: Vec<u8>,
    pub other: Vec<u8>,
}

/// What a `Sender` holds.
pub struct SenderView {
    pub name: Seq<u8>,
    pub email: Seq<u8>,
    pub other: Seq<u8>,
}

impl View for Sender {
    type V = SenderView;

    open spec fn view(&self) -> SenderView {
        SenderView { name: self.name@, email: self.email@, other: self.other@ }
    }
}

/// The handler that a request is routed to.
#[derive(Debug, PartialEq, Eq)]
pub enum Route {
    /// `GET /`: the default document.
    Index,
    /// `GET /static/<file..>`: a file of the static tree.
    Files { file: Vec<Vec<u8>> },
    /// `GET /assets/<file..>`: a file of the assets subtree.
    Assets { file: Vec<Vec<u8>> },
    /// Any other `GET`: the default document again.
    IndexRoute,
    /// `POST /new_resume`, alone or followed by the sender details.
    NewResume { sender: Option<Sender> },
    /// No handler: the request is not routed.
    NotFound,
}

/// What a `Route` holds.
pub enum RouteView {
    Index,
    Files { file: Seq<Seq<u8>> },
    Assets { file: Seq<Seq<u8>> },
    IndexRoute,
    NewResume { sender: Option<SenderView> },
    NotFound,
}

impl View for Route {
    type V = RouteView;

    open spec fn view(&self) -> RouteView {
        match *self {
            Route::Index => RouteView::Index,
            Route::Files { file } => RouteView::Files { file: views(file@) },
            Route::Assets { file } => RouteView::Assets { file: views(file@) },
            Route::IndexRoute => RouteView::IndexRoute,
            Route::NewResume { sender: Some(sender) } => RouteView::NewResume {
                sender: Some(sender@),
            },
            Route::NewResume { sender: None } => RouteView::NewResume { sender: None },
            Route::NotFound => RouteView::NotFound,
        }
    }
}

/// The ASCII lower-case form of a byte.
pub open spec fn lower_byte(byte: u8) -> u8 {
    if 65 <= byte && byte <= 90 {
        (byte + 32) as u8
    } else {
        byte
    }
}

/// The ASCII lower-case form of a byte string.
pub open spec fn lowered(bytes: Seq<u8>) -> Seq<u8> {
    bytes.map_values(|byte: u8| lower_byte(byte))
}

/// Whether what follows a media type is nothing, or a parameter list: a `;`
/// after any number of spaces and tabs.
pub open spec fn parameters_follow(rest: Seq<u8>) -> bool
    decreases rest.len(),
{
    if rest.len() == 0 {
        true
    } else if rest[0] == SEMICOLON {
        true
    } else if rest[0] == SPACE || rest[0] == TAB {
        parameters_follow(rest.drop_first())
    } else {
        false
    }
}

/// Whether a `Content-Type` value declares a PDF: it starts with
/// `application/pdf`, in any ASCII case, and goes on, if at all, with
/// parameters.
pub open spec fn declares_pdf(content_type: Seq<u8>) -> bool {
    let n = PDF.spec_bytes().len() as int;
    &&& content_type.len() >= n
    &&& lowered(content_type.take(n)) == PDF.spec_bytes()
    &&& parameters_follow(content_type.skip(n))
}

/// The ASCII lower-case form of a byte.
pub fn to_lower(byte: u8) -> (lower: u8)
    ensures
        lower == lower_byte(byte),
{
    if 65 <= byte && byte <= 90 {
        byte + 32
    } else {
        byte
    }
}

/// Whether a `Content-Type` value declares a PDF.
pub fn is_pdf(content_type: &[u8]) -> (pdf: bool)
    ensures
        pdf == declares_pdf(content_type@),
{
    let wanted = PDF.as_bytes();
    let n = wanted.len();
    if content_type.len() < n {
        return false;
    }
    let mut i: usize = 0;
    while i < n
        invariant
            i <= n,
            n == wanted@.len(),
            n <= content_type.len(),
            wanted@ == PDF.spec_bytes(),
            forall|k: int| 0 <= k < i ==> lower_byte(content_type@[k]) == wanted@[k],
        decreases n - i,
    {
        if to_lower(content_type[i]) != wanted[i] {
            assert(lowered(content_type@.take(n as int))[i as int] != wanted@[i as int]);
            return false;
        }
        i += 1;
    }
    assert(lowered(content_type@.take(n as int)) == wanted@);
    let mut j: usize = n;
    assert(content_type@.skip(n as int).skip(0) == content_type@.skip(n as int));
    while j < content_type.len()
        invariant
            n <= j <= content_type.len(),
            n == PDF.spec_bytes().len(),
            lowered(content_type@.take(n as int)) == PDF.spec_bytes(),
            parameters_follow(content_type@.skip(n as int)) == parameters_follow(
                content_type@.skip(j as int),
            ),
        decreases content_type.len() - j,
    {
        let byte = content_type[j];
        let ghost rest = content_type@.skip(j as int);
        assert(rest[0] == byte);
        if byte == SEMICOLON {
            return true;
        }
        if byte != SPACE && byte != TAB {
            return false;
        }
        assert(rest.drop_first() == content_type@.skip(j + 1));
        j += 1;
    }
    true
}

/// Whether the segments of a path are those of an upload path: `new_resume`
/// alone, or followed by exactly three segments.
pub open spec fn is_upload_path(segments: Seq<Seq<u8>>) -> bool {
    &&& segments.len() == 1 || segments.len() == 4
    &&& segments[0] == NEW_RESUME.spec_bytes()
}

/// The sender details of an upload path, where it carries them.
pub open spec fn sender_of(segments: Seq<Seq<u8>>) -> Option<SenderView> {
    if segments.len() == 4 {
        Some(SenderView { name: segments[1], email: segments[2], other: segments[3] })
    } else {
        None
    }
}

/// The handler for a `GET` of a path with the given segments.
pub open spec fn get_route_of(segments: Seq<Seq<u8>>) -> RouteView {
    if segments.len() == 0 {
        RouteView::Index
    } else if segments[0] == STATIC.spec_bytes() && capture_of(segments.skip(1)) is Some {
        RouteView::Files { file: capture_of(segments.skip(1))->0 }
    } else if segments[0] == ASSETS.spec_bytes() && capture_of(segments.skip(1)) is Some {
        RouteView::Assets { file: capture_of(segments.skip(1))->0 }
    } else {
        RouteView::IndexRoute
    }
}

/// The handler for a `POST` of a path with the given segments, for a body of
/// the declared content type.
pub open spec fn post_route_of(segments: Seq<Seq<u8>>, content_type: Option<Seq<u8>>) -> RouteView {
    if content_type is Some && declares_pdf(content_type->0) && is_upload_path(segments) {
        RouteView::NewResume { sender: sender_of(segments) }
    } else {
        RouteView::NotFound
    }
}

/// The handler that a request goes to, by its method, its path and the
/// content type it declares.
pub open spec fn route_of(method: Method, path: Seq<u8>, content_type: Option<Seq<u8>>) -> RouteView {
    match method {
        Method::Get => get_route_of(segments_of(path)),
        Method::Post => post_route_of(segments_of(path), content_type),
        _ => RouteView::NotFound,
    }
}

/// The content type that a request declares, as plain bytes.
pub open spec fn declared(content_type: Option<&[u8]>) -> Option<Seq<u8>> {
    match content_type {
        Some(value) => Some(value@),
        None => None,
    }
}

/// The segments of `segments` from `from` on, copied.
fn tail_of(segments: &Vec<Vec<u8>>, from: usize) -> (tail: Vec<Vec<u8>>)
    requires
        from <= segments.len(),
    ensures
        views(tail@) == views(segments@).skip(from as int),
{
    let mut tail: Vec<Vec<u8>> = Vec::new();
    let mut i: usize = from;
    while i < segments.len()
        invariant
            from <= i <= segments.len(),
            views(tail@) == views(segments@).subrange(from as int, i as int),
        decreases segments.len() - i,
    {
        let ghost before = tail@;
        tail.push(slice_to_vec(segments[i].as_slice()));
        assert(views(tail@) == views(before).push(segments@[i as int]@));
        i += 1;
    }
    assert(views(segments@).subrange(from as int, i as int) == views(segments@).skip(from as int));
    tail
}

/// Routes a `GET` request.
fn route_get(segments: &Vec<Vec<u8>>) -> (route: Route)
    ensures
        route@ == get_route_of(views(segments@)),
{
    if segments.len() == 0 {
        return Route::Index;
    }
    let first: &Vec<u8> = &segments[0];
    assert(views(segments@)[0] == first@);
    let serves_static = bytes_equal(first.as_slice(), STATIC.as_bytes());
    let serves_assets = bytes_equal(first.as_slice(), ASSETS.as_bytes());
    if serves_static || serves_assets {
        let rest = tail_of(segments, 1);
        match capture(rest.as_slice()) {
            Some(file) => {
                if serves_static {
                    Route::Files { file }
                } else {
                    Route::Assets { file }
                }
            },
            None => Route::IndexRoute,
        }
    } else {
        Route::IndexRoute
    }
}

/// Routes a `POST` request.
fn route_post(segments: &Vec<Vec<u8>>, content_type: Option<&[u8]>) -> (route: Route)
    ensures
        route@ == post_route_of(views(segments@), declared(content_type)),
{
    let pdf = match content_type {
        Some(value) => is_pdf(value),
        None => false,
    };
    if !pdf || !(segments.len() == 1 || segments.len() == 4) {
        return Route::NotFound;
    }
    let first: &Vec<u8> = &segments[0];
    assert(views(segments@)[0] == first@);
    if !bytes_equal(first.as_slice(), NEW_RESUME.as_bytes()) {
        return Route::NotFound;
    }
    if segments.len() == 4 {
        assert(views(segments@)[1] == segments@[1]@);
        assert(views(segments@)[2] == segments@[2]@);
        assert(views(segments@)[3] == segments@[3]@);
        let sender = Sender {
            name: slice_to_vec(segments[1].as_slice()),
            email: slice_to_vec(segments[2].as_slice()),
            other: slice_to_vec(segments[3].as_slice()),
        };
        Route::NewResume { sender: Some(sender) }
    } else {
        Route::NewResume { sender: None }
    }
}

/// Routes a request to its handler, or to none.
pub fn route(method: Method, path: &[u8], content_type: Option<&[u8]>) -> (route: Route)
    ensures
        route@ == route_of(method, path@, declared(content_type)),
{
    match method {
        Method::Get => {
            let segments = split_segments(path);
            route_get(&segments)
        },
        Method::Post => {
            let segments = split_segments(path);
            route_post(&segments, content_type)
        },
        _ => Route::NotFound,
    }
}

} // verus!
