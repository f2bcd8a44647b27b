//! The gateway: router, handlers and cross-origin stage put together.
//!
//! A request is answered in three steps. `dispatch` routes it and says which
//! one step of input or output it calls for. The caller takes that step.
//! `serve` or `accepted` then builds the reply from how the step went, and
//! `on_response` sets the cross-origin header fields on the way out.

use crate::cors::{header_fields, with_cors, Cors};
use crate::reply::{Action, ActionView};
use crate::resolver::{assets, files, index, index_route, ASSETS_ROOT, CONTENT_ROOT, DEFAULT_DOCUMENT};
use crate::router::{declared, route, route_of, Method, Route, RouteView};
use crate::path::resolved;
use crate::upload::{new_resume, UPLOAD_TARGET};
use rocket_http::HeaderMap;
use vstd::prelude::*;
use vstd::string::StringSliceAdditionalSpecFns;

verus! {

/// A gateway and its one setting: whether the cross-origin stage is active.
#[derive(Clone, Copy, Debug)]
pub struct Gateway {
    pub cors: Option<Cors>,
}

/// The gateway as it is launched: all five routes, and the cross-origin
/// stage attached.
pub fn rocket() -> (gateway: Gateway)
    ensures
        gateway.cors == Some(Cors),
{
    Gateway { cors: Some(Cors) }
}

/// The step that a route calls for, given the request's body.
pub open spec fn plan_of(route: RouteView, body: Seq<u8>) -> ActionView {
    match route {
        RouteView::Index => ActionView::Open { path: DEFAULT_DOCUMENT.spec_bytes() },
        RouteView::IndexRoute => ActionView::Open { path: DEFAULT_DOCUMENT.spec_bytes() },
        RouteView::Files { file } => ActionView::Open {
            path: resolved(CONTENT_ROOT.spec_bytes(), file),
        },
        RouteView::Assets { file } => ActionView::Open {
            path: resolved(ASSETS_ROOT.spec_bytes(), file),
        },
        RouteView::NewResume { sender } => ActionView::Persist {
            path: UPLOAD_TARGET.spec_bytes(),
            bytes: body,
        },
        RouteView::NotFound => ActionView::Refuse,
    }
}

/// Hands a routed request to its handler, which says what step it calls for.
pub fn plan(route: Route, body: Vec<u8>) -> (action: Action)
    ensures
        action@ == plan_of(route@, body@),
{
    match route {
        Route::Index => index(),
        Route::IndexRoute => index_route(),
        Route::Files { file } => files(file),
        Route::Assets { file } => assets(file),
        Route::NewResume { sender: Some(sender) } => new_resume(
            sender.name.as_slice(),
            sender.email.as_slice(),
            sender.other.as_slice(),
            body,
        ),
        Route::NewResume { sender: None } => {
            let blank: Vec<u8> = Vec::new();
            new_resume(blank.as_slice(), blank.as_slice(), blank.as_slice(), body)
        },
        Route::NotFound => Action::Refuse,
    }
}

impl Gateway {
    /// A response's header fields once they have passed this gateway's
    /// cross-origin stage: marked where the stage is active, as they were
    /// where it is not.
    pub open spec fn headers_after(
        self,
        before: Map<Seq<char>, Seq<Seq<char>>>,
    ) -> Map<Seq<char>, Seq<Seq<char>>> {
        if self.cors is Some {
            with_cors(before)
        } else {
            before
        }
    }

    /// Routes a request and says what step it calls for: a file to open, an
    /// upload to store, or nothing where no route takes the request.
    pub fn dispatch(
        &self,
        method: Method,
        path: &[u8],
        content_type: Option<&[u8]>,
        body: Vec<u8>,
    ) -> (action: Action)
        ensures
            action@ == plan_of(route_of(method, path@, declared(content_type)), body@),
    {
        plan(route(method, path, content_type), body)
    }

    /// Runs the cross-origin stage over a response's header fields, where
    /// the stage is active.
    pub fn on_response<'h>(&self, headers: &mut HeaderMap<'h>)
        ensures
            header_fields(final(headers)) == self.headers_after(header_fields(old(headers))),
    {
        match self.cors {
            Some(cors) => cors.on_response(headers),
            None => {},
        }
    }
}

} // verus!
