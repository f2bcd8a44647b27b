use resume_gateway::reply::{Action, Reply};
use resume_gateway::resolver::serve;
use resume_gateway::rocket;
use resume_gateway::router::{route, Method, Route};
use resume_gateway::upload::accepted;
use resume_gateway::gateway::{plan, Gateway};
use rocket_http::HeaderMap;
use std::collections::HashMap;

type Disk = HashMap<Vec<u8>, Vec<u8>>;

const PDF: Option<&[u8]> = Some(b"application/pdf");

fn disk() -> Disk {
    let mut disk = Disk::new();
    disk.insert(b"./static/index.html".to_vec(), b"<html>home</html>".to_vec());
    disk.insert(b"./static/js/app.js".to_vec(), b"console.log(1)".to_vec());
    disk.insert(b"./static/assets/logo.png".to_vec(), vec![0x89, 0x50, 0x4e, 0x47]);
    disk
}

fn answer(
    disk: &mut Disk,
    method: Method,
    path: &[u8],
    content_type: Option<&[u8]>,
    body: &[u8],
) -> Option<Reply> {
    match rocket().dispatch(method, path, content_type, body.to_vec()) {
        Action::Open { path } => Some(serve(&path, disk.get(&path).cloned())),
        Action::Persist { path, bytes } => {
            disk.insert(path, bytes);
            Some(accepted(true))
        }
        Action::Refuse => None,
    }
}

#[test]
fn launched_gateway_has_cors() {
    assert!(rocket().cors.is_some());
}

#[test]
fn static_file_is_served_byte_for_byte() {
    let mut disk = disk();
    let reply = answer(&mut disk, Method::Get, b"/static/js/app.js", None, b"").unwrap();
    assert_eq!(reply.status, 200);
    assert_eq!(reply.body, b"console.log(1)".to_vec());
    assert_eq!(reply.content_type, Some(b"text/javascript".to_vec()));
}

#[test]
fn asset_file_is_served_byte_for_byte() {
    let mut disk = disk();
    let reply = answer(&mut disk, Method::Get, b"/assets/logo.png", None, b"").unwrap();
    assert_eq!(reply.body, vec![0x89, 0x50, 0x4e, 0x47]);
    assert_eq!(reply.content_type, Some(b"image/png".to_vec()));
}

#[test]
fn missing_file_gets_empty_reply() {
    let mut disk = disk();
    let reply = answer(&mut disk, Method::Get, b"/static/nope.css", None, b"").unwrap();
    assert_eq!(reply, Reply { status: 200, content_type: None, body: Vec::new() });
    let reply = answer(&mut disk, Method::Get, b"/assets/nope.png", None, b"").unwrap();
    assert_eq!(reply, Reply { status: 200, content_type: None, body: Vec::new() });
}

#[test]
fn root_and_unmatched_paths_get_default_document() {
    let mut disk = disk();
    let root = answer(&mut disk, Method::Get, b"/", None, b"").unwrap();
    assert_eq!(root.body, b"<html>home</html>".to_vec());
    assert_eq!(root.content_type, Some(b"text/html; charset=utf-8".to_vec()));
    let other = answer(&mut disk, Method::Get, b"/profile/42", None, b"").unwrap();
    assert_eq!(other, root);
    let hidden = answer(&mut disk, Method::Get, b"/static/.env", None, b"").unwrap();
    assert_eq!(hidden, root);
}

#[test]
fn default_document_missing_gets_empty_reply() {
    let mut disk = Disk::new();
    let root = answer(&mut disk, Method::Get, b"/", None, b"").unwrap();
    assert_eq!(root, Reply { status: 200, content_type: None, body: Vec::new() });
    let other = answer(&mut disk, Method::Get, b"/profile", None, b"").unwrap();
    assert_eq!(other, root);
}

#[test]
fn upload_is_accepted_and_stored() {
    let mut disk = disk();
    let reply = answer(&mut disk, Method::Post, b"/new_resume", PDF, b"%PDF-1.7 one").unwrap();
    assert_eq!(reply.status, 202);
    assert_eq!(reply.body, b"Thank You!".to_vec());
    assert_eq!(disk.get(&b"./.data/resumes/0.pdf".to_vec()), Some(&b"%PDF-1.7 one".to_vec()));
}

#[test]
fn upload_with_sender_goes_to_same_target() {
    let mut disk = disk();
    let reply =
        answer(&mut disk, Method::Post, b"/new_resume/Ada/ada@example.org/hi", PDF, b"cv").unwrap();
    assert_eq!(reply.status, 202);
    assert_eq!(disk.get(&b"./.data/resumes/0.pdf".to_vec()), Some(&b"cv".to_vec()));
    assert_eq!(disk.len(), 4);
}

#[test]
fn second_upload_replaces_first() {
    let mut disk = disk();
    let first = answer(&mut disk, Method::Post, b"/new_resume", PDF, b"first, and longer").unwrap();
    let second = answer(&mut disk, Method::Post, b"/new_resume/a/b/c", PDF, b"second").unwrap();
    assert_eq!(first.status, 202);
    assert_eq!(second.status, 202);
    assert_eq!(first, second);
    assert_eq!(disk.get(&b"./.data/resumes/0.pdf".to_vec()), Some(&b"second".to_vec()));
}

#[test]
fn unrecognised_requests_are_refused() {
    let mut disk = disk();
    let before = disk.clone();
    assert_eq!(answer(&mut disk, Method::Delete, b"/static/js/app.js", None, b""), None);
    assert_eq!(answer(&mut disk, Method::Put, b"/new_resume", PDF, b"x"), None);
    assert_eq!(answer(&mut disk, Method::Post, b"/new_resume", Some(b"text/plain"), b"x"), None);
    assert_eq!(answer(&mut disk, Method::Post, b"/elsewhere", PDF, b"x"), None);
    assert_eq!(answer(&mut disk, Method::Head, b"/", None, b""), None);
    assert_eq!(disk, before);
}

#[test]
fn get_never_writes() {
    let mut disk = disk();
    let before = disk.clone();
    answer(&mut disk, Method::Get, b"/static/js/app.js", PDF, b"body");
    answer(&mut disk, Method::Get, b"/new_resume", PDF, b"body");
    assert_eq!(disk, before);
}

#[test]
fn plan_follows_route() {
    assert_eq!(plan(Route::Index, Vec::new()), Action::Open { path: b"./static/index.html".to_vec() });
    assert_eq!(
        plan(Route::IndexRoute, b"ignored".to_vec()),
        Action::Open { path: b"./static/index.html".to_vec() }
    );
    assert_eq!(
        plan(Route::Files { file: vec![b"a".to_vec(), b"b.txt".to_vec()] }, Vec::new()),
        Action::Open { path: b"./static/a/b.txt".to_vec() }
    );
    assert_eq!(
        plan(Route::Assets { file: vec![b"c.svg".to_vec()] }, Vec::new()),
        Action::Open { path: b"./static/assets/c.svg".to_vec() }
    );
    assert_eq!(
        plan(Route::NewResume { sender: None }, b"cv".to_vec()),
        Action::Persist { path: b"./.data/resumes/0.pdf".to_vec(), bytes: b"cv".to_vec() }
    );
    assert_eq!(plan(Route::NotFound, b"cv".to_vec()), Action::Refuse);
}

#[test]
fn dispatch_is_plan_of_route() {
    let gateway = rocket();
    for path in [&b"/"[..], b"/static/x/y.js", b"/assets/.a", b"/new_resume", b"/zzz"] {
        for method in [Method::Get, Method::Post, Method::Delete] {
            assert_eq!(
                gateway.dispatch(method, path, PDF, b"body".to_vec()),
                plan(route(method, path, PDF), b"body".to_vec())
            );
        }
    }
}

#[test]
fn traversal_stays_below_content_root() {
    assert_eq!(
        rocket().dispatch(Method::Get, b"/static/../../etc/passwd", None, Vec::new()),
        Action::Open { path: b"./static/etc/passwd".to_vec() }
    );
    assert_eq!(
        rocket().dispatch(Method::Get, b"/assets/../../../secret", None, Vec::new()),
        Action::Open { path: b"./static/assets/secret".to_vec() }
    );
}

#[test]
fn active_cors_marks_every_response() {
    let gateway = rocket();
    let mut headers = HeaderMap::new();
    headers.add_raw("Content-Type", "text/html; charset=utf-8");
    gateway.on_response(&mut headers);
    assert_eq!(headers.get_one("Access-Control-Allow-Origin"), Some("*"));
    assert_eq!(
        headers.get_one("Access-Control-Allow-Methods"),
        Some("POST, PATCH, PUT, DELETE, HEAD, OPTIONS, GET")
    );
    assert_eq!(headers.get_one("Access-Control-Allow-Headers"), Some("*"));
    assert_eq!(headers.get_one("Access-Control-Allow-Credentials"), Some("true"));
    assert_eq!(headers.get_one("Content-Type"), Some("text/html; charset=utf-8"));
    let mut bare = HeaderMap::new();
    gateway.on_response(&mut bare);
    assert_eq!(bare.len(), 4);
}

#[test]
fn inactive_cors_leaves_headers_alone() {
    let gateway = Gateway { cors: None };
    let mut headers = HeaderMap::new();
    headers.add_raw("Content-Type", "text/css");
    gateway.on_response(&mut headers);
    assert_eq!(headers.len(), 1);
    assert_eq!(headers.get_one("Access-Control-Allow-Origin"), None);
    assert_eq!(headers.get_one("Content-Type"), Some("text/css"));
}
