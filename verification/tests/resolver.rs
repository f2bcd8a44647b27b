use resume_gateway::reply::{Action, Reply};
use resume_gateway::resolver::{assets, file_reply, files, index, index_route, serve};

fn names(items: &[&str]) -> Vec<Vec<u8>> {
    items.iter().map(|item| item.as_bytes().to_vec()).collect()
}

#[test]
fn index_opens_default_document() {
    assert_eq!(index(), Action::Open { path: b"./static/index.html".to_vec() });
}

#[test]
fn index_route_opens_default_document() {
    assert_eq!(index_route(), Action::Open { path: b"./static/index.html".to_vec() });
    assert_eq!(index_route(), index());
}

#[test]
fn files_opens_below_content_root() {
    assert_eq!(
        files(names(&["js", "app.js"])),
        Action::Open { path: b"./static/js/app.js".to_vec() }
    );
    assert_eq!(files(names(&[])), Action::Open { path: b"./static/".to_vec() });
}

#[test]
fn assets_opens_below_assets_root() {
    assert_eq!(
        assets(names(&["logo.png"])),
        Action::Open { path: b"./static/assets/logo.png".to_vec() }
    );
    assert_eq!(assets(names(&[])), Action::Open { path: b"./static/assets/".to_vec() });
}

#[test]
fn serve_gives_file_bytes() {
    let reply = serve(b"./static/index.html", Some(b"<html></html>".to_vec()));
    assert_eq!(reply.status, 200);
    assert_eq!(reply.body, b"<html></html>".to_vec());
    assert_eq!(reply.content_type, Some(b"text/html; charset=utf-8".to_vec()));
}

#[test]
fn serve_infers_content_type_from_extension() {
    let css = serve(b"./static/site.css", Some(b"a{}".to_vec()));
    assert_eq!(css.content_type, Some(b"text/css; charset=utf-8".to_vec()));
    let js = serve(b"./static/app.js", Some(b"1".to_vec()));
    assert_eq!(js.content_type, Some(b"text/javascript".to_vec()));
    let png = serve(b"./static/assets/logo.PNG", Some(vec![0x89, 0x50]));
    assert_eq!(png.content_type, Some(b"image/png".to_vec()));
    let pdf = serve(b"./static/cv.pdf", Some(b"%PDF".to_vec()));
    assert_eq!(pdf.content_type, Some(b"application/pdf".to_vec()));
}

#[test]
fn serve_unknown_extension_has_no_content_type() {
    let reply = serve(b"./static/data.zzz", Some(b"x".to_vec()));
    assert_eq!(reply, Reply { status: 200, content_type: None, body: b"x".to_vec() });
    let bare = serve(b"./static/LICENSE", Some(b"y".to_vec()));
    assert_eq!(bare, Reply { status: 200, content_type: None, body: b"y".to_vec() });
}

#[test]
fn serve_missing_file_is_empty() {
    let reply = serve(b"./static/index.html", None);
    assert_eq!(reply, Reply { status: 200, content_type: None, body: Vec::new() });
}

#[test]
fn serve_empty_file_keeps_content_type() {
    let reply = serve(b"./static/empty.txt", Some(Vec::new()));
    assert_eq!(
        reply,
        Reply {
            status: 200,
            content_type: Some(b"text/plain; charset=utf-8".to_vec()),
            body: Vec::new()
        }
    );
}

#[test]
fn file_reply_cases() {
    assert_eq!(
        file_reply(Some(b"text/css".to_vec()), Some(b"a{}".to_vec())),
        Reply { status: 200, content_type: Some(b"text/css".to_vec()), body: b"a{}".to_vec() }
    );
    assert_eq!(
        file_reply(None, Some(b"raw".to_vec())),
        Reply { status: 200, content_type: None, body: b"raw".to_vec() }
    );
    assert_eq!(
        file_reply(Some(b"text/css".to_vec()), None),
        Reply { status: 200, content_type: None, body: Vec::new() }
    );
    assert_eq!(file_reply(None, None), Reply { status: 200, content_type: None, body: Vec::new() });
}
