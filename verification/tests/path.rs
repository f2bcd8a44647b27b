use resume_gateway::path::{
    bytes_equal, capture, extension, holds_byte, path_extension, resolve, segment_is_parent,
    segment_is_plain_name, split_segments,
};

fn names(items: &[&str]) -> Vec<Vec<u8>> {
    items.iter().map(|item| item.as_bytes().to_vec()).collect()
}

#[test]
fn split_plain_path() {
    assert_eq!(split_segments(b"/static/js/app.js"), names(&["static", "js", "app.js"]));
}

#[test]
fn split_root_and_empty() {
    assert_eq!(split_segments(b"/"), names(&[]));
    assert_eq!(split_segments(b""), names(&[]));
    assert_eq!(split_segments(b"///"), names(&[]));
}

#[test]
fn split_ignores_extra_slashes() {
    assert_eq!(split_segments(b"//a///b/"), names(&["a", "b"]));
    assert_eq!(split_segments(b"a/b"), names(&["a", "b"]));
    assert_eq!(split_segments(b"/a"), names(&["a"]));
}

#[test]
fn split_undoes_resolve() {
    let file = names(&["css", "site.css"]);
    let path = resolve(b"/", &file);
    assert_eq!(path, b"/css/site.css".to_vec());
    assert_eq!(split_segments(&path), file);
}

#[test]
fn capture_keeps_plain_names() {
    let offered = names(&["img", "logo.png"]);
    assert_eq!(capture(&offered), Some(names(&["img", "logo.png"])));
    assert_eq!(capture(&names(&[])), Some(names(&[])));
}

#[test]
fn capture_parent_drops_last_name() {
    assert_eq!(capture(&names(&["a", "..", "b"])), Some(names(&["b"])));
    assert_eq!(capture(&names(&["a", "b", ".."])), Some(names(&["a"])));
}

#[test]
fn capture_parent_at_root_stays_at_root() {
    assert_eq!(capture(&names(&["..", "..", "etc", "passwd"])), Some(names(&["etc", "passwd"])));
    assert_eq!(capture(&names(&[".."])), Some(names(&[])));
}

#[test]
fn capture_spoilt_by_hidden_name() {
    assert_eq!(capture(&names(&[".env"])), None);
    assert_eq!(capture(&names(&["a", ".git", "config"])), None);
    assert_eq!(capture(&names(&["."])), None);
    assert_eq!(capture(&names(&["..."])), None);
}

#[test]
fn capture_spoilt_by_odd_names() {
    assert_eq!(capture(&names(&["*star"])), None);
    assert_eq!(capture(&names(&["drive:"])), None);
    assert_eq!(capture(&names(&["tag>"])), None);
    assert_eq!(capture(&names(&["tag<"])), None);
    assert_eq!(capture(&names(&["a/b"])), None);
    assert_eq!(capture(&names(&[""])), None);
}

#[test]
fn capture_stays_spoilt() {
    assert_eq!(capture(&names(&[".hidden", "..", "b"])), None);
}

#[test]
fn capture_allows_odd_bytes_inside() {
    assert_eq!(capture(&names(&["a*b", "c:d", "e.f"])), Some(names(&["a*b", "c:d", "e.f"])));
}

#[test]
fn plain_name_edges() {
    assert!(segment_is_plain_name(b"index.html"));
    assert!(!segment_is_plain_name(b""));
    assert!(!segment_is_plain_name(b".."));
    assert!(!segment_is_plain_name(b".a"));
    assert!(segment_is_parent(b".."));
    assert!(!segment_is_parent(b"."));
    assert!(!segment_is_parent(b"..."));
    assert!(!segment_is_parent(b"a."));
}

#[test]
fn resolve_joins_with_slashes() {
    assert_eq!(resolve(b"./static/", &names(&["js", "app.js"])), b"./static/js/app.js".to_vec());
    assert_eq!(resolve(b"./static/", &names(&["a"])), b"./static/a".to_vec());
    assert_eq!(resolve(b"./static/", &names(&[])), b"./static/".to_vec());
    assert_eq!(resolve(b"", &names(&["a", "b", "c"])), b"a/b/c".to_vec());
}

#[test]
fn extension_after_last_dot() {
    assert_eq!(extension(b"app.js"), Some(b"js".to_vec()));
    assert_eq!(extension(b"archive.tar.gz"), Some(b"gz".to_vec()));
    assert_eq!(extension(b"trailing."), Some(b"".to_vec()));
    assert_eq!(extension(b".hidden.txt"), Some(b"txt".to_vec()));
    assert_eq!(extension(b"..."), Some(b"".to_vec()));
}

#[test]
fn extension_absent() {
    assert_eq!(extension(b"README"), None);
    assert_eq!(extension(b".hidden"), None);
    assert_eq!(extension(b""), None);
    assert_eq!(extension(b"."), None);
    assert_eq!(extension(b".."), None);
}

#[test]
fn path_extension_is_of_last_segment() {
    assert_eq!(path_extension(b"./static/index.html"), Some(b"html".to_vec()));
    assert_eq!(path_extension(b"./static/v1.2/readme"), None);
    assert_eq!(path_extension(b"./static/"), None);
    assert_eq!(path_extension(b""), None);
    assert_eq!(path_extension(b"/"), None);
}

#[test]
fn byte_helpers() {
    assert!(bytes_equal(b"static", b"static"));
    assert!(!bytes_equal(b"static", b"statiC"));
    assert!(!bytes_equal(b"static", b"stati"));
    assert!(bytes_equal(b"", b""));
    assert!(holds_byte(b"a/b", b'/'));
    assert!(!holds_byte(b"ab", b'/'));
    assert!(!holds_byte(b"", b'/'));
}
