use dirserve::dispatch::{after_canonical, after_inspect, after_listing, after_read, start, Action, FileKind};
use dirserve::mime::{classify, type_or_default};
use dirserve::request::{decode_target, extract_target, has_valid_escapes, parse_request};
use dirserve::response::{file_response, not_found_response, render_listing, server_error_response};
use dirserve::sandbox::{candidate_path, is_within};

const NOT_FOUND: &[u8] = b"HTTP/1.1 404 NOT FOUND\r\n\r\n";

fn respond_bytes(a: Action) -> Vec<u8> {
    match a {
        Action::Respond(b) => b,
        other => panic!("expected a reply, got {:?}", other),
    }
}

fn png_bytes() -> Vec<u8> {
    vec![0x89, 0x50, 0x4E, 0x47, 0x0D, 0x0A, 0x1A, 0x0A, 0, 0, 0, 0x0D, 0x49, 0x48, 0x44, 0x52]
}

#[test]
fn root_listing_shows_only_immediate_entries() {
    let entries = vec![b"/srv/a.txt".to_vec(), b"/srv/b".to_vec()];
    let reply = after_listing(&entries);
    let expected = "HTTP/1.1 200 OK\r\nContent-Type: text/html\r\n\r\n<html><body>\
<a href=\"/srv/a.txt\">/srv/a.txt</a><br><a href=\"/srv/b\">/srv/b</a><br></body></html>";
    assert_eq!(reply, expected.as_bytes().to_vec());
    assert!(!String::from_utf8(reply).unwrap().contains("c.txt"));
}

#[test]
fn subdirectory_listing_shows_its_file() {
    let entries = vec![b"/srv/b/c.txt".to_vec()];
    let page = render_listing(&entries);
    assert_eq!(page, b"<html><body><a href=\"/srv/b/c.txt\">/srv/b/c.txt</a><br></body></html>".to_vec());
}

#[test]
fn empty_directory_lists_nothing() {
    let page = render_listing(&Vec::new());
    assert_eq!(page, b"<html><body></body></html>".to_vec());
}

#[test]
fn parent_escape_gets_not_found() {
    let first = start(b"/srv/root", b"GET /../secret HTTP/1.1\r\nHost: x\r\n\r\n");
    match first {
        Action::Canonicalize(c) => assert_eq!(c, b"/srv/root/../secret".to_vec()),
        other => panic!("unexpected {:?}", other),
    }
    let next = after_canonical(Some(b"/srv/root".to_vec()), Some(b"/srv/secret".to_vec()));
    assert_eq!(respond_bytes(next), NOT_FOUND.to_vec());
}

#[test]
fn png_signature_gives_png_type() {
    assert_eq!(classify(&png_bytes()), "image/png");
    let reply = file_response(&png_bytes());
    let mut expected = b"HTTP/1.1 200 OK\r\nContent-Type: image/png\r\n\r\n".to_vec();
    expected.extend_from_slice(&png_bytes());
    assert_eq!(reply, expected);
}

#[test]
fn unknown_signature_gives_generic_type() {
    assert_eq!(classify(b"just some words"), "application/octet-stream");
    assert_eq!(classify(b""), "application/octet-stream");
    let reply = after_read(Some(b"plain".to_vec()));
    assert_eq!(reply, b"HTTP/1.1 200 OK\r\nContent-Type: application/octet-stream\r\n\r\nplain".to_vec());
}

#[test]
fn sniffed_type_is_kept() {
    assert_eq!(type_or_default(Some("image/gif".to_string())), "image/gif");
    assert_eq!(type_or_default(None), "application/octet-stream");
}

#[test]
fn truncated_request_line_gets_not_found() {
    assert_eq!(respond_bytes(start(b"/srv", b"GET\r\n")), NOT_FOUND.to_vec());
    assert_eq!(respond_bytes(start(b"/srv", b"GET   \r\n")), NOT_FOUND.to_vec());
    assert_eq!(respond_bytes(start(b"/srv", b"GET /a.txt")), NOT_FOUND.to_vec());
    assert_eq!(respond_bytes(start(b"/srv", b"")), NOT_FOUND.to_vec());
}

#[test]
fn missing_and_outside_look_alike() {
    let root = b"/srv/root".to_vec();
    let missing = respond_bytes(after_canonical(Some(root.clone()), None));
    let outside = respond_bytes(after_canonical(Some(root.clone()), Some(b"/etc/passwd".to_vec())));
    assert_eq!(missing, outside);
    assert_eq!(missing, not_found_response());
    let no_root = respond_bytes(after_canonical(None, Some(b"/srv/root/a".to_vec())));
    assert_eq!(no_root, NOT_FOUND.to_vec());
}

#[test]
fn encoded_multibyte_path_round_trips() {
    let path = "/日本語 ファイル/é.txt";
    let encoded = url_escape::encode_component(path).to_string();
    assert!(encoded.is_ascii());
    assert_eq!(decode_target(encoded.as_bytes()), Some(path.as_bytes().to_vec()));
    assert_eq!(decode_target(b"/%E6%97%A5.txt"), Some("/日.txt".as_bytes().to_vec()));
}

#[test]
fn malformed_escapes_are_rejected() {
    assert_eq!(decode_target(b"/a%2"), None);
    assert_eq!(decode_target(b"/a%zz"), None);
    assert_eq!(decode_target(b"%"), None);
    assert!(has_valid_escapes(b"/a%2Fb%41"));
    assert!(!has_valid_escapes(b"/a%%41"));
    assert_eq!(respond_bytes(start(b"/srv", b"GET /bad%g1 HTTP/1.1\r\n")), NOT_FOUND.to_vec());
}

#[test]
fn target_is_second_token_of_first_line() {
    assert_eq!(extract_target(b"GET  /x/y\tHTTP/1.1\r\n"), Some(b"/x/y".to_vec()));
    assert_eq!(extract_target(b"  GET /z\n"), Some(b"/z".to_vec()));
    assert_eq!(parse_request(b"GET /a%20b HTTP/1.1\r\n"), Some(b"/a b".to_vec()));
}

#[test]
fn only_the_read_buffer_is_inspected() {
    let mut long = b"GET /".to_vec();
    long.extend(std::iter::repeat(b'a').take(600));
    long.extend_from_slice(b" HTTP/1.1\r\n");
    assert_eq!(extract_target(&long), None);
    let mut fits = b"GET /".to_vec();
    fits.extend(std::iter::repeat(b'a').take(400));
    fits.extend_from_slice(b" HTTP/1.1\r\n");
    assert!(extract_target(&fits).is_some());
}

#[test]
fn containment_is_by_whole_segments() {
    assert!(!is_within(b"/root", b"/root-evil"));
    assert!(!is_within(b"/root", b"/roo"));
    assert!(!is_within(b"/root", b"/etc/passwd"));
    assert!(is_within(b"/root", b"/root"));
    assert!(is_within(b"/root", b"/root/a/b"));
    assert!(is_within(b"/", b"/etc"));
}

#[test]
fn candidate_joins_under_root() {
    assert_eq!(candidate_path(b"/srv", b"/a/b"), b"/srv/a/b".to_vec());
    assert_eq!(candidate_path(b"/srv/", b"/a"), b"/srv/a".to_vec());
    assert_eq!(candidate_path(b"/srv", b"//etc"), b"/srv//etc".to_vec());
    assert_eq!(candidate_path(b"/srv", b"/"), b"/srv/".to_vec());
    assert_eq!(candidate_path(b"/srv", b"a\\..\\b"), b"/srv/a\\..\\b".to_vec());
}

#[test]
fn inside_location_goes_on_to_inspection() {
    match after_canonical(Some(b"/srv".to_vec()), Some(b"/srv/a.txt".to_vec())) {
        Action::Inspect(p) => assert_eq!(p, b"/srv/a.txt".to_vec()),
        other => panic!("unexpected {:?}", other),
    }
}

#[test]
fn dispatch_on_kind() {
    assert!(matches!(after_inspect(b"/srv/d".to_vec(), FileKind::Directory), Action::ListDirectory(p) if p == b"/srv/d".to_vec()));
    assert!(matches!(after_inspect(b"/srv/f".to_vec(), FileKind::File), Action::ReadFile(p) if p == b"/srv/f".to_vec()));
    assert_eq!(respond_bytes(after_inspect(b"/srv/s".to_vec(), FileKind::Other)), NOT_FOUND.to_vec());
}

#[test]
fn failed_read_gets_server_error() {
    assert_eq!(after_read(None), b"HTTP/1.1 500 INTERNAL SERVER ERROR\r\n\r\n".to_vec());
    assert_eq!(server_error_response(), after_read(None));
}
