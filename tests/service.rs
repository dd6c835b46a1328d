use file_transfer::allocator::MAX_ATTEMPTS;
use file_transfer::response::{respond, Body, ErrorKind, Outcome, Response};
use file_transfer::routing::Method;
use file_transfer::service::{serve, serve_with};
use file_transfer::store::MemStore;

fn ok_empty() -> Response {
    Response { status: 200, body: Body::Empty }
}

fn not_found() -> Response {
    Response { status: 404, body: Body::Empty }
}

fn no_body() -> Result<Vec<u8>, ErrorKind> {
    Ok(Vec::new())
}

fn draws_from(first: u32) -> Vec<u32> {
    (0..MAX_ATTEMPTS as u32).map(|i| (first + i) % 1000).collect()
}

#[test]
fn datafile_scenario() {
    let mut s = MemStore::new();
    let put = serve(&mut s, Method::Put, "/datafile.txt", Ok(b"File contents.".to_vec()));
    assert_eq!(put, ok_empty());
    let get = serve(&mut s, Method::Get, "/datafile.txt", no_body());
    assert_eq!(get, Response { status: 200, body: Body::Bytes(b"File contents.".to_vec()) });
    assert_eq!(get.content_type(), Some("text/plain"));
    assert_eq!(serve(&mut s, Method::Delete, "/datafile.txt", no_body()), ok_empty());
    assert_eq!(serve(&mut s, Method::Get, "/datafile.txt", no_body()), not_found());
    assert_eq!(serve(&mut s, Method::Get, "/a/b", no_body()), not_found());
}

#[test]
fn get_of_never_created_name_is_not_found() {
    let mut s = MemStore::new();
    s.write("other.txt", &b"x".to_vec());
    assert_eq!(serve(&mut s, Method::Get, "/missing.txt", no_body()), not_found());
    assert_eq!(s.read("other.txt"), Ok(b"x".to_vec()));
}

#[test]
fn put_then_get_is_byte_exact() {
    let mut s = MemStore::new();
    let payload: Vec<u8> = (0..=255u8).collect();
    assert_eq!(serve(&mut s, Method::Put, "/bin.dat", Ok(payload.clone())), ok_empty());
    assert_eq!(
        serve(&mut s, Method::Get, "/bin.dat", no_body()),
        Response { status: 200, body: Body::Bytes(payload) }
    );
}

#[test]
fn put_of_empty_payload_stores_empty_blob() {
    let mut s = MemStore::new();
    assert_eq!(serve(&mut s, Method::Put, "/empty.txt", Ok(Vec::new())), ok_empty());
    assert_eq!(
        serve(&mut s, Method::Get, "/empty.txt", no_body()),
        Response { status: 200, body: Body::Bytes(Vec::new()) }
    );
}

#[test]
fn delete_after_put_then_get_and_delete_fail() {
    let mut s = MemStore::new();
    serve(&mut s, Method::Put, "/n.txt", Ok(b"p".to_vec()));
    assert_eq!(serve(&mut s, Method::Delete, "/n.txt", no_body()), ok_empty());
    assert_eq!(serve(&mut s, Method::Get, "/n.txt", no_body()), not_found());
    assert_eq!(serve(&mut s, Method::Delete, "/n.txt", no_body()), not_found());
}

#[test]
fn post_returns_prefix_three_digits_txt() {
    let mut s = MemStore::new();
    let r = serve_with(&mut s, Method::Post, "/data", Ok(b"File contents.".to_vec()), draws_from(17));
    assert_eq!(r, Response { status: 200, body: Body::Name("data017.txt".to_string()) });
    assert_eq!(r.content_type(), Some("text/plain"));
    assert_eq!(s.read("data017.txt"), Ok(b"File contents.".to_vec()));
}

#[test]
fn repeated_posts_with_same_draws_get_distinct_names() {
    let mut s = MemStore::new();
    let first = serve_with(&mut s, Method::Post, "/data", Ok(b"1".to_vec()), draws_from(17));
    let second = serve_with(&mut s, Method::Post, "/data", Ok(b"2".to_vec()), draws_from(17));
    assert_eq!(first.body, Body::Name("data017.txt".to_string()));
    assert_eq!(second.body, Body::Name("data018.txt".to_string()));
    assert_eq!(s.read("data017.txt"), Ok(b"1".to_vec()));
    assert_eq!(s.read("data018.txt"), Ok(b"2".to_vec()));
}

#[test]
fn saturated_post_is_not_found_and_creates_nothing() {
    let mut s = MemStore::new();
    s.write("data123.txt", &b"taken".to_vec());
    let draws = vec![123u32; MAX_ATTEMPTS];
    let r = serve_with(&mut s, Method::Post, "/data", Ok(b"new".to_vec()), draws);
    assert_eq!(r, not_found());
    assert_eq!(s.read("data123.txt"), Ok(b"taken".to_vec()));
    for n in 0..1000u32 {
        if n != 123 {
            assert_eq!(s.read(&format!("data{:03}.txt", n)), Err(ErrorKind::NotFound));
        }
    }
}

#[test]
fn ten_posts_with_one_prefix_get_ten_distinct_names() {
    let mut s = MemStore::new();
    let mut names: Vec<String> = Vec::new();
    for i in 0..10u8 {
        match serve(&mut s, Method::Post, "/data", Ok(vec![i])) {
            Response { status: 200, body: Body::Name(n) } => names.push(n),
            other => panic!("post failed: {:?}", other),
        }
    }
    for (i, n) in names.iter().enumerate() {
        assert!(n.starts_with("data") && n.ends_with(".txt") && n.len() == 11);
        assert_eq!(s.read(n), Ok(vec![i as u8]));
        for m in &names[i + 1..] {
            assert_ne!(n, m);
        }
    }
}

#[test]
fn stream_error_on_put_commits_nothing() {
    let mut s = MemStore::new();
    assert_eq!(serve(&mut s, Method::Put, "/x.txt", Err(ErrorKind::StreamError)), not_found());
    assert_eq!(s.read("x.txt"), Err(ErrorKind::NotFound));
}

#[test]
fn stream_error_on_post_commits_nothing() {
    let mut s = MemStore::new();
    let r = serve_with(&mut s, Method::Post, "/data", Err(ErrorKind::StreamError), draws_from(0));
    assert_eq!(r, not_found());
    assert_eq!(s.read("data000.txt"), Err(ErrorKind::NotFound));
}

#[test]
fn unmatched_routes_are_not_found() {
    let mut s = MemStore::new();
    s.write("a", &b"x".to_vec());
    assert_eq!(serve(&mut s, Method::Other, "/a", no_body()), not_found());
    assert_eq!(serve(&mut s, Method::Delete, "/a/b", no_body()), not_found());
    assert_eq!(serve(&mut s, Method::Post, "/", Ok(b"x".to_vec())), not_found());
    assert_eq!(s.read("a"), Ok(b"x".to_vec()));
}

#[test]
fn every_failure_maps_to_empty_not_found() {
    for e in [
        ErrorKind::NotFound,
        ErrorKind::IoError,
        ErrorKind::StreamError,
        ErrorKind::ExhaustedAttempts,
        ErrorKind::InvalidRoute,
    ] {
        let r = respond(Outcome::Failed(e));
        assert_eq!(r, not_found());
        assert!(!r.is_ok());
        assert_eq!(r.content_type(), None);
    }
    assert_eq!(respond(Outcome::Done), ok_empty());
    assert!(respond(Outcome::Done).is_ok());
}
