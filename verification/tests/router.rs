use kosync_light::api::{ProgressPutReq, UserCreateReq};
use kosync_light::args::Arguments;
use kosync_light::router::{handle_request, Header, Method, Payload, Request};
use kosync_light::store::Store;

const ACCEPT: &str = "application/vnd.koreader.v1+json";

fn store(noauth: bool) -> Store {
    Store::new(&Arguments {
        data_path: String::from("data"),
        address: String::from("127.0.0.1:8778"),
        noauth,
    })
}

fn header(field: &str, value: &str) -> Header {
    Header { field: String::from(field), value: String::from(value) }
}

fn request(method: Method, url: &str, headers: Vec<Header>) -> Request {
    Request { method, url: String::from(url), headers, user_create: None, progress_put: None }
}

fn authed(method: Method, url: &str, user: &str, key: &str) -> Request {
    request(
        method,
        url,
        vec![header("Accept", ACCEPT), header("x-auth-user", user), header("x-auth-key", key)],
    )
}

fn create(username: &str, password: &str) -> Request {
    let mut r = request(Method::Post, "/users/create", vec![header("Accept", ACCEPT)]);
    r.user_create =
        Some(UserCreateReq { password: String::from(password), username: String::from(username) });
    r
}

fn push(user: &str, key: &str, device_id: &str, document: &str) -> Request {
    let mut r = authed(Method::Put, "/syncs/progress", user, key);
    r.progress_put = Some(ProgressPutReq {
        device_id: String::from(device_id),
        percentage: String::from("0.25"),
        document: String::from(document),
        progress: String::from("/body/DocFragment[4]"),
        device: String::from("reader"),
    });
    r
}

fn error_of(store: &mut Store, req: &Request) -> (u32, String, i32) {
    let res = handle_request(store, req, 1);
    match res.payload {
        Payload::Error(e) => (res.status, String::from(e.message), e.code),
        _ => panic!("expected an error body"),
    }
}

#[test]
fn missing_accept_header_is_refused() {
    let mut s = store(false);
    let r = request(Method::Get, "/healthcheck", vec![]);
    assert_eq!(error_of(&mut s, &r), (412, String::from("Invalid Accept header format."), 101));
    let r = request(Method::Get, "/healthcheck", vec![header("Accept", "application/json")]);
    assert_eq!(error_of(&mut s, &r).0, 412);
    let r = request(Method::Get, "/healthcheck", vec![header("accept", ACCEPT)]);
    assert_eq!(error_of(&mut s, &r).2, 101);
}

#[test]
fn healthcheck_is_ok() {
    let mut s = store(false);
    let r = request(Method::Get, "/healthcheck", vec![header("x", "y"), header("Accept", ACCEPT)]);
    let res = handle_request(&mut s, &r, 1);
    assert_eq!(res.status, 200);
    assert!(matches!(res.payload, Payload::HealthCheck(h) if h.state == "OK"));
}

#[test]
fn unknown_route_is_not_found() {
    let mut s = store(false);
    let r = request(Method::Get, "/nothing", vec![header("Accept", ACCEPT)]);
    assert_eq!(error_of(&mut s, &r), (404, String::from("404 not found."), 404));
    let r = request(Method::Post, "/healthcheck", vec![header("Accept", ACCEPT)]);
    assert_eq!(error_of(&mut s, &r).0, 404);
    let r = request(Method::Other, "/users/auth", vec![header("Accept", ACCEPT)]);
    assert_eq!(error_of(&mut s, &r).0, 404);
    let r = request(Method::Get, "/syncs/progress", vec![header("Accept", ACCEPT)]);
    assert_eq!(error_of(&mut s, &r).0, 404);
}

#[test]
fn registration_answers_created_then_conflict() {
    let mut s = store(false);
    let r = create("alice", "x");
    let res = handle_request(&mut s, &r, 1);
    assert_eq!(res.status, 201);
    assert!(matches!(res.payload, Payload::UserCreate(b) if b.username == "alice"));
    assert!(s.user_exists("alice"));
    assert_eq!(
        error_of(&mut s, &r),
        (402, String::from("Username is already registered."), 2002)
    );
}

#[test]
fn registration_with_bad_body() {
    let mut s = store(false);
    let r = request(Method::Post, "/users/create", vec![header("Accept", ACCEPT)]);
    assert_eq!(error_of(&mut s, &r), (400, String::from("Could not parse JSON in body."), 103));
}

#[test]
fn registration_in_anonymous_mode_conflicts() {
    let mut s = store(true);
    assert_eq!(error_of(&mut s, &create("alice", "x")).0, 402);
}

#[test]
fn credential_check() {
    let mut s = store(false);
    assert_eq!(handle_request(&mut s, &create("alice", "x"), 1).status, 201);
    let good = authed(Method::Get, "/users/auth", "alice", "x");
    let res = handle_request(&mut s, &good, 1);
    assert_eq!(res.status, 200);
    assert!(matches!(res.payload, Payload::UserAuth(b) if b.authorized == "OK"));
    let bad = authed(Method::Get, "/users/auth", "alice", "y");
    assert_eq!(error_of(&mut s, &bad), (401, String::from("Unauthorized"), 2001));
    let unknown = authed(Method::Get, "/users/auth", "bob", "x");
    assert_eq!(error_of(&mut s, &unknown).0, 401);
    let no_key = request(
        Method::Get,
        "/users/auth",
        vec![header("Accept", ACCEPT), header("x-auth-user", "alice")],
    );
    assert_eq!(error_of(&mut s, &no_key).0, 401);
    let no_user = request(
        Method::Get,
        "/users/auth",
        vec![header("Accept", ACCEPT), header("x-auth-key", "x")],
    );
    assert_eq!(error_of(&mut s, &no_user).2, 2001);
}

#[test]
fn first_credential_header_counts() {
    let mut s = store(false);
    assert_eq!(handle_request(&mut s, &create("alice", "x"), 1).status, 201);
    let r = request(
        Method::Get,
        "/users/auth",
        vec![
            header("x-auth-user", "alice"),
            header("x-auth-key", "x"),
            header("x-auth-key", "wrong"),
            header("Accept", ACCEPT),
        ],
    );
    assert_eq!(handle_request(&mut s, &r, 1).status, 200);
    let r = request(
        Method::Get,
        "/users/auth",
        vec![
            header("x-auth-user", "alice"),
            header("x-auth-key", "wrong"),
            header("x-auth-key", "x"),
            header("Accept", ACCEPT),
        ],
    );
    assert_eq!(handle_request(&mut s, &r, 1).status, 401);
}

#[test]
fn register_read_push_read() {
    let mut s = store(false);
    assert_eq!(handle_request(&mut s, &create("alice", "x"), 1).status, 201);

    let read = authed(Method::Get, "/syncs/progress/book1", "alice", "x");
    let res = handle_request(&mut s, &read, 2);
    assert_eq!(res.status, 200);
    assert!(matches!(res.payload, Payload::Document(None)));

    let write = push("alice", "x", "d1", "book1");
    let res = handle_request(&mut s, &write, 1234);
    assert_eq!(res.status, 200);
    match res.payload {
        Payload::ProgressPut(b) => {
            assert_eq!(b.timestamp, 1234);
            assert_eq!(b.document, "book1");
        }
        _ => panic!("expected the push's answer"),
    }

    let res = handle_request(&mut s, &read, 5000);
    assert_eq!(res.status, 200);
    match res.payload {
        Payload::Document(Some(d)) => {
            assert_eq!(d.device_id, "d1");
            assert_eq!(d.document, "book1");
            assert_eq!(d.percentage, "0.25");
            assert_eq!(d.progress, "/body/DocFragment[4]");
            assert_eq!(d.device, "reader");
            assert_eq!(d.timestamp, 1234);
        }
        _ => panic!("expected the record"),
    }

    let other = authed(Method::Get, "/syncs/progress/book2", "alice", "x");
    assert!(matches!(handle_request(&mut s, &other, 6).payload, Payload::Document(None)));
}

#[test]
fn malformed_push_writes_nothing() {
    let mut s = store(false);
    assert_eq!(handle_request(&mut s, &create("alice", "x"), 1).status, 201);
    let bad = authed(Method::Put, "/syncs/progress", "alice", "x");
    assert_eq!(error_of(&mut s, &bad), (400, String::from("Could not parse JSON in body."), 103));
    let read = authed(Method::Get, "/syncs/progress/book1", "alice", "x");
    assert!(matches!(handle_request(&mut s, &read, 2).payload, Payload::Document(None)));
    assert!(matches!(s.document_read("alice", "book1"), Ok(None)));
}

#[test]
fn push_and_read_need_credentials() {
    let mut s = store(false);
    assert_eq!(handle_request(&mut s, &create("alice", "x"), 1).status, 201);
    assert_eq!(error_of(&mut s, &push("alice", "wrong", "d1", "book1")).0, 401);
    assert!(matches!(s.document_read("alice", "book1"), Ok(None)));
    let read = authed(Method::Get, "/syncs/progress/book1", "alice", "wrong");
    assert_eq!(error_of(&mut s, &read), (401, String::from("Unauthorized"), 2001));
    let read = request(Method::Get, "/syncs/progress/book1", vec![header("Accept", ACCEPT)]);
    assert_eq!(error_of(&mut s, &read).0, 401);
}

#[test]
fn anonymous_mode_needs_headers_but_no_account() {
    let mut s = store(true);
    let write = push("whoever", "whatever", "d1", "book1");
    let res = handle_request(&mut s, &write, 77);
    assert_eq!(res.status, 200);
    let read = authed(Method::Get, "/syncs/progress/book1", "someone", "else");
    match handle_request(&mut s, &read, 78).payload {
        Payload::Document(Some(d)) => assert_eq!(d.timestamp, 77),
        _ => panic!("expected the record"),
    }
    let bare = request(Method::Get, "/users/auth", vec![header("Accept", ACCEPT)]);
    assert_eq!(error_of(&mut s, &bare).0, 401);
}
