use kosync_light::api::{ProgressPutReq, UserCreateReq};
use kosync_light::args::Arguments;
use kosync_light::keys::is_safe_key;
use kosync_light::router::{handle_request, Header, Method, Payload, Request};
use kosync_light::store::Store;

#[test]
fn ordinary_keys_are_safe() {
    assert!(is_safe_key("alice"));
    assert!(is_safe_key("0123456789abcdef0123456789abcdef"));
    assert!(is_safe_key("book.epub"));
    assert!(is_safe_key("..."));
    assert!(is_safe_key(".hidden"));
    assert!(is_safe_key("a b"));
    assert!(is_safe_key("é"));
}

#[test]
fn keys_that_leave_their_place_are_unsafe() {
    assert!(!is_safe_key(""));
    assert!(!is_safe_key("."));
    assert!(!is_safe_key(".."));
    assert!(!is_safe_key("../x"));
    assert!(!is_safe_key("a/b"));
    assert!(!is_safe_key("/"));
    assert!(!is_safe_key("a\\b"));
    assert!(!is_safe_key("a\0b"));
    assert!(!is_safe_key("end/"));
}

fn accept() -> Header {
    Header {
        field: String::from("Accept"),
        value: String::from("application/vnd.koreader.v1+json"),
    }
}

fn new_store() -> Store {
    Store::new(&Arguments {
        data_path: String::from("data"),
        address: String::from("127.0.0.1:8778"),
        noauth: false,
    })
}

#[test]
fn registration_under_an_unsafe_name_is_a_bad_body() {
    let mut s = new_store();
    let r = Request {
        method: Method::Post,
        url: String::from("/users/create"),
        headers: vec![accept()],
        user_create: Some(UserCreateReq {
            password: String::from("x"),
            username: String::from("../alice"),
        }),
        progress_put: None,
    };
    let res = handle_request(&mut s, &r, 1);
    assert_eq!(res.status, 400);
    assert!(matches!(res.payload, Payload::Error(e) if e.code == 103));
    assert!(!s.user_exists("../alice"));
}

#[test]
fn push_under_an_unsafe_key_is_a_bad_body() {
    let mut s = new_store();
    assert_eq!(s.user_create("alice", "x"), Ok(()));
    let mut r = Request {
        method: Method::Put,
        url: String::from("/syncs/progress"),
        headers: vec![
            accept(),
            Header { field: String::from("x-auth-user"), value: String::from("alice") },
            Header { field: String::from("x-auth-key"), value: String::from("x") },
        ],
        user_create: None,
        progress_put: Some(ProgressPutReq {
            device_id: String::from("d1"),
            percentage: String::from("1"),
            document: String::from("../../passwd"),
            progress: String::from("p"),
            device: String::from("dev"),
        }),
    };
    let res = handle_request(&mut s, &r, 1);
    assert_eq!(res.status, 400);
    assert!(matches!(res.payload, Payload::Error(e) if e.code == 103));
    assert!(matches!(s.document_read("alice", "../../passwd"), Ok(None)));
    if let Some(body) = r.progress_put.as_mut() {
        body.document = String::from("book");
        body.device_id = String::from("");
    }
    assert_eq!(handle_request(&mut s, &r, 1).status, 400);
    assert!(matches!(s.document_read("alice", "book"), Ok(None)));
}
