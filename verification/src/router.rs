//! The routing rules of the wire protocol.
//!
//! A request arrives as plain values: its method, its path, its headers in
//! the order they were sent, and its body as decoded for each of the two
//! routes that read one. The answer is a status and a typed body; turning
//! either into bytes is left to the caller.

use crate::api::{
    ErrorRes, HealthCheckRes, ProgressPutReq, ProgressPutReqView, ProgressPutRes, UserAuthRes,
    UserCreateReq, UserCreateReqView, UserCreateRes,
};
use crate::digest::sha256_hex;
use crate::keys::{is_safe_key, safe_key};
use crate::store::{
    lemma_put_wf, lemma_with_user_wf, pushed, DocumentData, DocumentDataView, Store, StoreView,
};
use crate::text::{same_text, strip_prefix};
use vstd::prelude::*;

verus! {

/// The method of a request.
#[derive(Clone, Copy, Debug, PartialEq, Eq, Structural)]
pub enum Method {
    Get,
    Post,
    Put,
    /// Any method that no route answers to.
    Other,
}

/// One header of a request.
pub struct Header {
    pub field: String,
    pub value: String,
}

/// A header as plain values.
pub struct HeaderView {
    pub field: Seq<char>,
    pub value: Seq<char>,
}

impl View for Header {
    type V = HeaderView;

    open spec fn view(&self) -> HeaderView {
        HeaderView { field: self.field@, value: self.value@ }
    }
}

/// A request. `user_create` holds the body where it decodes as a
/// registration, `progress_put` where it decodes as a progress push. A body
/// that names a username, device or document which cannot serve as a storage
/// key is answered like one that does not decode.
pub struct Request {
    pub method: Method,
    pub url: String,
    pub headers: Vec<Header>,
    pub user_create: Option<UserCreateReq>,
    pub progress_put: Option<ProgressPutReq>,
}

/// A request as plain values.
pub struct RequestView {
    pub method: Method,
    pub url: Seq<char>,
    pub headers: Seq<HeaderView>,
    pub user_create: Option<UserCreateReqView>,
    pub progress_put: Option<ProgressPutReqView>,
}

impl View for Request {
    type V = RequestView;

    open spec fn view(&self) -> RequestView {
        RequestView {
            method: self.method,
            url: self.url@,
            headers: Seq::new(self.headers.len() as nat, |i: int| self.headers[i]@),
            user_create: match self.user_create {
                Some(b) => Some(b@),
                None => None,
            },
            progress_put: match self.progress_put {
                Some(b) => Some(b@),
                None => None,
            },
        }
    }
}

/// The body of an answer.
pub enum Payload<'a> {
    Error(ErrorRes<'a>),
    UserCreate(UserCreateRes<'a>),
    UserAuth(UserAuthRes<'a>),
    ProgressPut(ProgressPutRes),
    /// The current record of a document; `None` is sent as an empty object.
    Document(Option<DocumentData>),
    HealthCheck(HealthCheckRes<'a>),
}

/// An answer: the status and the body.
pub struct Response<'a> {
    pub status: u32,
    pub payload: Payload<'a>,
}

/// The body of an answer as plain values.
pub enum PayloadView {
    Error { message: Seq<char>, code: i32 },
    UserCreate { username: Seq<char> },
    UserAuth { authorized: Seq<char> },
    ProgressPut { timestamp: u64, document: Seq<char> },
    Document(Option<DocumentDataView>),
    HealthCheck { state: Seq<char> },
}

/// An answer as plain values.
pub struct ResponseView {
    pub status: u32,
    pub payload: PayloadView,
}

impl<'a> View for Response<'a> {
    type V = ResponseView;

    open spec fn view(&self) -> ResponseView {
        ResponseView {
            status: self.status,
            payload: match self.payload {
                Payload::Error(e) => PayloadView::Error { message: e.message@, code: e.code },
                Payload::UserCreate(b) => PayloadView::UserCreate { username: b.username@ },
                Payload::UserAuth(b) => PayloadView::UserAuth { authorized: b.authorized@ },
                Payload::ProgressPut(b) => PayloadView::ProgressPut {
                    timestamp: b.timestamp,
                    document: b.document@,
                },
                Payload::Document(Some(d)) => PayloadView::Document(Some(d@)),
                Payload::Document(None) => PayloadView::Document(None),
                Payload::HealthCheck(b) => PayloadView::HealthCheck { state: b.state@ },
            },
        }
    }
}

/// Header `i` is the first one with this field name.
pub open spec fn header_at(headers: Seq<HeaderView>, field: Seq<char>, i: int) -> bool {
    &&& 0 <= i < headers.len()
    &&& headers[i].field == field
    &&& forall|j: int| 0 <= j < i ==> (#[trigger] headers[j]).field != field
}

/// The value of the first header with this field name, compared exactly.
pub open spec fn header_value(headers: Seq<HeaderView>, field: Seq<char>) -> Option<Seq<char>> {
    if exists|i: int| header_at(headers, field, i) {
        Some(headers[choose|i: int| header_at(headers, field, i)].value)
    } else {
        None
    }
}

/// Some header asks for the protocol's media type.
pub open spec fn accepts(headers: Seq<HeaderView>) -> bool {
    headers.contains(
        HeaderView { field: "Accept"@, value: "application/vnd.koreader.v1+json"@ },
    )
}

/// The username that the request's credentials authenticate, if they do:
/// both credential headers are there, and the key is a password of the user.
pub open spec fn authorized(s: StoreView, headers: Seq<HeaderView>) -> Option<Seq<char>> {
    match (header_value(headers, "x-auth-user"@), header_value(headers, "x-auth-key"@)) {
        (Some(user), Some(key)) => if s.user_auth(user, sha256_hex(key)) {
            Some(user)
        } else {
            None
        },
        _ => None,
    }
}

/// A failure's answer.
pub open spec fn failure(status: u32, message: Seq<char>, code: i32) -> ResponseView {
    ResponseView { status, payload: PayloadView::Error { message, code } }
}

/// The answer to missing or wrong credentials.
pub open spec fn unauthorized() -> ResponseView {
    failure(401, "Unauthorized"@, 2001)
}

/// The answer to a body that does not decode.
pub open spec fn bad_body() -> ResponseView {
    failure(400, "Could not parse JSON in body."@, 103)
}

/// The store after a request received at `now`, and the answer to it.
pub open spec fn respond(s: StoreView, req: RequestView, now: u64) -> (StoreView, ResponseView) {
    if !accepts(req.headers) {
        (s, failure(412, "Invalid Accept header format."@, 101))
    } else if req.method == Method::Post && req.url == "/users/create"@ {
        match req.user_create {
            Some(body) => if s.user_exists(body.username) {
                (s, failure(402, "Username is already registered."@, 2002))
            } else if !safe_key(body.username) {
                (s, bad_body())
            } else {
                (
                    s.user_create(body.username, sha256_hex(body.password)),
                    ResponseView {
                        status: 201,
                        payload: PayloadView::UserCreate { username: body.username },
                    },
                )
            },
            None => (s, bad_body()),
        }
    } else if req.method == Method::Get && req.url == "/users/auth"@ {
        match authorized(s, req.headers) {
            Some(_) => (
                s,
                ResponseView { status: 200, payload: PayloadView::UserAuth { authorized: "OK"@ } },
            ),
            None => (s, unauthorized()),
        }
    } else if req.method == Method::Put && req.url == "/syncs/progress"@ {
        match authorized(s, req.headers) {
            Some(user) => match req.progress_put {
                Some(body) => if safe_key(body.device_id) && safe_key(body.document) {
                    (
                        s.put(pushed(s.identity(user), body, now)),
                        ResponseView {
                            status: 200,
                            payload: PayloadView::ProgressPut {
                                timestamp: now,
                                document: body.document,
                            },
                        },
                    )
                } else {
                    (s, bad_body())
                },
                None => (s, bad_body()),
            },
            None => (s, unauthorized()),
        }
    } else if req.method == Method::Get && "/syncs/progress/"@.is_prefix_of(req.url) {
        match authorized(s, req.headers) {
            Some(user) => (
                s,
                ResponseView {
                    status: 200,
                    payload: PayloadView::Document(
                        s.latest(s.identity(user), req.url.skip("/syncs/progress/"@.len() as int)),
                    ),
                },
            ),
            None => (s, unauthorized()),
        }
    } else if req.method == Method::Get && req.url == "/healthcheck"@ {
        (s, ResponseView { status: 200, payload: PayloadView::HealthCheck { state: "OK"@ } })
    } else {
        (s, failure(404, "404 not found."@, 404))
    }
}

/// Every request leaves the store's keys unique.
pub proof fn lemma_respond_wf(s: StoreView, req: RequestView, now: u64)
    requires
        s.wf(),
    ensures
        respond(s, req, now).0.wf(),
{
    if req.user_create is Some {
        let body = req.user_create->0;
        if !s.user_exists(body.username) {
            lemma_with_user_wf(s, body.username, sha256_hex(body.password));
        }
    }
    if req.progress_put is Some && authorized(s, req.headers) is Some {
        lemma_put_wf(
            s,
            pushed(s.identity(authorized(s, req.headers)->0), req.progress_put->0, now),
        );
    }
}

/// A progress push whose body does not decode is answered with status 400
/// and code 103, and writes nothing.
pub proof fn lemma_bad_push_writes_nothing(s: StoreView, req: RequestView, now: u64)
    requires
        accepts(req.headers),
        req.method == Method::Put,
        req.url == "/syncs/progress"@,
        authorized(s, req.headers) is Some,
        req.progress_put is None,
    ensures
        respond(s, req, now).0 == s,
        respond(s, req, now).1.status == 400,
        respond(s, req, now).1.payload is Error,
        respond(s, req, now).1.payload->Error_code == 103,
{
}

/// Builds a failure's answer.
fn failed<'a>(status: u32, message: &'a str, code: i32) -> (res: Response<'a>)
    ensures
        res@ == failure(status, message@, code),
{
    Response { status, payload: Payload::Error(ErrorRes { message, code }) }
}

/// The place of the first header with this field name.
fn find_header(headers: &Vec<Header>, field: &str) -> (r: Option<usize>)
    ensures
        match r {
            Some(i) => i < headers.len() && header_at(
                Seq::new(headers.len() as nat, |i: int| headers[i]@),
                field@,
                i as int,
            ),
            None => header_value(Seq::new(headers.len() as nat, |i: int| headers[i]@), field@)
                is None,
        },
{
    let ghost view = Seq::new(headers.len() as nat, |i: int| headers[i]@);
    let n: usize = headers.len();
    let mut i: usize = 0;
    while i < n
        invariant
            n == headers.len(),
            i <= n,
            view == Seq::new(headers.len() as nat, |i: int| headers[i]@),
            forall|j: int| 0 <= j < i ==> (#[trigger] view[j]).field != field@,
        decreases n - i,
    {
        if same_text(headers[i].field.as_str(), field) {
            return Some(i);
        }
        i += 1;
    }
    proof {
        assert forall|k: int| !header_at(view, field@, k) by {
            if 0 <= k < view.len() {
                assert(view[k].field != field@);
            }
        }
    }
    None
}

/// Whether some header asks for the protocol's media type.
fn accepts_protocol(headers: &Vec<Header>) -> (b: bool)
    ensures
        b == accepts(Seq::new(headers.len() as nat, |i: int| headers[i]@)),
{
    let ghost view = Seq::new(headers.len() as nat, |i: int| headers[i]@);
    let ghost want = HeaderView { field: "Accept"@, value: "application/vnd.koreader.v1+json"@ };
    let n: usize = headers.len();
    let mut i: usize = 0;
    while i < n
        invariant
            n == headers.len(),
            i <= n,
            view == Seq::new(headers.len() as nat, |i: int| headers[i]@),
            want == (HeaderView { field: "Accept"@, value: "application/vnd.koreader.v1+json"@ }),
            forall|j: int| 0 <= j < i ==> (#[trigger] view[j]) != want,
        decreases n - i,
    {
        if same_text(headers[i].field.as_str(), "Accept") && same_text(
            headers[i].value.as_str(),
            "application/vnd.koreader.v1+json",
        ) {
            assert(view[i as int] == want);
            return true;
        }
        i += 1;
    }
    false
}

/// The username of the request's credentials where they authenticate.
fn credentials<'a>(store: &Store, headers: &'a Vec<Header>) -> (r: Option<&'a str>)
    requires
        store.wf(),
    ensures
        match r {
            Some(user) => authorized(
                store@,
                Seq::new(headers.len() as nat, |i: int| headers[i]@),
            ) == Some(user@),
            None => authorized(store@, Seq::new(headers.len() as nat, |i: int| headers[i]@))
                is None,
        },
{
    let ghost view = Seq::new(headers.len() as nat, |i: int| headers[i]@);
    let user = find_header(headers, "x-auth-user");
    let key = find_header(headers, "x-auth-key");
    match (user, key) {
        (Some(u), Some(k)) => {
            proof {
                lemma_first_header(view, "x-auth-user"@, u as int);
                lemma_first_header(view, "x-auth-key"@, k as int);
            }
            if store.user_auth(headers[u].value.as_str(), headers[k].value.as_str()) {
                Some(headers[u].value.as_str())
            } else {
                None
            }
        },
        _ => None,
    }
}

/// The first header with a field name is the one whose value counts.
pub proof fn lemma_first_header(headers: Seq<HeaderView>, field: Seq<char>, i: int)
    requires
        header_at(headers, field, i),
    ensures
        header_value(headers, field) == Some(headers[i].value),
{
    let c = choose|c: int| header_at(headers, field, c);
    if c < i {
        assert(headers[c].field != field);
    } else if i < c {
        assert(headers[i].field != field);
    }
}

/// Answers one request received at `now`, reading and changing the store as
/// its route says.
///
/// Without the protocol's `Accept` header every request is refused. The
/// routes are: registration, credential check, progress push, progress read
/// and health check; anything else is not found. The three middle routes
/// need credentials that authenticate. Only a registration of a new
/// username and an authenticated push with a decoded body change the store,
/// and only under keys that are safe to store under.
pub fn handle_request<'a>(store: &mut Store, req: &'a Request, now: u64) -> (res: Response<'a>)
    requires
        old(store).wf(),
    ensures
        final(store).wf(),
        final(store)@ == respond(old(store)@, req@, now).0,
        res@ == respond(old(store)@, req@, now).1,
{
    if !accepts_protocol(&req.headers) {
        return failed(412, "Invalid Accept header format.", 101);
    }
    let url: &str = req.url.as_str();
    if req.method == Method::Post && same_text(url, "/users/create") {
        match &req.user_create {
            Some(body) => {
                if store.user_exists(body.username.as_str()) {
                    failed(402, "Username is already registered.", 2002)
                } else if !is_safe_key(body.username.as_str()) {
                    failed(400, "Could not parse JSON in body.", 103)
                } else {
                    match store.user_create(body.username.as_str(), body.password.as_str()) {
                        Ok(()) => Response {
                            status: 201,
                            payload: Payload::UserCreate(
                                UserCreateRes { username: body.username.as_str() },
                            ),
                        },
                        Err(_) => vstd::pervasive::unreached(),
                    }
                }
            },
            None => failed(400, "Could not parse JSON in body.", 103),
        }
    } else if req.method == Method::Get && same_text(url, "/users/auth") {
        match credentials(store, &req.headers) {
            Some(_) => Response {
                status: 200,
                payload: Payload::UserAuth(UserAuthRes { authorized: "OK" }),
            },
            None => failed(401, "Unauthorized", 2001),
        }
    } else if req.method == Method::Put && same_text(url, "/syncs/progress") {
        match credentials(store, &req.headers) {
            Some(user) => match &req.progress_put {
                Some(body) => {
                    if is_safe_key(body.device_id.as_str()) && is_safe_key(
                        body.document.as_str(),
                    ) {
                        match store.document_update(user, body, now) {
                            Ok(stored) => Response {
                                status: 200,
                                payload: Payload::ProgressPut(stored),
                            },
                            Err(_) => vstd::pervasive::unreached(),
                        }
                    } else {
                        failed(400, "Could not parse JSON in body.", 103)
                    }
                },
                None => failed(400, "Could not parse JSON in body.", 103),
            },
            None => failed(401, "Unauthorized", 2001),
        }
    } else if req.method == Method::Get {
        match strip_prefix(url, "/syncs/progress/") {
            Some(document) => match credentials(store, &req.headers) {
                Some(user) => match store.document_read(user, document) {
                    Ok(found) => Response { status: 200, payload: Payload::Document(found) },
                    Err(_) => vstd::pervasive::unreached(),
                },
                None => failed(401, "Unauthorized", 2001),
            },
            None => {
                if same_text(url, "/healthcheck") {
                    Response {
                        status: 200,
                        payload: Payload::HealthCheck(HealthCheckRes { state: "OK" }),
                    }
                } else {
                    failed(404, "404 not found.", 404)
                }
            },
        }
    } else {
        failed(404, "404 not found.", 404)
    }
}

} // verus!
