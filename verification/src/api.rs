//! The bodies of the wire protocol's requests and responses.

use vstd::prelude::*;

verus! {

/// The body of a registration request.
pub struct UserCreateReq {
    pub password: String,
    pub username: String,
}

/// The body that answers a successful registration.
pub struct UserCreateRes<'a> {
    pub username: &'a str,
}

/// The body that answers a successful credential check.
pub struct UserAuthRes<'a> {
    pub authorized: &'a str,
}

/// The body of a progress push. `percentage` holds the number as the client
/// wrote it; the service never interprets it.
pub struct ProgressPutReq {
    pub device_id: String,
    pub percentage: String,
    pub document: String,
    pub progress: String,
    pub device: String,
}

/// The body that answers a progress push: the time that the service assigned
/// to the record, and the document that it belongs to.
pub struct ProgressPutRes {
    pub timestamp: u64,
    pub document: String,
}

/// The body of the health check's answer.
pub struct HealthCheckRes<'a> {
    pub state: &'a str,
}

/// The body of every failure.
pub struct ErrorRes<'a> {
    pub message: &'a str,
    pub code: i32,
}

/// What a registration request says, as sequences of characters.
pub struct UserCreateReqView {
    pub password: Seq<char>,
    pub username: Seq<char>,
}

/// What a progress push says, as sequences of characters.
pub struct ProgressPutReqView {
    pub device_id: Seq<char>,
    pub percentage: Seq<char>,
    pub document: Seq<char>,
    pub progress: Seq<char>,
    pub device: Seq<char>,
}

impl View for UserCreateReq {
    type V = UserCreateReqView;

    open spec fn view(&self) -> UserCreateReqView {
        UserCreateReqView { password: self.password@, username: self.username@ }
    }
}

impl View for ProgressPutReq {
    type V = ProgressPutReqView;

    open spec fn view(&self) -> ProgressPutReqView {
        ProgressPutReqView {
            device_id: self.device_id@,
            percentage: self.percentage@,
            document: self.document@,
            progress: self.progress@,
            device: self.device@,
        }
    }
}

} // verus!
