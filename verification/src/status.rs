//! Status and failure types of the modem fetch pipeline.

use vstd::prelude::*;

verus! {

/// Why a fetch failed.
#[derive(Clone, Copy, PartialEq, Eq, Structural, Debug)]
pub enum HttpFailReason {
    Unknown,
    InternalTimeout,
    ServerTimeout,
    InternalError,
    ServerError,
}

/// A finished fetch: the captured status code and the sliced body bytes.
#[derive(Debug, PartialEq)]
pub struct HttpResponse {
    pub status_code: u16,
    pub body: Vec<u8>,
}

/// What one poll of the fetch pipeline reports.
#[derive(Debug, PartialEq)]
pub enum HttpUpdateStatus {
    NotStarted,
    Processing,
    Failed(HttpFailReason),
    Finished(HttpResponse),
}

/// Mathematical image of a finished response.
#[verifier::ext_equal]
pub struct ResponseModel {
    pub status_code: u16,
    pub body: Seq<u8>,
}

/// Mathematical image of a poll result.
#[verifier::ext_equal]
pub enum StatusModel {
    NotStarted,
    Processing,
    Failed(HttpFailReason),
    Finished(ResponseModel),
}

impl View for HttpResponse {
    type V = ResponseModel;

    open spec fn view(&self) -> ResponseModel {
        ResponseModel { status_code: self.status_code, body: self.body@ }
    }
}

impl View for HttpUpdateStatus {
    type V = StatusModel;

    open spec fn view(&self) -> StatusModel {
        match self {
            HttpUpdateStatus::NotStarted => StatusModel::NotStarted,
            HttpUpdateStatus::Processing => StatusModel::Processing,
            HttpUpdateStatus::Failed(r) => StatusModel::Failed(*r),
            HttpUpdateStatus::Finished(r) => StatusModel::Finished(r@),
        }
    }
}

/// Transport-level failures are recoverable by retry or power-cycle; the
/// remaining reasons are server-level and are not retried in-session.
pub open spec fn is_transport_failure(r: HttpFailReason) -> bool {
    ||| r == HttpFailReason::InternalTimeout
    ||| r == HttpFailReason::InternalError
    ||| r == HttpFailReason::Unknown
}

/// Run-time test matching `is_transport_failure`.
pub fn transport_failure(r: HttpFailReason) -> (b: bool)
    ensures
        b == is_transport_failure(r),
{
    r == HttpFailReason::InternalTimeout || r == HttpFailReason::InternalError || r
        == HttpFailReason::Unknown
}

} // verus!
