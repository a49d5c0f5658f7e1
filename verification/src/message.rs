use vstd::prelude::*;
use crate::errors::ApiError;
use crate::multiaddr::{MultiAddr, spec_parse, spec_render};
use crate::transport::{DeleteOutcome, TransportStatus};

verus! {

/// A control-API response status.
#[derive(Debug, Clone, Copy, PartialEq, Eq, Structural)]
pub enum Status {
    Success,
    BadRequest,
    NotFound,
    InternalServerError,
}

/// A control-API response body. A failed operation carries its failure
/// value, never a fabricated success-shaped payload.
#[derive(Debug)]
pub enum ResponseBody {
    Empty,
    Bytes(Vec<u8>),
    Transport(TransportStatus),
    TransportList(Vec<TransportStatus>),
    Failure(ApiError),
}

/// A structured control-API response: failures surface as status codes with
/// a reason, never as crashes.
#[derive(Debug)]
pub struct Response {
    pub status: Status,
    pub body: ResponseBody,
}

/// A node-local request to send one message: a text-encoded portable address
/// and an opaque payload.
#[derive(Debug)]
pub struct SendMessage {
    pub route: Vec<u8>,
    pub message: Vec<u8>,
}

impl SendMessage {
    pub fn new(route: &MultiAddr, message: Vec<u8>) -> (r: SendMessage)
        ensures
            r.route@ == spec_render(route@),
            r.message@ == message@,
    {
        SendMessage { route: route.to_text(), message }
    }

    /// The portable address named by the request's route text; malformed
    /// text is a format error.
    pub fn multiaddr(&self) -> (r: Result<MultiAddr, ApiError>)
        ensures
            r is Ok <==> spec_parse(self.route@) is Some,
            r matches Ok(m) ==> Some(m@) == spec_parse(self.route@),
            r matches Err(e) ==> e == ApiError::InvalidRoute,
    {
        MultiAddr::parse(&self.route)
    }
}

/// The response to a send-message request: on success status Ok with the
/// raw reply bytes, on failure an internal server error carrying the
/// failure value.
pub fn send_message_response(outcome: Result<Vec<u8>, ApiError>) -> (r: Response)
    ensures
        outcome matches Ok(b) ==> r == (Response {
            status: Status::Success,
            body: ResponseBody::Bytes(b),
        }),
        outcome matches Err(e) ==> r == (Response {
            status: Status::InternalServerError,
            body: ResponseBody::Failure(e),
        }),
{
    match outcome {
        Ok(b) => Response { status: Status::Success, body: ResponseBody::Bytes(b) },
        Err(e) => Response { status: Status::InternalServerError, body: ResponseBody::Failure(e) },
    }
}

/// The response to a transport create request: a created record on success;
/// on failure a bad-request status carrying the failure value and no
/// placeholder record.
pub fn create_transport_response(outcome: Result<TransportStatus, ApiError>) -> (r: Response)
    ensures
        outcome matches Ok(s) ==> r == (Response {
            status: Status::Success,
            body: ResponseBody::Transport(s),
        }),
        outcome matches Err(e) ==> r == (Response {
            status: Status::BadRequest,
            body: ResponseBody::Failure(e),
        }),
{
    match outcome {
        Ok(s) => Response { status: Status::Success, body: ResponseBody::Transport(s) },
        Err(e) => Response { status: Status::BadRequest, body: ResponseBody::Failure(e) },
    }
}

/// The response to a transport lookup: the record when the exact match
/// exists, a not-found status otherwise.
pub fn get_transport_response(found: Option<TransportStatus>) -> (r: Response)
    ensures
        found matches Some(s) ==> r == (Response {
            status: Status::Success,
            body: ResponseBody::Transport(s),
        }),
        found is None ==> r == (Response { status: Status::NotFound, body: ResponseBody::Empty }),
{
    match found {
        Some(s) => Response { status: Status::Success, body: ResponseBody::Transport(s) },
        None => Response { status: Status::NotFound, body: ResponseBody::Empty },
    }
}

/// The response to a transport list request.
pub fn list_transports_response(list: Vec<TransportStatus>) -> (r: Response)
    ensures
        r == (Response { status: Status::Success, body: ResponseBody::TransportList(list) }),
{
    Response { status: Status::Success, body: ResponseBody::TransportList(list) }
}

/// The response to a transport delete request: an unknown alias is a
/// bad-request outcome; anything removed is plain success.
pub fn delete_transport_response(outcome: &DeleteOutcome) -> (r: Response)
    ensures
        outcome is Unknown ==> r == (Response {
            status: Status::BadRequest,
            body: ResponseBody::Empty,
        }),
        !(outcome is Unknown) ==> r == (Response { status: Status::Success, body: ResponseBody::Empty }),
{
    match outcome {
        DeleteOutcome::Unknown => Response { status: Status::BadRequest, body: ResponseBody::Empty },
        _ => Response { status: Status::Success, body: ResponseBody::Empty },
    }
}

} // verus!
