use vstd::prelude::*;

verus! {

/// Why a delivery request from the Firehose service was refused. Underlying
/// errors are carried as their messages.
#[derive(Clone, Debug, PartialEq, Eq)]
pub enum RequestError {
    AccessKeyMissing { request_id: String },
    AccessKeyInvalid { request_id: String },
    Parse { source: String, request_id: String },
    ParseRecords { source: String, request_id: String },
    Decode { source: String, request_id: String },
    ShuttingDown { source: String, request_id: String },
    UnsupportedEncoding { encoding: String, request_id: String },
    UnsupportedProtocolVersion { version: String },
}

impl RequestError {
    /// The HTTP status code answering the request: 401 for a missing or
    /// invalid access key or an unparsable request, 503 while shutting down,
    /// 400 otherwise.
    pub fn status(&self) -> (r: u16)
        ensures
            r == match *self {
                RequestError::AccessKeyMissing { .. } => 401u16,
                RequestError::AccessKeyInvalid { .. } => 401u16,
                RequestError::Parse { .. } => 401u16,
                RequestError::ShuttingDown { .. } => 503u16,
                _ => 400u16,
            },
    {
        match self {
            RequestError::AccessKeyMissing { .. } => 401,
            RequestError::AccessKeyInvalid { .. } => 401,
            RequestError::Parse { .. } => 401,
            RequestError::UnsupportedEncoding { .. } => 400,
            RequestError::ParseRecords { .. } => 400,
            RequestError::Decode { .. } => 400,
            RequestError::ShuttingDown { .. } => 503,
            RequestError::UnsupportedProtocolVersion { .. } => 400,
        }
    }

    /// The id of the refused request, where known.
    pub fn request_id(&self) -> (r: Option<&str>)
        ensures
            r.is_some() == !(*self is UnsupportedProtocolVersion),
            r.is_some() ==> r.unwrap()@ == match *self {
                RequestError::AccessKeyMissing { request_id } => request_id@,
                RequestError::AccessKeyInvalid { request_id } => request_id@,
                RequestError::Parse { request_id, .. } => request_id@,
                RequestError::ParseRecords { request_id, .. } => request_id@,
                RequestError::Decode { request_id, .. } => request_id@,
                RequestError::ShuttingDown { request_id, .. } => request_id@,
                RequestError::UnsupportedEncoding { request_id, .. } => request_id@,
                RequestError::UnsupportedProtocolVersion { .. } => Seq::<char>::empty(),
            },
    {
        match self {
            RequestError::AccessKeyMissing { request_id } => Some(request_id.as_str()),
            RequestError::AccessKeyInvalid { request_id } => Some(request_id.as_str()),
            RequestError::Parse { request_id, .. } => Some(request_id.as_str()),
            RequestError::UnsupportedEncoding { request_id, .. } => Some(request_id.as_str()),
            RequestError::ParseRecords { request_id, .. } => Some(request_id.as_str()),
            RequestError::Decode { request_id, .. } => Some(request_id.as_str()),
            RequestError::ShuttingDown { request_id, .. } => Some(request_id.as_str()),
            RequestError::UnsupportedProtocolVersion { .. } => None,
        }
    }
}

} // verus!
