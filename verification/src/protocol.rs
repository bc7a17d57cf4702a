//! The typed requests and responses of the protocol, and their mathematical
//! values.

use vstd::prelude::*;

verus! {

/// One client's intent, decoded from what a connection received.
#[derive(Debug, PartialEq, Eq)]
pub enum NFSRequest {
    /// Ask for the content stored under a name.
    Read(String),
    /// Store a content under a name, replacing what was there.
    Write(String, Vec<u8>),
}

/// The outcome of one request.
#[derive(Debug, PartialEq, Eq)]
pub enum NFSResponse {
    /// The content that a read found.
    Data(Vec<u8>),
    /// A write was carried out.
    Success,
    /// The request failed; the message says why.
    Error(String),
}

/// Why the bytes of a connection are no request.
#[derive(Debug, Clone, Copy, PartialEq, Eq, Structural)]
pub enum DecodeError {
    /// The first field is neither `READ` nor `WRITE`.
    UnknownKind,
    /// No second field: the request names nothing.
    MissingName,
    /// A `WRITE` without a third field: there is no content.
    MissingContent,
}

/// A response that could not be written out for the wire.
#[derive(Debug, Clone, Copy, PartialEq, Eq, Structural)]
pub enum EncodeError {
    /// The message of an error response has no JSON form.
    Message,
}

/// The value of an [`NFSRequest`]: names as sequences of characters, contents
/// as sequences of bytes.
pub enum RequestView {
    Read(Seq<char>),
    Write(Seq<char>, Seq<u8>),
}

/// The value of an [`NFSResponse`].
pub enum ResponseView {
    Data(Seq<u8>),
    Success,
    Error(Seq<char>),
}

impl View for NFSRequest {
    type V = RequestView;

    open spec fn view(&self) -> RequestView {
        match *self {
            NFSRequest::Read(name) => RequestView::Read(name@),
            NFSRequest::Write(name, content) => RequestView::Write(name@, content@),
        }
    }
}

impl View for NFSResponse {
    type V = ResponseView;

    open spec fn view(&self) -> ResponseView {
        match *self {
            NFSResponse::Data(content) => ResponseView::Data(content@),
            NFSResponse::Success => ResponseView::Success,
            NFSResponse::Error(message) => ResponseView::Error(message@),
        }
    }
}

impl Clone for NFSRequest {
    fn clone(&self) -> (copy: NFSRequest)
        ensures
            copy@ == self@,
    {
        match self {
            NFSRequest::Read(name) => NFSRequest::Read(name.clone()),
            NFSRequest::Write(name, content) => NFSRequest::Write(name.clone(), content.clone()),
        }
    }
}

impl Clone for NFSResponse {
    fn clone(&self) -> (copy: NFSResponse)
        ensures
            copy@ == self@,
    {
        match self {
            NFSResponse::Data(content) => NFSResponse::Data(content.clone()),
            NFSResponse::Success => NFSResponse::Success,
            NFSResponse::Error(message) => NFSResponse::Error(message.clone()),
        }
    }
}

impl DecodeError {
    /// The message that tells a client of this failure.
    pub open spec fn message_text(self) -> Seq<char> {
        match self {
            DecodeError::UnknownKind => "Invalid request type"@,
            DecodeError::MissingName => "Missing name"@,
            DecodeError::MissingContent => "Missing content"@,
        }
    }

    /// The message that tells a client of this failure.
    pub fn message(&self) -> (message: String)
        ensures
            message@ == self.message_text(),
    {
        match self {
            DecodeError::UnknownKind => "Invalid request type".to_owned(),
            DecodeError::MissingName => "Missing name".to_owned(),
            DecodeError::MissingContent => "Missing content".to_owned(),
        }
    }
}

} // verus!
