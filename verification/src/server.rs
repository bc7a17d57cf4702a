//! The server: a store, the dispatch of a request to it, and the whole way
//! from the bytes of a request to the bytes of its response.

use crate::decode::{decode_request, request_of_bytes};
use crate::encode::{encode_response, response_bytes};
use crate::protocol::{DecodeError, EncodeError, NFSRequest, NFSResponse, RequestView, ResponseView};
use crate::store::{Entries, Store};
use vstd::prelude::*;

verus! {

/// The store after `request` was handled: a write puts its content under
/// its name, a read changes nothing.
pub open spec fn entries_after(entries: Entries, request: RequestView) -> Entries {
    match request {
        RequestView::Read(_) => entries,
        RequestView::Write(name, content) => entries.insert(name, content),
    }
}

/// The response to `request` on a store that holds `entries`: a read gives
/// the content under its name, or the error "not found" where there is
/// none; a write gives success.
pub open spec fn response_to(entries: Entries, request: RequestView) -> ResponseView {
    match request {
        RequestView::Read(name) => if entries.contains_key(name) {
            ResponseView::Data(entries[name])
        } else {
            ResponseView::Error("not found"@)
        },
        RequestView::Write(_, _) => ResponseView::Success,
    }
}

/// The store after the bytes of one connection were served: what the request
/// makes of it, and unchanged where the bytes are no request.
pub open spec fn entries_served(entries: Entries, received: Seq<u8>) -> Entries {
    match request_of_bytes(received) {
        Ok(request) => entries_after(entries, request),
        Err(_) => entries,
    }
}

/// The response to the bytes of one connection: the response to the request,
/// and an error with the failure's message where the bytes are no request.
pub open spec fn response_served(entries: Entries, received: Seq<u8>) -> ResponseView {
    match request_of_bytes(received) {
        Ok(request) => response_to(entries, request),
        Err(error) => ResponseView::Error(error.message_text()),
    }
}

/// The response that tells a client why its bytes were no request.
pub fn decode_failure(error: DecodeError) -> (response: NFSResponse)
    ensures
        response@ == ResponseView::Error(error.message_text()),
{
    NFSResponse::Error(error.message())
}

/// A server: the store that all connections share.
pub struct NFSServer {
    store: Store,
}

impl View for NFSServer {
    type V = Entries;

    closed spec fn view(&self) -> Entries {
        self.store@
    }
}

impl NFSServer {
    /// A server whose store is empty.
    pub fn new() -> (server: NFSServer)
        ensures
            server@ == Entries::empty(),
    {
        NFSServer { store: Store::new() }
    }

    /// Handles one request: reads from the store or writes to it, and says
    /// how it went.
    pub fn handle_request(&mut self, request: NFSRequest) -> (response: NFSResponse)
        ensures
            final(self)@ == entries_after(old(self)@, request@),
            response@ == response_to(old(self)@, request@),
    {
        match request {
            NFSRequest::Read(name) => match self.store.read(name.as_str()) {
                Some(content) => NFSResponse::Data(content),
                None => NFSResponse::Error("not found".to_owned()),
            },
            NFSRequest::Write(name, content) => {
                self.store.write(name, content);
                NFSResponse::Success
            },
        }
    }

    /// Decodes the bytes that a connection received and handles the request.
    /// Bytes that are no request leave the store as it is and give an error
    /// response.
    pub fn respond(&mut self, received: &[u8]) -> (response: NFSResponse)
        ensures
            final(self)@ == entries_served(old(self)@, received@),
            response@ == response_served(old(self)@, received@),
    {
        match decode_request(received) {
            Ok(request) => self.handle_request(request),
            Err(error) => decode_failure(error),
        }
    }

    /// Serves one connection: from the bytes it received to the bytes to
    /// send back.
    ///
    /// The store changes as [`NFSServer::respond`] says, whether or not the
    /// response can be encoded.
    pub fn handle_client(&mut self, received: &[u8]) -> (reply: Result<Vec<u8>, EncodeError>)
        ensures
            final(self)@ == entries_served(old(self)@, received@),
            match reply {
                Ok(bytes) => response_bytes(response_served(old(self)@, received@)) == Some(
                    bytes@,
                ),
                Err(error) => response_bytes(response_served(old(self)@, received@)) is None
                    && error == EncodeError::Message,
            },
    {
        let response = self.respond(received);
        encode_response(&response)
    }
}

} // verus!
