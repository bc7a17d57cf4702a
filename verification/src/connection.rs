//! One connection, from accept to close.
//!
//! A connection carries one request and one response:
//!
//! ```text
//! Accepted -> ReadRequest -> Decoded | DecodeFailed -> Dispatched -> ResponseSent -> Closed
//! ```
//!
//! The code that owns the socket performs the reads and writes and tells the
//! connection what happened; the connection decides what comes next. A step
//! that the state does not allow closes the connection.

use crate::decode::{decode_request, request_of_bytes};
use crate::encode::{encode_response, response_bytes};
use crate::protocol::{DecodeError, NFSRequest, NFSResponse, RequestView, ResponseView};
use crate::server::{
    decode_failure, entries_after, entries_served, response_served, response_to, NFSServer,
};
use crate::store::Entries;
use vstd::prelude::*;

verus! {

/// The size of the buffer for the one receive of a connection: a request,
/// content included, has to fit in it.
pub const MAX_REQUEST_LEN: usize = 1024;

/// Where a connection stands.
#[derive(Debug, PartialEq, Eq)]
pub enum Connection {
    /// Accepted; nothing has been read.
    Accepted,
    /// The one receive is under way.
    ReadRequest,
    /// The bytes received are this request, which the server has yet to
    /// handle.
    Decoded(NFSRequest),
    /// The bytes received are no request.
    DecodeFailed(DecodeError),
    /// This response is to be sent.
    Dispatched(NFSResponse),
    /// The response was written.
    ResponseSent,
    /// Done; nothing follows.
    Closed,
}

/// The value of a [`Connection`].
pub enum ConnectionView {
    Accepted,
    ReadRequest,
    Decoded(RequestView),
    DecodeFailed(DecodeError),
    Dispatched(ResponseView),
    ResponseSent,
    Closed,
}

/// What can happen to a connection.
pub enum Step {
    /// The handler starts the receive.
    ReadStarted,
    /// The receive returned these bytes.
    Received(Seq<u8>),
    /// The server, whose store holds these entries, handles the request.
    Dispatch(Entries),
    /// The failure to decode is answered without the server.
    Refuse,
    /// The response was written.
    Sent,
    /// The connection is closed: after the response, or because a read or a
    /// write failed.
    Close,
}

impl View for Connection {
    type V = ConnectionView;

    open spec fn view(&self) -> ConnectionView {
        match *self {
            Connection::Accepted => ConnectionView::Accepted,
            Connection::ReadRequest => ConnectionView::ReadRequest,
            Connection::Decoded(request) => ConnectionView::Decoded(request@),
            Connection::DecodeFailed(error) => ConnectionView::DecodeFailed(error),
            Connection::Dispatched(response) => ConnectionView::Dispatched(response@),
            Connection::ResponseSent => ConnectionView::ResponseSent,
            Connection::Closed => ConnectionView::Closed,
        }
    }
}

impl ConnectionView {
    /// The state that follows `self` when `step` happens.
    pub open spec fn after(self, step: Step) -> ConnectionView {
        match (self, step) {
            (ConnectionView::Accepted, Step::ReadStarted) => ConnectionView::ReadRequest,
            (ConnectionView::ReadRequest, Step::Received(bytes)) => match request_of_bytes(bytes) {
                Ok(request) => ConnectionView::Decoded(request),
                Err(error) => ConnectionView::DecodeFailed(error),
            },
            (ConnectionView::Decoded(request), Step::Dispatch(entries)) => ConnectionView::Dispatched(
                response_to(entries, request),
            ),
            (ConnectionView::DecodeFailed(error), Step::Dispatch(_)) => ConnectionView::Dispatched(
                ResponseView::Error(error.message_text()),
            ),
            (ConnectionView::DecodeFailed(error), Step::Refuse) => ConnectionView::Dispatched(
                ResponseView::Error(error.message_text()),
            ),
            (ConnectionView::Dispatched(_), Step::Sent) => ConnectionView::ResponseSent,
            _ => ConnectionView::Closed,
        }
    }

    /// The store after the dispatch of a connection in state `self`: only
    /// a decoded request touches it.
    pub open spec fn entries_dispatched(self, entries: Entries) -> Entries {
        match self {
            ConnectionView::Decoded(request) => entries_after(entries, request),
            _ => entries,
        }
    }

    /// The bytes to write to the client: the encoded response of a
    /// connection that has one; `None` in every other state, and where the
    /// response cannot be encoded.
    pub open spec fn reply(self) -> Option<Seq<u8>> {
        match self {
            ConnectionView::Dispatched(response) => response_bytes(response),
            _ => None,
        }
    }

    /// How far a connection has come.
    pub open spec fn progress(self) -> nat {
        match self {
            ConnectionView::Accepted => 0,
            ConnectionView::ReadRequest => 1,
            ConnectionView::Decoded(_) => 2,
            ConnectionView::DecodeFailed(_) => 2,
            ConnectionView::Dispatched(_) => 3,
            ConnectionView::ResponseSent => 4,
            ConnectionView::Closed => 5,
        }
    }

    /// The state after the steps happened one after another, the first one
    /// first.
    pub open spec fn after_all(self, steps: Seq<Step>) -> ConnectionView
        decreases steps.len(),
    {
        if steps.len() == 0 {
            self
        } else {
            self.after_all(steps.drop_last()).after(steps.last())
        }
    }
}

impl Connection {
    /// A connection that was just accepted.
    pub fn accept() -> (connection: Connection)
        ensures
            connection@ == ConnectionView::Accepted,
    {
        Connection::Accepted
    }

    /// The handler starts the one receive.
    pub fn read_started(self) -> (next: Connection)
        ensures
            next@ == self@.after(Step::ReadStarted),
    {
        match self {
            Connection::Accepted => Connection::ReadRequest,
            _ => Connection::Closed,
        }
    }

    /// The receive returned `bytes`, which are decoded. No bytes at all are
    /// an empty request, which is no request.
    pub fn received(self, bytes: &[u8]) -> (next: Connection)
        ensures
            next@ == self@.after(Step::Received(bytes@)),
    {
        match self {
            Connection::ReadRequest => match decode_request(bytes) {
                Ok(request) => Connection::Decoded(request),
                Err(error) => Connection::DecodeFailed(error),
            },
            _ => Connection::Closed,
        }
    }

    /// Whether the next step needs the server: true of a decoded request
    /// only.
    pub fn needs_server(&self) -> (needed: bool)
        ensures
            needed == (self@ is Decoded),
    {
        match self {
            Connection::Decoded(_) => true,
            _ => false,
        }
    }

    /// The server handles the request. The caller has exclusive access to
    /// the server for the length of this call. A failure to decode is
    /// answered here too, and leaves the server as it is.
    pub fn dispatch(self, server: &mut NFSServer) -> (next: Connection)
        ensures
            next@ == self@.after(Step::Dispatch(old(server)@)),
            final(server)@ == self@.entries_dispatched(old(server)@),
    {
        match self {
            Connection::Decoded(request) => Connection::Dispatched(server.handle_request(request)),
            Connection::DecodeFailed(error) => Connection::Dispatched(decode_failure(error)),
            _ => Connection::Closed,
        }
    }

    /// Answers a failure to decode without the server.
    pub fn refuse(self) -> (next: Connection)
        ensures
            next@ == self@.after(Step::Refuse),
    {
        match self {
            Connection::DecodeFailed(error) => Connection::Dispatched(decode_failure(error)),
            _ => Connection::Closed,
        }
    }

    /// The bytes to write to the client, where a response is to be sent and
    /// can be encoded.
    pub fn reply(&self) -> (bytes: Option<Vec<u8>>)
        ensures
            match bytes {
                Some(written) => self@.reply() == Some(written@),
                None => self@.reply() is None,
            },
    {
        match self {
            Connection::Dispatched(response) => match encode_response(response) {
                Ok(written) => Some(written),
                Err(_) => None,
            },
            _ => None,
        }
    }

    /// The response was written.
    pub fn sent(self) -> (next: Connection)
        ensures
            next@ == self@.after(Step::Sent),
    {
        match self {
            Connection::Dispatched(_) => Connection::ResponseSent,
            _ => Connection::Closed,
        }
    }

    /// Closes the connection, whatever its state.
    pub fn close(self) -> (next: Connection)
        ensures
            next@ == self@.after(Step::Close),
            next@ == ConnectionView::Closed,
    {
        Connection::Closed
    }

    /// Whether the connection is closed.
    pub fn is_closed(&self) -> (closed: bool)
        ensures
            closed == (self@ is Closed),
    {
        match self {
            Connection::Closed => true,
            _ => false,
        }
    }
}

/// A connection that runs its course serves the bytes it received: the
/// response to send is the response to those bytes, and the store changes as
/// they say.
pub proof fn lemma_connection_serves(entries: Entries, received: Seq<u8>)
    ensures
        ({
            let decoded = ConnectionView::Accepted.after(Step::ReadStarted).after(
                Step::Received(received),
            );
            let dispatched = decoded.after(Step::Dispatch(entries));
            &&& dispatched == ConnectionView::Dispatched(response_served(entries, received))
            &&& dispatched.reply() == response_bytes(response_served(entries, received))
            &&& decoded.entries_dispatched(entries) == entries_served(entries, received)
            &&& dispatched.after(Step::Sent).after(Step::Close) is Closed
        }),
{
}

/// Every step moves a connection forward, and a closed connection stays
/// closed.
pub proof fn lemma_step_progress(state: ConnectionView, step: Step)
    ensures
        state.after(step).progress() > state.progress() || (state is Closed && state.after(step)
            is Closed),
        state.after(step).progress() <= 5,
{
}

/// The progress of a connection after some steps is at least the number of
/// steps, up to the progress of a closed connection.
pub proof fn lemma_run_progress(state: ConnectionView, steps: Seq<Step>)
    ensures
        state.after_all(steps).progress() >= state.progress(),
        state.after_all(steps).progress() >= steps.len() || state.after_all(steps) is Closed,
    decreases steps.len(),
{
    if steps.len() > 0 {
        lemma_run_progress(state, steps.drop_last());
        lemma_step_progress(state.after_all(steps.drop_last()), steps.last());
    }
}

/// After five steps, whatever they are, a connection is closed.
pub proof fn lemma_run_closes(state: ConnectionView, steps: Seq<Step>)
    requires
        steps.len() >= 5,
    ensures
        state.after_all(steps) is Closed,
{
    lemma_run_progress(state, steps);
}

/// The steps of a run can be taken in two parts.
pub proof fn lemma_run_split(state: ConnectionView, front: Seq<Step>, back: Seq<Step>)
    ensures
        state.after_all(front + back) == state.after_all(front).after_all(back),
    decreases back.len(),
{
    if back.len() == 0 {
        assert(front + back =~= front);
    } else {
        lemma_run_split(state, front, back.drop_last());
        assert((front + back).drop_last() =~= front + back.drop_last());
        assert((front + back).last() == back.last());
    }
}

/// A run of at least one step ends further on than it began, or closed.
pub proof fn lemma_run_strict(state: ConnectionView, steps: Seq<Step>)
    requires
        steps.len() >= 1,
    ensures
        state.after_all(steps).progress() > state.progress() || state.after_all(steps) is Closed,
{
    lemma_run_progress(state, steps.drop_last());
    lemma_step_progress(state.after_all(steps.drop_last()), steps.last());
}

/// One request for each connection: once a request was decoded, no later
/// step of the connection finds another one to dispatch.
pub proof fn lemma_one_request(state: ConnectionView, steps: Seq<Step>, first: int, second: int)
    requires
        0 <= first < second <= steps.len(),
        state.after_all(steps.take(first)) is Decoded,
    ensures
        !(state.after_all(steps.take(second)) is Decoded),
{
    let early = steps.take(first);
    let between = steps.subrange(first, second);
    assert(early + between =~= steps.take(second));
    lemma_run_split(state, early, between);
    lemma_run_strict(state.after_all(early), between);
}

} // verus!
