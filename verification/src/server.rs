//! The server half: a router that reads the sequential message stream of
//! each inbound tunnel connection, opens a backend relay per logical stream,
//! routes `Data` to the right relay, and removes stream state on close. The
//! sockets and the read loop live outside; every dispatch decision is made
//! here, over the shared stream map.

use vstd::prelude::*;

use crate::config::ServerConfig;
use crate::framing::spec_frame;
use crate::protocol::Message;
use crate::protocol::MessageView;
use crate::protocol::MAX_PAYLOAD_LEN;
use crate::registry::StreamRegistry;

verus! {

/// What the router's read loop must do after one message is dispatched.
#[derive(Clone, Copy, Debug, PartialEq, Eq, Structural)]
pub enum RouterAction {
    /// Dial the backend for this new stream; on success, report it through
    /// `Server::open_stream` so the stream is registered. A failed dial
    /// leaves the id unregistered, and its data is silently dropped.
    OpenBackend { stream_id: u32 },
    /// A `Data` payload was routed to its stream's relay, or dropped
    /// (`delivered` false) because the stream is unknown or already closed.
    Routed { delivered: bool },
    /// The stream's state was removed; its relay, if still running, observes
    /// its queue closing and terminates.
    Closed { stream_id: u32 },
    /// Nothing to do.
    Nothing,
}

/// Router state: the configuration and the shared map from stream id to the
/// queue feeding that stream's backend relay.
pub struct Server {
    config: ServerConfig,
    streams: StreamRegistry,
}

impl Server {
    /// The configuration the server was built with.
    pub closed spec fn spec_config(&self) -> ServerConfig {
        self.config
    }

    /// The map from open stream id to the payloads pending for its backend.
    pub closed spec fn streams_view(&self) -> Map<u32, Seq<Seq<u8>>> {
        self.streams@
    }

    /// A router with no logical stream open.
    pub fn new(config: ServerConfig) -> (r: Server)
        ensures
            r.spec_config() == config,
            r.streams_view() == Map::<u32, Seq<Seq<u8>>>::empty(),
    {
        Server { config, streams: StreamRegistry::new() }
    }

    /// Dispatches one decoded tunnel message:
    /// - `NewStream` changes nothing yet — the backend must be dialed first,
    ///   an outside effect the returned action asks for;
    /// - `Data` is delivered to the stream's queue, or dropped when the id
    ///   is not open (a normal outcome, not an error);
    /// - `CloseStream` removes the stream's state, idempotently;
    /// - `Heartbeat` is a no-op.
    pub fn handle_message(&mut self, msg: Message) -> (action: RouterAction)
        ensures
            final(self).spec_config() == old(self).spec_config(),
            match msg@ {
                MessageView::NewStream { stream_id } => {
                    &&& action == (RouterAction::OpenBackend { stream_id })
                    &&& final(self).streams_view() == old(self).streams_view()
                },
                MessageView::Data { stream_id, data } => {
                    &&& action == (RouterAction::Routed {
                        delivered: old(self).streams_view().contains_key(stream_id),
                    })
                    &&& old(self).streams_view().contains_key(stream_id) ==> final(self).streams_view() == old(self).streams_view().insert(
                        stream_id,
                        old(self).streams_view()[stream_id].push(data),
                    )
                    &&& !old(self).streams_view().contains_key(stream_id) ==> final(self).streams_view() == old(self).streams_view()
                },
                MessageView::CloseStream { stream_id } => {
                    &&& action == (RouterAction::Closed { stream_id })
                    &&& final(self).streams_view() == old(self).streams_view().remove(stream_id)
                },
                MessageView::Heartbeat => {
                    &&& action == RouterAction::Nothing
                    &&& final(self).streams_view() == old(self).streams_view()
                },
            },
    {
        match msg {
            Message::NewStream { stream_id } => RouterAction::OpenBackend { stream_id },
            Message::Data { stream_id, data } => {
                let delivered = self.streams.deliver(stream_id, data);
                RouterAction::Routed { delivered }
            }
            Message::CloseStream { stream_id } => {
                self.streams.deregister(stream_id);
                RouterAction::Closed { stream_id }
            }
            Message::Heartbeat => RouterAction::Nothing,
        }
    }

    /// Registers a stream once its backend connection has been dialed: the
    /// stream gets a fresh queue, and its `Data` is routed from here on.
    pub fn open_stream(&mut self, stream_id: u32)
        ensures
            final(self).spec_config() == old(self).spec_config(),
            final(self).streams_view() == old(self).streams_view().insert(
                stream_id,
                Seq::<Seq<u8>>::empty(),
            ),
    {
        self.streams.register(stream_id);
    }

    /// One step of a relay's tunnel-to-backend pump: the oldest payload
    /// pending for the stream, to be written to the backend socket; `None`
    /// while nothing is pending.
    pub fn take_for_backend(&mut self, stream_id: u32) -> (r: Option<Vec<u8>>)
        ensures
            final(self).spec_config() == old(self).spec_config(),
            match r {
                Some(p) => {
                    &&& old(self).streams_view().contains_key(stream_id)
                    &&& old(self).streams_view()[stream_id].len() > 0
                    &&& p@ == old(self).streams_view()[stream_id][0]
                    &&& final(self).streams_view() == old(self).streams_view().insert(
                        stream_id,
                        old(self).streams_view()[stream_id].drop_first(),
                    )
                },
                None => {
                    &&& final(self).streams_view() == old(self).streams_view()
                    &&& (old(self).streams_view().contains_key(stream_id) ==> old(self).streams_view()[stream_id].len() == 0)
                },
            },
    {
        self.streams.take_next(stream_id)
    }

    /// Whether a stream is still open — false once `CloseStream` or a
    /// finished relay removed it, which is what ends its backend pump.
    pub fn is_stream_open(&self, stream_id: u32) -> (r: bool)
        ensures
            r == self.streams_view().contains_key(stream_id),
    {
        self.streams.is_registered(stream_id)
    }

    /// Removes a stream's state when its relay finishes — backend end of
    /// input or error on either pump. Idempotent: safe after an explicit
    /// `CloseStream` already removed it.
    pub fn stream_closed(&mut self, stream_id: u32)
        ensures
            final(self).spec_config() == old(self).spec_config(),
            final(self).streams_view() == old(self).streams_view().remove(stream_id),
            !old(self).streams_view().contains_key(stream_id) ==> final(self).streams_view()
                == old(self).streams_view(),
    {
        self.streams.deregister(stream_id);
        proof {
            if !old(self).streams_view().contains_key(stream_id) {
                assert(self.streams_view() =~= old(self).streams_view());
            }
        }
    }

    /// The configuration, for the accept loop and the relays outside.
    pub fn config(&self) -> (r: &ServerConfig)
        ensures
            *r == self.spec_config(),
    {
        &self.config
    }
}

/// One step of a relay's backend-to-tunnel pump: a nonempty chunk read from
/// the backend becomes the framed `Data` message that carries the backend's
/// response back to the client over the tunnel; an empty read is backend end
/// of input and produces no frame, never a zero-length `Data`.
pub fn relay_backend_chunk(stream_id: u32, chunk: &[u8]) -> (r: Option<Vec<u8>>)
    requires
        chunk@.len() <= MAX_PAYLOAD_LEN,
    ensures
        chunk@.len() == 0 <==> r is None,
        match r {
            Some(f) => f@ == spec_frame(MessageView::Data { stream_id, data: chunk@ }),
            None => chunk@.len() == 0,
        },
{
    match Message::data_for_chunk(stream_id, chunk) {
        Some(m) => Some(crate::framing::encode_frame(&m)),
        None => None,
    }
}

} // verus!
