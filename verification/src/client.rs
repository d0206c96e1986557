//! The client half: accepts local connections, gives each a logical stream,
//! and pumps its bytes through the shared connection pool. One `Client`
//! value holds the pool state and the stream-id counter; the accept loop and
//! the two per-stream pumps run outside and call in for every decision.

use vstd::prelude::*;

use crate::config::ClientConfig;
use crate::connection_pool::ConnectionPool;
use crate::framing::spec_frame;
use crate::protocol::Message;
use crate::protocol::MessageView;
use crate::protocol::MAX_PAYLOAD_LEN;

verus! {

/// The stream id allocated after `id`: the 32-bit counter simply wraps at
/// its boundary — exhaustion is not guarded against.
pub open spec fn spec_next_id(id: u32) -> u32 {
    if id == u32::MAX {
        0
    } else {
        (id + 1) as u32
    }
}

/// Client state: its configuration, the pool over the physical connections,
/// and the counter the next accepted connection's stream id comes from.
/// Stream ids are allocated from 1 upward, shared across all local
/// connections of the process.
pub struct Client {
    config: ClientConfig,
    pool: ConnectionPool,
    next_stream_id: u32,
}

impl Client {
    /// The configuration the client was built with.
    pub closed spec fn spec_config(&self) -> ClientConfig {
        self.config
    }

    /// The pool state, for contracts over sends and deliveries.
    pub closed spec fn spec_pool(&self) -> ConnectionPool {
        self.pool
    }

    /// The id the next accepted local connection will get.
    pub closed spec fn spec_next_stream_id(&self) -> u32 {
        self.next_stream_id
    }

    /// Structural invariant: the pool is well formed and sized as configured.
    pub open spec fn wf(&self) -> bool {
        self.spec_pool().wf() && self.spec_pool().spec_pool_size()
            == self.spec_config().connection_pool_size
    }

    /// A client whose pool of physical connections has been established:
    /// stream ids start at 1, the round-robin cursor at connection 0, and no
    /// stream is registered yet.
    pub fn new(config: ClientConfig) -> (r: Client)
        requires
            config.connection_pool_size >= 1,
        ensures
            r.wf(),
            r.spec_config() == config,
            r.spec_next_stream_id() == 1,
            r.spec_pool().spec_next_conn() == 0,
            r.spec_pool().channels_view() == Map::<u32, Seq<Seq<u8>>>::empty(),
    {
        let pool = ConnectionPool::new(config.connection_pool_size);
        Client { config, pool, next_stream_id: 1 }
    }

    /// Admits one newly accepted local connection: allocates its stream id,
    /// registers the stream's inbound queue — before anything is sent, so no
    /// inbound data can be lost to a race — and builds the `NewStream`
    /// announcement. Returns the id, the connection the announcement goes
    /// out on, and the frame to write there.
    pub fn open_local_stream(&mut self) -> (r: (u32, usize, Vec<u8>))
        requires
            old(self).wf(),
        ensures
            final(self).wf(),
            final(self).spec_config() == old(self).spec_config(),
            r.0 == old(self).spec_next_stream_id(),
            final(self).spec_next_stream_id() == spec_next_id(old(self).spec_next_stream_id()),
            final(self).spec_pool().channels_view() == old(self).spec_pool().channels_view().insert(
                r.0,
                Seq::<Seq<u8>>::empty(),
            ),
            r.1 == old(self).spec_pool().spec_next_conn(),
            r.1 < old(self).spec_pool().spec_pool_size(),
            final(self).spec_pool().spec_next_conn() == (old(self).spec_pool().spec_next_conn()
                + 1) % (old(self).spec_pool().spec_pool_size() as int),
            r.2@ == spec_frame(MessageView::NewStream { stream_id: r.0 }),
    {
        let stream_id = self.next_stream_id;
        self.next_stream_id = if self.next_stream_id == u32::MAX {
            0
        } else {
            self.next_stream_id + 1
        };
        self.pool.start_receiving(stream_id);
        let (conn_idx, frame) = self.pool.send_message(&Message::NewStream { stream_id });
        (stream_id, conn_idx, frame)
    }

    /// One step of a stream's upstream pump, for a nonzero local read: the
    /// chunk becomes a `Data` frame for the stream, sent on the connection
    /// round robin picks. (A zero-byte read is end of input and must end the
    /// pump instead — see `Message::data_for_chunk`.)
    pub fn send_local_chunk(&mut self, stream_id: u32, chunk: &[u8]) -> (r: (usize, Vec<u8>))
        requires
            old(self).wf(),
            0 < chunk@.len() <= MAX_PAYLOAD_LEN,
        ensures
            final(self).wf(),
            final(self).spec_config() == old(self).spec_config(),
            final(self).spec_next_stream_id() == old(self).spec_next_stream_id(),
            final(self).spec_pool().channels_view() == old(self).spec_pool().channels_view(),
            r.0 == old(self).spec_pool().spec_next_conn(),
            r.0 < old(self).spec_pool().spec_pool_size(),
            final(self).spec_pool().spec_next_conn() == (old(self).spec_pool().spec_next_conn()
                + 1) % (old(self).spec_pool().spec_pool_size() as int),
            r.1@ == spec_frame(MessageView::Data { stream_id, data: chunk@ }),
    {
        let msg = Message::data_for_chunk(stream_id, chunk);
        match msg {
            Some(m) => self.pool.send_message(&m),
            None => {
                proof {
                    assert(false);
                }
                (0, Vec::new())
            }
        }
    }

    /// The upstream pump's last step, when the local read returned end of
    /// input or failed: the `CloseStream` frame that tells the peer the
    /// stream has ended, sent on the connection round robin picks.
    pub fn end_local_stream(&mut self, stream_id: u32) -> (r: (usize, Vec<u8>))
        requires
            old(self).wf(),
        ensures
            final(self).wf(),
            final(self).spec_config() == old(self).spec_config(),
            final(self).spec_next_stream_id() == old(self).spec_next_stream_id(),
            final(self).spec_pool().channels_view() == old(self).spec_pool().channels_view(),
            r.0 == old(self).spec_pool().spec_next_conn(),
            r.0 < old(self).spec_pool().spec_pool_size(),
            final(self).spec_pool().spec_next_conn() == (old(self).spec_pool().spec_next_conn()
                + 1) % (old(self).spec_pool().spec_pool_size() as int),
            r.1@ == spec_frame(MessageView::CloseStream { stream_id }),
    {
        self.pool.send_message(&Message::CloseStream { stream_id })
    }

    /// Tears a stream down once both of its pumps have finished: its inbound
    /// queue is removed, and any later inbound data for the id is dropped.
    pub fn close_local_stream(&mut self, stream_id: u32)
        requires
            old(self).wf(),
        ensures
            final(self).wf(),
            final(self).spec_config() == old(self).spec_config(),
            final(self).spec_next_stream_id() == old(self).spec_next_stream_id(),
            final(self).spec_pool().spec_next_conn() == old(self).spec_pool().spec_next_conn(),
            final(self).spec_pool().channels_view() == old(self).spec_pool().channels_view().remove(
                stream_id,
            ),
    {
        self.pool.stop_receiving(stream_id);
    }

    /// One dispatch of a physical connection's receive loop: a decoded
    /// inbound `Data` message is delivered to its stream's queue, or dropped
    /// when the stream is unknown or already closed; other kinds are ignored
    /// on the client side.
    pub fn deliver_inbound(&mut self, msg: Message) -> (delivered: bool)
        requires
            old(self).wf(),
        ensures
            final(self).wf(),
            final(self).spec_config() == old(self).spec_config(),
            final(self).spec_next_stream_id() == old(self).spec_next_stream_id(),
            final(self).spec_pool().spec_next_conn() == old(self).spec_pool().spec_next_conn(),
            match msg@ {
                MessageView::Data { stream_id, data } => {
                    &&& delivered == old(self).spec_pool().channels_view().contains_key(stream_id)
                    &&& delivered ==> final(self).spec_pool().channels_view() == old(self).spec_pool().channels_view().insert(
                        stream_id,
                        old(self).spec_pool().channels_view()[stream_id].push(data),
                    )
                    &&& !delivered ==> final(self).spec_pool().channels_view() == old(self).spec_pool().channels_view()
                },
                _ => !delivered && final(self).spec_pool().channels_view() == old(self).spec_pool().channels_view(),
            },
    {
        self.pool.handle_inbound(msg)
    }

    /// One step of a stream's downstream pump: the oldest inbound payload
    /// pending for the stream, to be written to the local socket; `None`
    /// while nothing is pending.
    pub fn recv_inbound(&mut self, stream_id: u32) -> (r: Option<Vec<u8>>)
        requires
            old(self).wf(),
        ensures
            final(self).wf(),
            final(self).spec_config() == old(self).spec_config(),
            final(self).spec_next_stream_id() == old(self).spec_next_stream_id(),
            final(self).spec_pool().spec_next_conn() == old(self).spec_pool().spec_next_conn(),
            match r {
                Some(p) => {
                    &&& old(self).spec_pool().channels_view().contains_key(stream_id)
                    &&& old(self).spec_pool().channels_view()[stream_id].len() > 0
                    &&& p@ == old(self).spec_pool().channels_view()[stream_id][0]
                    &&& final(self).spec_pool().channels_view() == old(self).spec_pool().channels_view().insert(
                        stream_id,
                        old(self).spec_pool().channels_view()[stream_id].drop_first(),
                    )
                },
                None => {
                    &&& final(self).spec_pool().channels_view() == old(self).spec_pool().channels_view()
                    &&& (old(self).spec_pool().channels_view().contains_key(stream_id) ==> old(self).spec_pool().channels_view()[stream_id].len() == 0)
                },
            },
    {
        self.pool.recv_inbound(stream_id)
    }

    /// Whether a stream is still registered for inbound delivery — false
    /// once it has been torn down, which is what ends its downstream pump.
    pub fn is_receiving(&self, stream_id: u32) -> (r: bool)
        ensures
            r == self.spec_pool().channels_view().contains_key(stream_id),
    {
        self.pool.is_receiving(stream_id)
    }

    /// The configuration, for the accept loop and the pumps outside.
    pub fn config(&self) -> (r: &ClientConfig)
        ensures
            *r == self.spec_config(),
    {
        &self.config
    }
}

} // verus!
