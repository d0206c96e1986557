//! The client-side connection pool: a fixed, ordered set of physical
//! connections established at startup. Sends pick a connection by round
//! robin; inbound `Data` is demultiplexed by stream id to the queue the
//! stream registered before announcing itself. The sockets themselves are
//! owned outside: this state decides which connection a frame goes to and
//! where an inbound payload belongs, and hands the bytes over.

use vstd::prelude::*;

use crate::framing::encode_frame;
use crate::framing::spec_frame;
use crate::protocol::Message;
use crate::protocol::MessageView;
use crate::registry::StreamRegistry;
use vstd::arithmetic::div_mod::lemma_fundamental_div_mod;
use vstd::arithmetic::div_mod::lemma_fundamental_div_mod_converse;
use vstd::arithmetic::div_mod::lemma_mod_bound;
use vstd::arithmetic::div_mod::lemma_small_mod;

verus! {

/// Round-robin state and stream demultiplexing for a pool of `pool_size`
/// physical connections, numbered `0 .. pool_size`.
pub struct ConnectionPool {
    pool_size: usize,
    next_conn: usize,
    channels: StreamRegistry,
}

impl ConnectionPool {
    /// How many physical connections the pool was built over.
    pub closed spec fn spec_pool_size(&self) -> usize {
        self.pool_size
    }

    /// The connection the next send will use.
    pub closed spec fn spec_next_conn(&self) -> usize {
        self.next_conn
    }

    /// The per-stream inbound delivery queues.
    pub closed spec fn channels_view(&self) -> Map<u32, Seq<Seq<u8>>> {
        self.channels@
    }

    /// Structural invariant: at least one connection, cursor inside the pool.
    pub open spec fn wf(&self) -> bool {
        self.spec_pool_size() >= 1 && self.spec_next_conn() < self.spec_pool_size()
    }

    /// A pool over `pool_size` established connections: the cursor starts at
    /// connection 0 and no stream is registered yet.
    pub fn new(pool_size: usize) -> (r: ConnectionPool)
        requires
            pool_size >= 1,
        ensures
            r.wf(),
            r.spec_pool_size() == pool_size,
            r.spec_next_conn() == 0,
            r.channels_view() == Map::<u32, Seq<Seq<u8>>>::empty(),
    {
        ConnectionPool { pool_size, next_conn: 0, channels: StreamRegistry::new() }
    }

    /// One send: picks the connection the cursor stands on, advances the
    /// cursor by one (wrapping at the pool's end), and builds the frame to
    /// write on that connection — the message's encoding behind its length
    /// prefix. The caller holds that connection exclusively while writing
    /// the whole frame, so frames never interleave.
    pub fn send_message(&mut self, msg: &Message) -> (r: (usize, Vec<u8>))
        requires
            old(self).wf(),
            msg@.wf(),
        ensures
            final(self).wf(),
            r.0 == old(self).spec_next_conn(),
            r.0 < old(self).spec_pool_size(),
            r.1@ == spec_frame(msg@),
            final(self).spec_next_conn() == (old(self).spec_next_conn() + 1) % (
            old(self).spec_pool_size() as int),
            final(self).spec_pool_size() == old(self).spec_pool_size(),
            final(self).channels_view() == old(self).channels_view(),
    {
        let conn_idx = self.next_conn;
        self.next_conn = (self.next_conn + 1) % self.pool_size;
        let frame = encode_frame(msg);
        (conn_idx, frame)
    }

    /// Creates the inbound delivery queue for a stream. Done before the
    /// stream's `NewStream` is sent, so no inbound data can race ahead of
    /// the registration and be lost.
    pub fn start_receiving(&mut self, stream_id: u32)
        requires
            old(self).wf(),
        ensures
            final(self).wf(),
            final(self).channels_view() == old(self).channels_view().insert(
                stream_id,
                Seq::<Seq<u8>>::empty(),
            ),
            final(self).spec_pool_size() == old(self).spec_pool_size(),
            final(self).spec_next_conn() == old(self).spec_next_conn(),
    {
        self.channels.register(stream_id);
    }

    /// Removes the stream's delivery queue once the stream is torn down.
    /// Inbound data that still names the id afterwards is silently dropped.
    pub fn stop_receiving(&mut self, stream_id: u32)
        requires
            old(self).wf(),
        ensures
            final(self).wf(),
            final(self).channels_view() == old(self).channels_view().remove(stream_id),
            final(self).spec_pool_size() == old(self).spec_pool_size(),
            final(self).spec_next_conn() == old(self).spec_next_conn(),
    {
        self.channels.deregister(stream_id);
    }

    /// One dispatch of a physical connection's receive loop, after a frame
    /// has been read off the socket and decoded: a `Data` message is
    /// delivered to its stream's queue — or dropped when the stream is not
    /// registered — and every other kind carries nothing for this side and
    /// is ignored.
    pub fn handle_inbound(&mut self, msg: Message) -> (delivered: bool)
        requires
            old(self).wf(),
        ensures
            final(self).wf(),
            final(self).spec_pool_size() == old(self).spec_pool_size(),
            final(self).spec_next_conn() == old(self).spec_next_conn(),
            match msg@ {
                MessageView::Data { stream_id, data } => {
                    &&& delivered == old(self).channels_view().contains_key(stream_id)
                    &&& delivered ==> final(self).channels_view() == old(
                        self,
                    ).channels_view().insert(
                        stream_id,
                        old(self).channels_view()[stream_id].push(data),
                    )
                    &&& !delivered ==> final(self).channels_view() == old(self).channels_view()
                },
                _ => !delivered && final(self).channels_view() == old(self).channels_view(),
            },
    {
        match msg {
            Message::Data { stream_id, data } => self.channels.deliver(stream_id, data),
            _ => false,
        }
    }

    /// Whether a stream's delivery queue is still registered — false once
    /// the stream has been torn down.
    pub fn is_receiving(&self, stream_id: u32) -> (r: bool)
        ensures
            r == self.channels_view().contains_key(stream_id),
    {
        self.channels.is_registered(stream_id)
    }

    /// Takes the oldest inbound payload pending for a stream, if any: the
    /// consuming end of the stream's delivery queue.
    pub fn recv_inbound(&mut self, stream_id: u32) -> (r: Option<Vec<u8>>)
        requires
            old(self).wf(),
        ensures
            final(self).wf(),
            final(self).spec_pool_size() == old(self).spec_pool_size(),
            final(self).spec_next_conn() == old(self).spec_next_conn(),
            match r {
                Some(p) => {
                    &&& old(self).channels_view().contains_key(stream_id)
                    &&& old(self).channels_view()[stream_id].len() > 0
                    &&& p@ == old(self).channels_view()[stream_id][0]
                    &&& final(self).channels_view() == old(self).channels_view().insert(
                        stream_id,
                        old(self).channels_view()[stream_id].drop_first(),
                    )
                },
                None => {
                    &&& final(self).channels_view() == old(self).channels_view()
                    &&& (old(self).channels_view().contains_key(stream_id) ==> old(
                        self,
                    ).channels_view()[stream_id].len() == 0)
                },
            },
    {
        self.channels.take_next(stream_id)
    }
}

/// How many of the first `k` round-robin choices from a fresh pool of `n`
/// connections fall on connection `j`: choice number `i` (counting from 0)
/// falls on connection `i % n`.
pub open spec fn rr_hits(k: nat, n: nat, j: nat) -> nat
    decreases k,
{
    if k == 0 {
        0
    } else {
        rr_hits((k - 1) as nat, n, j) + if ((k - 1) as nat) % n == j {
            1nat
        } else {
            0nat
        }
    }
}

/// Exact shape of the round-robin distribution over any number of sends:
/// connection `j` is used `k / n` times, once more if the leftover `k % n`
/// choices of the last partial cycle reach past it.
pub proof fn lemma_rr_hits_split(k: nat, n: nat, j: nat)
    requires
        n >= 1,
        j < n,
    ensures
        rr_hits(k, n, j) == k / n + if j < k % n {
            1nat
        } else {
            0nat
        },
    decreases k,
{
    if k == 0 {
        lemma_small_mod(0, n);
    } else {
        let km1 = (k - 1) as nat;
        lemma_rr_hits_split(km1, n, j);
        lemma_fundamental_div_mod(k as int, n as int);
        lemma_mod_bound(k as int, n as int);
        let q = k as int / n as int;
        let r = k as int % n as int;
        if r >= 1 {
            lemma_fundamental_div_mod_converse(km1 as int, n as int, q, r - 1);
        } else {
            assert(q >= 1) by (nonlinear_arith)
                requires
                    k as int == q * (n as int) + r,
                    r == 0,
                    k >= 1,
                    n >= 1,
            ;
            assert((q - 1) * (n as int) == q * (n as int) - (n as int)) by (nonlinear_arith);
            lemma_fundamental_div_mod_converse(km1 as int, n as int, q - 1, n as int - 1);
        }
    }
}

/// Round-robin fairness: sending `k` messages through a fresh pool of `n`
/// connections, with `k` a multiple of `n`, lands exactly `k / n` of them on
/// every connection — the choices cycle 0, 1, ..., n-1 and start over.
pub proof fn lemma_round_robin_fairness(k: nat, n: nat, j: nat)
    requires
        n >= 1,
        j < n,
        k % n == 0,
    ensures
        rr_hits(k, n, j) == k / n,
{
    lemma_rr_hits_split(k, n, j);
}

/// Stepping the cursor: from the position the `i`-th send leaves behind, one
/// more increment stands on the position of send `i + 1` — repeated sends
/// from a fresh pool keep the cursor at the send count modulo the pool size.
pub proof fn lemma_rr_cursor_step(i: nat, n: nat)
    requires
        n >= 1,
    ensures
        (i % n + 1) % n == (i + 1) % n,
{
    lemma_mod_bound(i as int, n as int);
    lemma_fundamental_div_mod(i as int, n as int);
    let q = i as int / n as int;
    let r = i as int % n as int;
    if r + 1 < n {
        lemma_small_mod((r + 1) as nat, n);
        assert(i as int + 1 == q * (n as int) + (r + 1)) by (nonlinear_arith)
            requires
                i as int == (n as int) * q + r,
        ;
        lemma_fundamental_div_mod_converse(i as int + 1, n as int, q, r + 1);
    } else {
        assert(r + 1 == n);
        assert(i as int + 1 == (q + 1) * (n as int) + 0) by (nonlinear_arith)
            requires
                i as int == (n as int) * q + r,
                r + 1 == n as int,
        ;
        lemma_fundamental_div_mod_converse(i as int + 1, n as int, q + 1, 0);
        lemma_fundamental_div_mod_converse(n as int, n as int, 1, 0);
        lemma_small_mod(0, n);
    }
}

} // verus!
