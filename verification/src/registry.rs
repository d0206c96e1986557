//! Stream-indexed delivery state: the map from a logical stream's id to the
//! payloads delivered for it and not yet consumed. Both halves of the tunnel
//! keep one — the client pool to hand inbound data to the right local
//! connection, the server router to hand it to the right backend relay.

use vstd::prelude::*;

use std::collections::HashMap;

verus! {

/// The queues of pending inbound payloads, keyed by stream id. A stream is
/// *registered* while its id is in the map; payloads for an unregistered id
/// are dropped, never queued.
pub struct StreamRegistry {
    channels: HashMap<u32, Vec<Vec<u8>>>,
}

impl View for StreamRegistry {
    type V = Map<u32, Seq<Seq<u8>>>;

    /// The registry as a map from stream id to its pending payloads, oldest
    /// first.
    closed spec fn view(&self) -> Map<u32, Seq<Seq<u8>>> {
        self.channels@.map_values(|q: Vec<Vec<u8>>| q.deep_view())
    }
}

impl StreamRegistry {
    /// An empty registry: no stream registered, nothing pending.
    pub fn new() -> (r: StreamRegistry)
        ensures
            r@ == Map::<u32, Seq<Seq<u8>>>::empty(),
    {
        let r = StreamRegistry { channels: HashMap::new() };
        proof {
            assert(r@ =~~= Map::<u32, Seq<Seq<u8>>>::empty());
        }
        r
    }

    /// Whether `stream_id` is currently registered.
    pub fn is_registered(&self, stream_id: u32) -> (r: bool)
        ensures
            r == self@.contains_key(stream_id),
    {
        let r = self.channels.contains_key(&stream_id);
        proof {
            assert(self@.contains_key(stream_id) == self.channels@.contains_key(stream_id));
        }
        r
    }

    /// Registers `stream_id` with a fresh, empty queue; an id already present
    /// starts over empty.
    pub fn register(&mut self, stream_id: u32)
        ensures
            final(self)@ == old(self)@.insert(stream_id, Seq::<Seq<u8>>::empty()),
    {
        let empty: Vec<Vec<u8>> = Vec::new();
        self.channels.insert(stream_id, empty);
        proof {
            assert(self@ =~~= old(self)@.insert(stream_id, Seq::<Seq<u8>>::empty()));
        }
    }

    /// Removes the stream's queue, dropping whatever was still pending; a
    /// no-op when the id is not registered, so removal is idempotent.
    pub fn deregister(&mut self, stream_id: u32)
        ensures
            final(self)@ == old(self)@.remove(stream_id),
    {
        self.channels.remove(&stream_id);
        proof {
            assert(self@ =~~= old(self)@.remove(stream_id));
        }
    }

    /// Delivers `payload` to the stream's queue. Returns whether the stream
    /// was registered; delivery to an unregistered id drops the payload and
    /// leaves the registry exactly as it was — a normal outcome, not an
    /// error, since the stream may have just closed.
    pub fn deliver(&mut self, stream_id: u32, payload: Vec<u8>) -> (delivered: bool)
        ensures
            delivered == old(self)@.contains_key(stream_id),
            delivered ==> final(self)@ == old(self)@.insert(
                stream_id,
                old(self)@[stream_id].push(payload@),
            ),
            !delivered ==> final(self)@ == old(self)@,
    {
        match self.channels.remove(&stream_id) {
            Some(mut q) => {
                let ghost q0 = q;
                q.push(payload);
                proof {
                    assert(q.deep_view() =~~= q0.deep_view().push(payload@));
                    assert(q0.deep_view() == old(self)@[stream_id]);
                }
                self.channels.insert(stream_id, q);
                proof {
                    assert(self@ =~~= old(self)@.insert(
                        stream_id,
                        old(self)@[stream_id].push(payload@),
                    ));
                }
                true
            }
            None => {
                proof {
                    assert(self@ =~~= old(self)@);
                }
                false
            }
        }
    }

    /// Takes the oldest payload pending for `stream_id`, if the stream is
    /// registered and has one.
    pub fn take_next(&mut self, stream_id: u32) -> (r: Option<Vec<u8>>)
        ensures
            match r {
                Some(p) => {
                    &&& old(self)@.contains_key(stream_id)
                    &&& old(self)@[stream_id].len() > 0
                    &&& p@ == old(self)@[stream_id][0]
                    &&& final(self)@ == old(self)@.insert(
                        stream_id,
                        old(self)@[stream_id].drop_first(),
                    )
                },
                None => {
                    &&& final(self)@ == old(self)@
                    &&& (old(self)@.contains_key(stream_id) ==> old(self)@[stream_id].len() == 0)
                },
            },
    {
        match self.channels.remove(&stream_id) {
            Some(mut q) => {
                if q.len() == 0 {
                    self.channels.insert(stream_id, q);
                    proof {
                        assert(self@ =~~= old(self)@);
                    }
                    None
                } else {
                    let ghost q0 = q;
                    let p = q.remove(0);
                    proof {
                        assert(q.deep_view() =~~= q0.deep_view().drop_first());
                        assert(q0.deep_view() == old(self)@[stream_id]);
                        assert(p@ == old(self)@[stream_id][0]);
                    }
                    self.channels.insert(stream_id, q);
                    proof {
                        assert(self@ =~~= old(self)@.insert(
                            stream_id,
                            old(self)@[stream_id].drop_first(),
                        ));
                    }
                    Some(p)
                }
            }
            None => {
                proof {
                    assert(self@ =~~= old(self)@);
                }
                None
            }
        }
    }
}

/// Stream isolation: delivering a payload to one registered stream changes
/// that stream's queue alone — it appends there, and every other stream's
/// pending payloads stay exactly as they were.
pub proof fn lemma_stream_isolation(
    before: Map<u32, Seq<Seq<u8>>>,
    after: Map<u32, Seq<Seq<u8>>>,
    a: u32,
    b: u32,
    payload: Seq<u8>,
)
    requires
        before.contains_key(a),
        before.contains_key(b),
        a != b,
        after == before.insert(a, before[a].push(payload)),
    ensures
        after.contains_key(b),
        after[b] == before[b],
        after[a] == before[a].push(payload),
{
}

/// Deregistration drops stray data: once a stream id has been removed it is
/// no longer registered, so a later delivery for it finds no queue — by
/// `deliver`'s contract the payload is dropped and the registry is left
/// unchanged, without reviving the stream.
pub proof fn lemma_deregister_drops_stray_data(state: Map<u32, Seq<Seq<u8>>>, stream_id: u32)
    ensures
        !state.remove(stream_id).contains_key(stream_id),
{
}

} // verus!
