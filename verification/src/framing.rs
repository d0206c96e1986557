//! Transport framing: every message travels on a physical connection as a
//! `u32` big-endian length prefix followed by that many bytes of encoded
//! message, in both directions.

use vstd::prelude::*;

use crate::protocol::copy_range;
use crate::protocol::push_u32_be;
use crate::protocol::read_u32_be;
use crate::protocol::spec_decode;
use crate::protocol::spec_encode;
use crate::protocol::spec_u32_from_be;
use crate::protocol::spec_u32_to_be;
use crate::protocol::append_bytes;
use crate::protocol::lemma_encode_len;
use crate::protocol::lemma_u32_be_round_trip;
use crate::protocol::lemma_codec_round_trip;
use crate::protocol::Message;
use crate::protocol::MessageView;

verus! {

/// The frame that carries a message: its encoding's length, then the
/// encoding itself.
pub open spec fn spec_frame(m: MessageView) -> Seq<u8> {
    spec_u32_to_be(spec_encode(m).len() as u32) + spec_encode(m)
}

/// Where the first whole frame in a buffered byte stream ends: `None` while
/// the length prefix, or the body it announces, has not fully arrived.
pub open spec fn spec_frame_boundary(s: Seq<u8>) -> Option<int> {
    if s.len() < 4 {
        None
    } else {
        let len = spec_u32_from_be(s[0], s[1], s[2], s[3]) as int;
        if s.len() < 4 + len {
            None
        } else {
            Some(4 + len)
        }
    }
}

/// Wraps one message in its transport frame.
pub fn encode_frame(msg: &Message) -> (out: Vec<u8>)
    requires
        msg@.wf(),
    ensures
        out@ == spec_frame(msg@),
{
    proof {
        lemma_encode_len(msg@);
    }
    let body = msg.encode();
    let mut out: Vec<u8> = Vec::new();
    push_u32_be(&mut out, body.len() as u32);
    append_bytes(&mut out, &body);
    out
}

/// One decision of a connection's read loop over the bytes buffered so far:
/// the end of the first whole frame, or `None` when more bytes are needed
/// before anything can be consumed.
pub fn frame_boundary(buf: &[u8]) -> (r: Option<usize>)
    ensures
        match r {
            Some(end) => spec_frame_boundary(buf@) == Some(end as int) && 4 <= end <= buf@.len(),
            None => spec_frame_boundary(buf@) is None,
        },
{
    let n = buf.len();
    if n < 4 {
        return None;
    }
    let len = read_u32_be(buf, 0) as usize;
    if n - 4 < len {
        return None;
    }
    Some(4 + len)
}

/// The body of the first whole frame in the buffer — the bytes handed to the
/// codec once the length prefix and the body have fully arrived.
pub fn frame_body(buf: &[u8]) -> (r: Option<Vec<u8>>)
    ensures
        match r {
            Some(body) => {
                &&& spec_frame_boundary(buf@) matches Some(end) && body@ == buf@.subrange(4, end)
                &&& 4 + body@.len() == spec_frame_boundary(buf@).unwrap()
            },
            None => spec_frame_boundary(buf@) is None,
        },
{
    match frame_boundary(buf) {
        None => None,
        Some(end) => Some(copy_range(buf, 4, end - 4)),
    }
}

/// Framing round trip: the frame built for a message is recognized as exactly
/// one whole frame, and its body decodes to the message it was built for.
pub proof fn lemma_frame_round_trip(m: MessageView)
    requires
        m.wf(),
    ensures
        spec_frame_boundary(spec_frame(m)) == Some(spec_frame(m).len() as int),
        spec_decode(spec_frame(m).subrange(4, spec_frame(m).len() as int)) == Ok::<
            MessageView,
            crate::protocol::MalformedMessage,
        >(m),
{
    let body = spec_encode(m);
    let s = spec_frame(m);
    let blen = spec_u32_to_be(body.len() as u32);
    lemma_encode_len(m);
    assert(s[0] == blen[0] && s[1] == blen[1] && s[2] == blen[2] && s[3] == blen[3]);
    lemma_u32_be_round_trip(body.len() as u32);
    assert(spec_u32_from_be(s[0], s[1], s[2], s[3]) as int == body.len());
    assert(s.len() == 4 + body.len());
    assert(s.subrange(4, s.len() as int) =~= body);
    lemma_codec_round_trip(m);
}

} // verus!
