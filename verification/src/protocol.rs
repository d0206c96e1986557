//! The wire message codec: the four message kinds of the tunnel protocol and
//! their big-endian binary encoding.

use vstd::prelude::*;

verus! {

/// Wire type tag of a `Data` message.
pub const TAG_DATA: u8 = 0x01;

/// Wire type tag of a `NewStream` message.
pub const TAG_NEW_STREAM: u8 = 0x02;

/// Wire type tag of a `CloseStream` message.
pub const TAG_CLOSE_STREAM: u8 = 0x03;

/// Wire type tag of a `Heartbeat` message.
pub const TAG_HEARTBEAT: u8 = 0x04;

/// Longest payload a `Data` message may carry. A payload of this length makes
/// the whole encoding (tag, stream id, length field, payload) exactly fill the
/// `u32` length prefix of a transport frame.
pub const MAX_PAYLOAD_LEN: u32 = 0xFFFF_FFF6;

/// One message of the tunnel wire protocol.
#[derive(Debug)]
pub enum Message {
    /// Application bytes for a logical stream.
    Data { stream_id: u32, data: Vec<u8> },
    /// Announces a new logical stream.
    NewStream { stream_id: u32 },
    /// Ends a logical stream; its state may be released.
    CloseStream { stream_id: u32 },
    /// Liveness signal; carries nothing and asks for nothing.
    Heartbeat,
}

/// The mathematical model of a message: a `Data` payload is a byte sequence.
#[verifier::ext_equal]
pub enum MessageView {
    Data { stream_id: u32, data: Seq<u8> },
    NewStream { stream_id: u32 },
    CloseStream { stream_id: u32 },
    Heartbeat,
}

impl View for Message {
    type V = MessageView;

    open spec fn view(&self) -> MessageView {
        match self {
            Message::Data { stream_id, data } => MessageView::Data {
                stream_id: *stream_id,
                data: data@,
            },
            Message::NewStream { stream_id } => MessageView::NewStream { stream_id: *stream_id },
            Message::CloseStream { stream_id } => MessageView::CloseStream {
                stream_id: *stream_id,
            },
            Message::Heartbeat => MessageView::Heartbeat,
        }
    }
}

/// Byte-for-byte comparison of two payload vectors.
fn bytes_eq(a: &Vec<u8>, b: &Vec<u8>) -> (r: bool)
    ensures
        r == (a@ == b@),
{
    if a.len() != b.len() {
        proof {
            assert(a@ != b@) by {
                if a@ == b@ {
                    assert(a@.len() == b@.len());
                }
            }
        }
        return false;
    }
    let mut i: usize = 0;
    while i < a.len()
        invariant
            i <= a.len(),
            a@.len() == b@.len(),
            forall|j: int| 0 <= j < i ==> a@[j] == b@[j],
        decreases a.len() - i,
    {
        if a[i] != b[i] {
            return false;
        }
        i = i + 1;
    }
    proof {
        assert(a@ =~= b@);
    }
    true
}

impl PartialEq for Message {
    /// Two messages are equal when they are the same kind with the same
    /// fields; `Data` payloads are compared byte for byte.
    fn eq(&self, other: &Message) -> (r: bool) {
        match (self, other) {
            (
                Message::Data { stream_id: a, data: x },
                Message::Data { stream_id: b, data: y },
            ) => *a == *b && bytes_eq(x, y),
            (
                Message::NewStream { stream_id: a },
                Message::NewStream { stream_id: b },
            ) => *a == *b,
            (
                Message::CloseStream { stream_id: a },
                Message::CloseStream { stream_id: b },
            ) => *a == *b,
            (Message::Heartbeat, Message::Heartbeat) => true,
            _ => false,
        }
    }
}

impl vstd::std_specs::cmp::PartialEqSpecImpl for Message {
    open spec fn obeys_eq_spec() -> bool {
        true
    }

    open spec fn eq_spec(&self, other: &Message) -> bool {
        self@ == other@
    }
}

impl MessageView {
    /// A message the codec can put on the wire: a `Data` payload must leave
    /// its whole encoding within the `u32` frame-length bound.
    pub open spec fn wf(self) -> bool {
        match self {
            MessageView::Data { data, .. } => data.len() <= MAX_PAYLOAD_LEN,
            _ => true,
        }
    }
}

/// Decode failure: the input is not one complete, recognized message.
#[derive(Clone, Copy, Debug, PartialEq, Eq, Structural)]
pub enum MalformedMessage {
    /// The input held no bytes at all.
    Empty,
    /// A `Data` header (stream id and payload length) was cut short.
    IncompleteData,
    /// A `Data` payload ended before its declared length.
    IncompletePayload,
    /// A `NewStream` stream id was cut short.
    IncompleteNewStream,
    /// A `CloseStream` stream id was cut short.
    IncompleteCloseStream,
    /// The leading type tag names no message kind.
    UnknownType,
}

/// The four big-endian bytes of a 32-bit value, most significant first.
pub open spec fn spec_u32_to_be(n: u32) -> Seq<u8> {
    seq![(n >> 24) as u8, (n >> 16) as u8, (n >> 8) as u8, n as u8]
}

/// The 32-bit value read from four big-endian bytes.
pub open spec fn spec_u32_from_be(b0: u8, b1: u8, b2: u8, b3: u8) -> u32 {
    ((b0 as u32) << 24) | ((b1 as u32) << 16) | ((b2 as u32) << 8) | (b3 as u32)
}

/// Reading back the four big-endian bytes of a value yields the value.
pub proof fn lemma_u32_be_round_trip(n: u32)
    ensures
        spec_u32_from_be(
            spec_u32_to_be(n)[0],
            spec_u32_to_be(n)[1],
            spec_u32_to_be(n)[2],
            spec_u32_to_be(n)[3],
        ) == n,
{
    assert((((((n >> 24) as u8) as u32) << 24) | ((((n >> 16) as u8) as u32) << 16) | ((((n >> 8)
        as u8) as u32) << 8) | (((n as u8) as u32))) == n) by (bit_vector);
}

/// The encoding of a message: a type tag, then the fields the kind carries.
/// A `Data` payload is preceded by its length so the end of the message is
/// self-describing.
pub open spec fn spec_encode(m: MessageView) -> Seq<u8> {
    match m {
        MessageView::Data { stream_id, data } => seq![TAG_DATA] + spec_u32_to_be(stream_id)
            + spec_u32_to_be(data.len() as u32) + data,
        MessageView::NewStream { stream_id } => seq![TAG_NEW_STREAM] + spec_u32_to_be(stream_id),
        MessageView::CloseStream { stream_id } => seq![TAG_CLOSE_STREAM] + spec_u32_to_be(
            stream_id,
        ),
        MessageView::Heartbeat => seq![TAG_HEARTBEAT],
    }
}

/// What decoding yields on every input: the message read from a well-formed
/// prefix (bytes after it are ignored, as the transport framing already
/// bounds a message), or the error naming the first thing wrong with it.
pub open spec fn spec_decode(s: Seq<u8>) -> Result<MessageView, MalformedMessage> {
    if s.len() == 0 {
        Err(MalformedMessage::Empty)
    } else if s[0] == TAG_DATA {
        if s.len() < 9 {
            Err(MalformedMessage::IncompleteData)
        } else {
            let stream_id = spec_u32_from_be(s[1], s[2], s[3], s[4]);
            let len = spec_u32_from_be(s[5], s[6], s[7], s[8]) as int;
            if s.len() - 9 < len {
                Err(MalformedMessage::IncompletePayload)
            } else {
                Ok(MessageView::Data { stream_id, data: s.subrange(9, 9 + len) })
            }
        }
    } else if s[0] == TAG_NEW_STREAM {
        if s.len() < 5 {
            Err(MalformedMessage::IncompleteNewStream)
        } else {
            Ok(MessageView::NewStream { stream_id: spec_u32_from_be(s[1], s[2], s[3], s[4]) })
        }
    } else if s[0] == TAG_CLOSE_STREAM {
        if s.len() < 5 {
            Err(MalformedMessage::IncompleteCloseStream)
        } else {
            Ok(MessageView::CloseStream { stream_id: spec_u32_from_be(s[1], s[2], s[3], s[4]) })
        }
    } else if s[0] == TAG_HEARTBEAT {
        Ok(MessageView::Heartbeat)
    } else {
        Err(MalformedMessage::UnknownType)
    }
}

/// Appends the four big-endian bytes of `n` to `out`.
pub(crate) fn push_u32_be(out: &mut Vec<u8>, n: u32)
    ensures
        final(out)@ == old(out)@ + spec_u32_to_be(n),
{
    out.push(#[verifier::truncate] ((n >> 24) as u8));
    out.push(#[verifier::truncate] ((n >> 16) as u8));
    out.push(#[verifier::truncate] ((n >> 8) as u8));
    out.push(#[verifier::truncate] (n as u8));
    proof {
        assert(out@ =~= old(out)@ + spec_u32_to_be(n));
    }
}

/// Appends all of `src` to `out`.
pub(crate) fn append_bytes(out: &mut Vec<u8>, src: &Vec<u8>)
    ensures
        final(out)@ == old(out)@ + src@,
{
    let mut i: usize = 0;
    while i < src.len()
        invariant
            i <= src.len(),
            out@ == old(out)@ + src@.take(i as int),
        decreases src.len() - i,
    {
        out.push(src[i]);
        i = i + 1;
        proof {
            assert(out@ =~= old(out)@ + src@.take(i as int));
        }
    }
    proof {
        assert(out@ =~= old(out)@ + src@);
    }
}

/// Reads the big-endian 32-bit value held at `bytes[i .. i + 4]`.
pub(crate) fn read_u32_be(bytes: &[u8], i: usize) -> (n: u32)
    requires
        i + 4 <= bytes@.len(),
    ensures
        n == spec_u32_from_be(bytes@[i as int], bytes@[i + 1], bytes@[i + 2], bytes@[i + 3]),
{
    ((bytes[i] as u32) << 24) | ((bytes[i + 1] as u32) << 16) | ((bytes[i + 2] as u32) << 8) | (
    bytes[i + 3] as u32)
}

/// Copies `len` bytes of `bytes`, starting at `start`, into a fresh vector.
pub(crate) fn copy_range(bytes: &[u8], start: usize, len: usize) -> (out: Vec<u8>)
    requires
        start + len <= bytes@.len(),
    ensures
        out@ == bytes@.subrange(start as int, start + len),
{
    let n = bytes.len();
    let mut out: Vec<u8> = Vec::new();
    let mut i: usize = 0;
    while i < len
        invariant
            start + len <= n == bytes@.len(),
            i <= len,
            out@ == bytes@.subrange(start as int, start as int + i),
        decreases len - i,
    {
        out.push(bytes[start + i]);
        i = i + 1;
        proof {
            assert(out@ =~= bytes@.subrange(start as int, start as int + i));
        }
    }
    out
}

impl Message {
    /// Serializes the message into its self-describing binary form.
    pub fn encode(&self) -> (out: Vec<u8>)
        requires
            self@.wf(),
        ensures
            out@ == spec_encode(self@),
    {
        let mut out: Vec<u8> = Vec::new();
        match self {
            Message::Data { stream_id, data } => {
                out.push(TAG_DATA);
                push_u32_be(&mut out, *stream_id);
                push_u32_be(&mut out, data.len() as u32);
                append_bytes(&mut out, data);
            }
            Message::NewStream { stream_id } => {
                out.push(TAG_NEW_STREAM);
                push_u32_be(&mut out, *stream_id);
            }
            Message::CloseStream { stream_id } => {
                out.push(TAG_CLOSE_STREAM);
                push_u32_be(&mut out, *stream_id);
            }
            Message::Heartbeat => {
                out.push(TAG_HEARTBEAT);
            }
        }
        proof {
            assert(out@ =~= spec_encode(self@));
        }
        out
    }

    /// Reads one message back from its binary form, validating that every
    /// field it declares is fully present before consuming it.
    pub fn decode(bytes: &[u8]) -> (r: Result<Message, MalformedMessage>)
        ensures
            match (r, spec_decode(bytes@)) {
                (Ok(m), Ok(mv)) => m@ == mv,
                (Err(e), Err(ev)) => e == ev,
                _ => false,
            },
    {
        if bytes.len() == 0 {
            return Err(MalformedMessage::Empty);
        }
        let tag = bytes[0];
        if tag == TAG_DATA {
            if bytes.len() < 9 {
                return Err(MalformedMessage::IncompleteData);
            }
            let stream_id = read_u32_be(bytes, 1);
            let len = read_u32_be(bytes, 5) as usize;
            if bytes.len() - 9 < len {
                return Err(MalformedMessage::IncompletePayload);
            }
            let data = copy_range(bytes, 9, len);
            Ok(Message::Data { stream_id, data })
        } else if tag == TAG_NEW_STREAM {
            if bytes.len() < 5 {
                return Err(MalformedMessage::IncompleteNewStream);
            }
            Ok(Message::NewStream { stream_id: read_u32_be(bytes, 1) })
        } else if tag == TAG_CLOSE_STREAM {
            if bytes.len() < 5 {
                return Err(MalformedMessage::IncompleteCloseStream);
            }
            Ok(Message::CloseStream { stream_id: read_u32_be(bytes, 1) })
        } else if tag == TAG_HEARTBEAT {
            Ok(Message::Heartbeat)
        } else {
            Err(MalformedMessage::UnknownType)
        }
    }

    /// Turns one socket read into the message that forwards it: a nonempty
    /// chunk becomes `Data` for the stream, while an empty read marks end of
    /// input and yields no message at all — never a zero-length `Data`.
    pub fn data_for_chunk(stream_id: u32, chunk: &[u8]) -> (r: Option<Message>)
        requires
            chunk@.len() <= MAX_PAYLOAD_LEN,
        ensures
            chunk@.len() == 0 <==> r is None,
            match r {
                Some(m) => m@ == (MessageView::Data { stream_id, data: chunk@ }) && m@.wf(),
                None => chunk@.len() == 0,
            },
    {
        if chunk.len() == 0 {
            None
        } else {
            Some(Message::Data { stream_id, data: vstd::slice::slice_to_vec(chunk) })
        }
    }
}

/// The exact length of a message's encoding; in every kind it stays within
/// the `u32` frame-length bound.
pub proof fn lemma_encode_len(m: MessageView)
    requires
        m.wf(),
    ensures
        spec_encode(m).len() == match m {
            MessageView::Data { data, .. } => 9 + data.len(),
            MessageView::NewStream { .. } => 5,
            MessageView::CloseStream { .. } => 5,
            MessageView::Heartbeat => 1,
        },
        spec_encode(m).len() <= u32::MAX,
{
}

/// Codec round trip: decoding an encoded message yields the message back,
/// whatever the message was.
pub proof fn lemma_codec_round_trip(m: MessageView)
    requires
        m.wf(),
    ensures
        spec_decode(spec_encode(m)) == Ok::<MessageView, MalformedMessage>(m),
{
    let s = spec_encode(m);
    match m {
        MessageView::Data { stream_id, data } => {
            let bid = spec_u32_to_be(stream_id);
            let blen = spec_u32_to_be(data.len() as u32);
            assert(s == seq![TAG_DATA] + bid + blen + data);
            assert(s.len() == 9 + data.len());
            assert(s[0] == TAG_DATA);
            assert(s[1] == bid[0] && s[2] == bid[1] && s[3] == bid[2] && s[4] == bid[3]);
            assert(s[5] == blen[0] && s[6] == blen[1] && s[7] == blen[2] && s[8] == blen[3]);
            lemma_u32_be_round_trip(stream_id);
            lemma_u32_be_round_trip(data.len() as u32);
            assert(spec_u32_from_be(s[5], s[6], s[7], s[8]) as int == data.len());
            assert(s.subrange(9, 9 + data.len() as int) =~= data);
        }
        MessageView::NewStream { stream_id } => {
            let bid = spec_u32_to_be(stream_id);
            assert(s[0] == TAG_NEW_STREAM);
            assert(s[1] == bid[0] && s[2] == bid[1] && s[3] == bid[2] && s[4] == bid[3]);
            lemma_u32_be_round_trip(stream_id);
        }
        MessageView::CloseStream { stream_id } => {
            let bid = spec_u32_to_be(stream_id);
            assert(s[0] == TAG_CLOSE_STREAM);
            assert(s[1] == bid[0] && s[2] == bid[1] && s[3] == bid[2] && s[4] == bid[3]);
            lemma_u32_be_round_trip(stream_id);
        }
        MessageView::Heartbeat => {
            assert(s[0] == TAG_HEARTBEAT);
        }
    }
}

/// Truncation is rejected: every strict prefix of an encoded message fails
/// to decode — a short read is an error, never a different message.
pub proof fn lemma_truncation_rejected(m: MessageView, n: int)
    requires
        m.wf(),
        0 <= n < spec_encode(m).len(),
    ensures
        spec_decode(spec_encode(m).take(n)) is Err,
{
    let s = spec_encode(m);
    let t = s.take(n);
    assert(t.len() == n);
    if n == 0 {
        return ;
    }
    assert(t[0] == s[0]);
    match m {
        MessageView::Data { stream_id, data } => {
            assert(s[0] == TAG_DATA);
            if n >= 9 {
                let blen = spec_u32_to_be(data.len() as u32);
                assert(s[5] == blen[0] && s[6] == blen[1] && s[7] == blen[2] && s[8] == blen[3]);
                assert(t[5] == s[5] && t[6] == s[6] && t[7] == s[7] && t[8] == s[8]);
                lemma_u32_be_round_trip(data.len() as u32);
                assert(spec_u32_from_be(t[5], t[6], t[7], t[8]) as int == data.len());
                assert(s.len() == 9 + data.len());
                assert(t.len() - 9 < data.len());
            }
        }
        MessageView::NewStream { stream_id } => {
            assert(s[0] == TAG_NEW_STREAM);
            assert(t.len() < 5);
        }
        MessageView::CloseStream { stream_id } => {
            assert(s[0] == TAG_CLOSE_STREAM);
            assert(t.len() < 5);
        }
        MessageView::Heartbeat => {
            assert(s.len() == 1);
        }
    }
}

/// Writing back the value read from four big-endian bytes yields the same
/// four bytes.
pub proof fn lemma_u32_be_write_back(b0: u8, b1: u8, b2: u8, b3: u8)
    ensures
        spec_u32_to_be(spec_u32_from_be(b0, b1, b2, b3)) == seq![b0, b1, b2, b3],
{
    let n = spec_u32_from_be(b0, b1, b2, b3);
    assert((((b0 as u32) << 24) | ((b1 as u32) << 16) | ((b2 as u32) << 8) | (b3 as u32)) >> 24
        == b0 as u32) by (bit_vector);
    assert(((((b0 as u32) << 24) | ((b1 as u32) << 16) | ((b2 as u32) << 8) | (b3 as u32)) >> 16)
        as u8 == b1) by (bit_vector);
    assert(((((b0 as u32) << 24) | ((b1 as u32) << 16) | ((b2 as u32) << 8) | (b3 as u32)) >> 8)
        as u8 == b2) by (bit_vector);
    assert(((((b0 as u32) << 24) | ((b1 as u32) << 16) | ((b2 as u32) << 8) | (b3 as u32))) as u8
        == b3) by (bit_vector);
    assert(spec_u32_to_be(n) =~= seq![b0, b1, b2, b3]);
}

/// Decoding is exact: a successful decode names the message whose encoding
/// the input begins with — re-encoding it reproduces the consumed bytes,
/// byte for byte.
pub proof fn lemma_decode_reencodes_consumed_bytes(s: Seq<u8>)
    requires
        spec_decode(s) is Ok,
    ensures
        spec_encode(spec_decode(s).unwrap()).len() <= s.len(),
        spec_encode(spec_decode(s).unwrap()) == s.take(
            spec_encode(spec_decode(s).unwrap()).len() as int,
        ),
{
    let m = spec_decode(s).unwrap();
    let e = spec_encode(m);
    if s[0] == TAG_DATA {
        let len = spec_u32_from_be(s[5], s[6], s[7], s[8]) as int;
        let data = s.subrange(9, 9 + len);
        lemma_u32_be_write_back(s[1], s[2], s[3], s[4]);
        lemma_u32_be_write_back(s[5], s[6], s[7], s[8]);
        assert(data.len() as u32 == spec_u32_from_be(s[5], s[6], s[7], s[8]));
        assert(e.len() == 9 + len);
        assert(e =~= s.take(9 + len));
    } else if s[0] == TAG_NEW_STREAM || s[0] == TAG_CLOSE_STREAM {
        lemma_u32_be_write_back(s[1], s[2], s[3], s[4]);
        assert(e =~= s.take(5));
    } else {
        assert(e =~= s.take(1));
    }
}

/// An unrecognized type tag is rejected, whatever follows it.
pub proof fn lemma_unknown_tag_rejected(s: Seq<u8>)
    requires
        s.len() > 0,
        s[0] != TAG_DATA,
        s[0] != TAG_NEW_STREAM,
        s[0] != TAG_CLOSE_STREAM,
        s[0] != TAG_HEARTBEAT,
    ensures
        spec_decode(s) == Err::<MessageView, MalformedMessage>(MalformedMessage::UnknownType),
{
}

} // verus!
