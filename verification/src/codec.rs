//! Frame codec: a byte stream cut into `(correlation id, payload)` frames.
//!
//! On the wire a frame is an 8-byte header, the correlation id and the
//! payload length as big-endian 32-bit numbers, followed by exactly that many
//! payload bytes. Decoding tolerates arbitrary partial reads: a parsed header
//! is kept until its whole payload has arrived.

use crate::buffer::{
    be_bytes, be_u32, buf_extend_from_slice, buf_freeze, buf_get_u32, buf_len, buf_put_u32,
    buf_split_to, bytes_as_slice, bytes_contents, bytes_from_vec, bytes_mut_contents,
    lemma_be_bytes_of_be_u32, lemma_be_u32_of_be_bytes,
};
use tokio_util::bytes::{Bytes, BytesMut};
use vstd::prelude::*;

verus! {

/// Number of bytes in a frame header.
pub const HEADER_LEN: usize = 8;

/// The wire image of a frame: id, payload length, payload.
///
/// The length field has 32 bits, so only a payload of at most `u32::MAX`
/// bytes has a wire image.
pub open spec fn frame_bytes(id: u32, body: Seq<u8>) -> Seq<u8>
    recommends
        body.len() <= u32::MAX,
{
    be_bytes(id) + be_bytes(body.len() as u32) + body
}

/// Whether a frame with a payload of `body_len` bytes can be appended to a
/// buffer that holds `used` bytes: the length must fit the header field and
/// the result must fit a buffer.
pub open spec fn encodable(used: nat, body_len: nat) -> bool {
    body_len <= u32::MAX && used + 8 + body_len <= usize::MAX
}

/// The payload length announced by the header at the start of `stream`.
pub open spec fn announced_len(stream: Seq<u8>) -> int
    recommends
        stream.len() >= 8,
{
    be_u32(stream.skip(4)) as int
}

/// Whether `stream` starts with a whole frame, header and payload.
pub open spec fn holds_frame(stream: Seq<u8>) -> bool {
    stream.len() >= 8 && stream.len() >= 8 + announced_len(stream)
}

/// The frame at the start of `stream`, if the stream holds a whole one.
pub open spec fn first_frame(stream: Seq<u8>) -> Option<(u32, Seq<u8>)> {
    if holds_frame(stream) {
        Some((be_u32(stream), stream.subrange(8, 8 + announced_len(stream))))
    } else {
        None
    }
}

/// What is left of `stream` once its first frame is taken off.
pub open spec fn after_first_frame(stream: Seq<u8>) -> Seq<u8>
    recommends
        holds_frame(stream),
{
    stream.skip(8 + announced_len(stream))
}

/// One correlation-id-tagged, length-delimited unit of the wire protocol.
#[derive(Debug, PartialEq, Eq)]
pub struct LHMFrame {
    pub id: u32,
    pub body: Bytes,
}

impl LHMFrame {
    /// The payload bytes.
    pub open spec fn payload(&self) -> Seq<u8> {
        bytes_contents(self.body)
    }

    /// A frame carrying `body` under correlation id `id`.
    pub fn new(id: u32, body: Vec<u8>) -> (frame: LHMFrame)
        ensures
            frame.id == id,
            frame.payload() == body@,
    {
        LHMFrame { id, body: bytes_from_vec(body) }
    }

    /// The payload as a slice.
    pub fn body_bytes(&self) -> (body: &[u8])
        ensures
            body@ == self.payload(),
    {
        bytes_as_slice(&self.body)
    }
}

/// A parsed frame header.
#[derive(Clone, Copy, Debug, PartialEq, Eq, Structural)]
pub struct LHMFrameHeader {
    pub length: u32,
    pub id: u32,
}

impl LHMFrameHeader {
    /// The eight bytes of this header on the wire.
    pub open spec fn bytes(&self) -> Seq<u8> {
        be_bytes(self.id) + be_bytes(self.length)
    }

    /// The header at the start of `stream`.
    pub open spec fn of_stream(stream: Seq<u8>) -> LHMFrameHeader
        recommends
            stream.len() >= 8,
    {
        LHMFrameHeader { length: be_u32(stream.skip(4)), id: be_u32(stream) }
    }

    /// Takes a header off the front of `src` once all eight bytes are there;
    /// with fewer bytes nothing is consumed.
    pub fn try_decode(src: &mut BytesMut) -> (header: Option<LHMFrameHeader>)
        ensures
            bytes_mut_contents(*old(src)).len() < 8 ==> header is None && bytes_mut_contents(
                *final(src),
            ) == bytes_mut_contents(*old(src)),
            bytes_mut_contents(*old(src)).len() >= 8 ==> header == Some(
                LHMFrameHeader::of_stream(bytes_mut_contents(*old(src))),
            ) && bytes_mut_contents(*final(src)) == bytes_mut_contents(*old(src)).skip(8),
    {
        if buf_len(src) < 8 {
            return None;
        }
        let ghost stream = bytes_mut_contents(*src);
        let id = buf_get_u32(src);
        let length = buf_get_u32(src);
        assert(stream.skip(4).skip(4) == stream.skip(8));
        Some(LHMFrameHeader { length, id })
    }
}

/// Writing a header and reading it back gives the same header.
pub proof fn lemma_header_bytes(header: LHMFrameHeader, rest: Seq<u8>)
    ensures
        header.bytes().len() == 8,
        LHMFrameHeader::of_stream(header.bytes() + rest) == header,
        (header.bytes() + rest).skip(8) == rest,
{
    lemma_be_u32_of_be_bytes(header.id);
    lemma_be_u32_of_be_bytes(header.length);
    let stream = header.bytes() + rest;
    assert(stream.skip(4).subrange(0, 4) == be_bytes(header.length));
    assert(stream.subrange(0, 4) == be_bytes(header.id));
    assert(stream.skip(8) == rest);
}

/// A stream of at least eight bytes is its header followed by the rest.
pub proof fn lemma_stream_header(stream: Seq<u8>)
    requires
        stream.len() >= 8,
    ensures
        LHMFrameHeader::of_stream(stream).bytes() + stream.skip(8) == stream,
{
    lemma_be_bytes_of_be_u32(stream.subrange(0, 4));
    lemma_be_bytes_of_be_u32(stream.subrange(4, 8));
    assert(LHMFrameHeader::of_stream(stream).bytes() + stream.skip(8) =~= stream);
}

/// The decoder together with its read buffer, between two calls: the header
/// that is held and the bytes that are buffered.
pub struct DecoderState {
    pub held: Option<LHMFrameHeader>,
    pub buffered: Seq<u8>,
}

impl DecoderState {
    /// A decoder that has seen nothing yet.
    pub open spec fn fresh() -> DecoderState {
        DecoderState { held: None, buffered: Seq::empty() }
    }

    /// The received bytes that have not left the decoder as a frame yet.
    pub open spec fn pending(self) -> Seq<u8> {
        match self.held {
            Some(header) => header.bytes() + self.buffered,
            None => self.buffered,
        }
    }

    /// The state once `chunk` has been read into the buffer.
    pub open spec fn received(self, chunk: Seq<u8>) -> DecoderState {
        DecoderState { held: self.held, buffered: self.buffered + chunk }
    }

    /// One call of the decoder: the state it leaves and the frame it hands
    /// out. With a whole frame pending the frame is taken off; otherwise
    /// nothing comes out, and a header is moved out of the buffer as soon as
    /// its eight bytes are there.
    pub open spec fn decoded(self) -> (DecoderState, Option<(u32, Seq<u8>)>) {
        let stream = self.pending();
        match first_frame(stream) {
            Some(frame) => (
                DecoderState { held: None, buffered: after_first_frame(stream) },
                Some(frame),
            ),
            None => if stream.len() >= 8 {
                (
                    DecoderState {
                        held: Some(LHMFrameHeader::of_stream(stream)),
                        buffered: stream.skip(8),
                    },
                    None,
                )
            } else {
                (DecoderState { held: None, buffered: stream }, None)
            },
        }
    }
}

/// Id and payload of a frame that was handed out, if one was.
pub open spec fn frame_view(frame: Option<LHMFrame>) -> Option<(u32, Seq<u8>)> {
    match frame {
        Some(frame) => Some((frame.id, frame.payload())),
        None => None,
    }
}

/// The chunks of a stream put together again.
pub open spec fn joined(chunks: Seq<Seq<u8>>) -> Seq<u8>
    decreases chunks.len(),
{
    if chunks.len() == 0 {
        Seq::empty()
    } else {
        joined(chunks.drop_last()) + chunks.last()
    }
}

/// A fresh decoder after the reads `chunks`, with one call of the decoder
/// after every read: the state it is in and what the last call handed out.
pub open spec fn after_reads(chunks: Seq<Seq<u8>>) -> (DecoderState, Option<(u32, Seq<u8>)>)
    decreases chunks.len(),
{
    if chunks.len() == 0 {
        (DecoderState::fresh(), None)
    } else {
        after_reads(chunks.drop_last()).0.received(chunks.last()).decoded()
    }
}

/// Stateful encoder and decoder of frames.
///
/// The only state is the header of a frame whose payload has not fully
/// arrived yet.
pub struct LHMFrameCodec {
    header: Option<LHMFrameHeader>,
}

impl Default for LHMFrameCodec {
    fn default() -> (codec: LHMFrameCodec)
        ensures
            codec.held_header() is None,
    {
        LHMFrameCodec { header: None }
    }
}

impl LHMFrameCodec {
    /// The header that was parsed and is waiting for its payload.
    pub closed spec fn held_header(&self) -> Option<LHMFrameHeader> {
        self.header
    }

    /// The decoder together with a read buffer that holds `buffered`.
    pub open spec fn state(&self, buffered: Seq<u8>) -> DecoderState {
        DecoderState { held: self.held_header(), buffered }
    }

    /// The received bytes that have not left the decoder as a frame yet: the
    /// held header, if any, followed by what is in the read buffer.
    pub open spec fn pending(&self, buffered: Seq<u8>) -> Seq<u8> {
        match self.held_header() {
            Some(header) => header.bytes() + buffered,
            None => buffered,
        }
    }

    /// A codec that holds no header.
    pub fn new() -> (codec: LHMFrameCodec)
        ensures
            codec.held_header() is None,
    {
        LHMFrameCodec { header: None }
    }

    /// Appends the wire image of `item` to `dst`. The decoder state is not
    /// touched. A payload too long for the length field of the header has
    /// no wire image and is ruled out; `try_encode` tests for it.
    pub fn encode(&mut self, item: LHMFrame, dst: &mut BytesMut)
        requires
            encodable(bytes_mut_contents(*old(dst)).len(), item.payload().len()),
        ensures
            bytes_mut_contents(*final(dst)) == bytes_mut_contents(*old(dst)) + frame_bytes(
                item.id,
                item.payload(),
            ),
            final(self).held_header() == old(self).held_header(),
    {
        let body = bytes_as_slice(&item.body);
        let length: u32 = body.len() as u32;
        buf_put_u32(dst, item.id);
        buf_put_u32(dst, length);
        buf_extend_from_slice(dst, body);
        assert(bytes_mut_contents(*dst) =~= bytes_mut_contents(*old(dst)) + frame_bytes(
            item.id,
            item.payload(),
        ));
    }

    /// Appends the wire image of `item` to `dst` where the frame can be
    /// encoded. A frame whose payload is longer than `u32::MAX` bytes, or
    /// which does not fit the buffer, is handed back and nothing is
    /// written.
    pub fn try_encode(&mut self, item: LHMFrame, dst: &mut BytesMut) -> (outcome: Result<
        (),
        LHMFrame,
    >)
        ensures
            final(self).held_header() == old(self).held_header(),
            match outcome {
                Ok(_) => {
                    &&& encodable(bytes_mut_contents(*old(dst)).len(), item.payload().len())
                    &&& bytes_mut_contents(*final(dst)) == bytes_mut_contents(*old(dst))
                        + frame_bytes(item.id, item.payload())
                },
                Err(rejected) => {
                    &&& !encodable(bytes_mut_contents(*old(dst)).len(), item.payload().len())
                    &&& rejected == item
                    &&& bytes_mut_contents(*final(dst)) == bytes_mut_contents(*old(dst))
                },
            },
    {
        let body_len = bytes_as_slice(&item.body).len();
        let used = buf_len(dst);
        if body_len as u64 > 0xFFFF_FFFF || used > usize::MAX - 8 || body_len > usize::MAX - 8
            - used {
            return Err(item);
        }
        self.encode(item, dst);
        Ok(())
    }

    /// Takes the next frame off the stream, if all of it has arrived.
    ///
    /// Seen over the pending bytes, the call removes the first frame when the
    /// stream holds a whole one and changes nothing otherwise. A header is
    /// parsed as soon as its eight bytes are there and is then held until
    /// the payload is complete.
    pub fn decode(&mut self, src: &mut BytesMut) -> (frame: Option<LHMFrame>)
        ensures
            (final(self).state(bytes_mut_contents(*final(src))), frame_view(frame)) == old(
                self,
            ).state(bytes_mut_contents(*old(src))).decoded(),
            ({
                let stream = old(self).pending(bytes_mut_contents(*old(src)));
                match first_frame(stream) {
                    Some((id, body)) => {
                        &&& frame matches Some(f) && f.id == id && f.payload() == body
                        &&& final(self).held_header() is None
                        &&& bytes_mut_contents(*final(src)) == after_first_frame(stream)
                    },
                    None => {
                        &&& frame is None
                        &&& final(self).pending(bytes_mut_contents(*final(src))) == stream
                        &&& final(self).held_header() == if stream.len() >= 8 {
                            Some(LHMFrameHeader::of_stream(stream))
                        } else {
                            None
                        }
                    },
                }
            }),
    {
        let ghost buffered = bytes_mut_contents(*src);
        let ghost stream = self.pending(buffered);
        let header = match self.header {
            Some(value) => {
                proof {
                    lemma_header_bytes(value, buffered);
                }
                value
            },
            None => match LHMFrameHeader::try_decode(src) {
                Some(value) => {
                    proof {
                        lemma_stream_header(stream);
                    }
                    self.header = Some(value);
                    value
                },
                None => {
                    return None;
                },
            },
        };
        assert(header == LHMFrameHeader::of_stream(stream));
        assert(bytes_mut_contents(*src) == stream.skip(8));
        assert(self.pending(bytes_mut_contents(*src)) == stream);

        let length = header.length as usize;

        // Not enough bytes for the whole payload
        if buf_len(src) < length {
            return None;
        }
        self.header = None;
        let bytes = buf_split_to(src, length);
        assert(stream.skip(8).subrange(0, length as int) == stream.subrange(8, 8 + length));
        assert(stream.skip(8).skip(length as int) == stream.skip(8 + length));
        Some(LHMFrame { id: header.id, body: buf_freeze(bytes) })
    }
}

/// Why the decoder gave up at the end of the stream.
#[derive(Clone, Copy, Debug, PartialEq, Eq, Structural)]
pub enum CodecError {
    /// The stream ended in the middle of a frame.
    Truncated,
}

impl CodecError {
    /// What went wrong, in words.
    pub fn message(&self) -> (text: String)
        ensures
            text@ == "stream ended in the middle of a frame"@,
    {
        "stream ended in the middle of a frame".to_owned()
    }
}

impl LHMFrameCodec {
    /// Takes the next frame off a stream that has ended. Bytes that do not
    /// make up a whole frame are an error: a short frame is never emitted.
    pub fn decode_eof(&mut self, src: &mut BytesMut) -> (frame: Result<Option<LHMFrame>, CodecError>)
        ensures
            ({
                let stream = old(self).pending(bytes_mut_contents(*old(src)));
                match first_frame(stream) {
                    Some((id, body)) => {
                        &&& frame matches Ok(Some(f)) && f.id == id && f.payload() == body
                        &&& final(self).held_header() is None
                        &&& bytes_mut_contents(*final(src)) == after_first_frame(stream)
                    },
                    None => {
                        &&& final(self).pending(bytes_mut_contents(*final(src))) == stream
                        &&& stream.len() == 0 ==> (frame matches Ok(None))
                        &&& stream.len() > 0 ==> frame == Err::<Option<LHMFrame>, CodecError>(
                            CodecError::Truncated,
                        )
                    },
                }
            }),
    {
        match self.decode(src) {
            Some(frame) => Ok(Some(frame)),
            None => {
                proof {
                    if self.held_header() is Some {
                        lemma_header_bytes(self.held_header()->0, bytes_mut_contents(*src));
                    }
                }
                if self.header.is_none() && buf_len(src) == 0 {
                    Ok(None)
                } else {
                    Err(CodecError::Truncated)
                }
            },
        }
    }
}

/// A frame put on the wire is read back as it was, whatever follows it:
/// decoding what encoding wrote gives the same id and the same body.
pub proof fn lemma_round_trip(id: u32, body: Seq<u8>, rest: Seq<u8>)
    requires
        body.len() <= u32::MAX,
    ensures
        first_frame(frame_bytes(id, body) + rest) == Some((id, body)),
        after_first_frame(frame_bytes(id, body) + rest) == rest,
{
    let length = body.len() as u32;
    let header = LHMFrameHeader { length, id };
    let stream = frame_bytes(id, body) + rest;
    assert(stream == header.bytes() + (body + rest));
    lemma_header_bytes(header, body + rest);
    assert(stream.subrange(8, 8 + body.len() as int) == body);
    assert(stream.skip(8 + body.len() as int) == rest);
}

/// No frame comes out before all of it has arrived: a proper prefix of a
/// frame's wire image holds no frame.
pub proof fn lemma_partial_frame(id: u32, body: Seq<u8>, arrived: int)
    requires
        body.len() <= u32::MAX,
        0 <= arrived < 8 + body.len(),
    ensures
        first_frame(frame_bytes(id, body).take(arrived)) is None,
{
    if arrived >= 8 {
        let length = body.len() as u32;
        let header = LHMFrameHeader { length, id };
        let stream = frame_bytes(id, body).take(arrived);
        assert(stream == header.bytes() + body.take(arrived - 8));
        lemma_header_bytes(header, body.take(arrived - 8));
    }
}

/// Bytes that arrive later are added at the end of the pending bytes,
/// however the stream is cut into reads.
pub proof fn lemma_pending_append(codec: LHMFrameCodec, buffered: Seq<u8>, chunk: Seq<u8>)
    ensures
        codec.pending(buffered + chunk) == codec.pending(buffered) + chunk,
{
    assert(codec.pending(buffered + chunk) =~= codec.pending(buffered) + chunk);
}

/// The chunks before any place of a cut stream make up a prefix of the
/// stream, and a proper one when chunks are left and none is empty.
pub proof fn lemma_joined_prefix(chunks: Seq<Seq<u8>>, j: int)
    requires
        0 <= j <= chunks.len(),
    ensures
        joined(chunks.take(j)).len() <= joined(chunks).len(),
        joined(chunks.take(j)) == joined(chunks).take(joined(chunks.take(j)).len() as int),
        j < chunks.len() && (forall|i: int| 0 <= i < chunks.len() ==> (#[trigger] chunks[i]).len() > 0)
            ==> joined(chunks.take(j)).len() < joined(chunks).len(),
    decreases chunks.len(),
{
    if j == chunks.len() {
        assert(chunks.take(j) == chunks);
    } else {
        let front = chunks.drop_last();
        assert(front.take(j) == chunks.take(j));
        lemma_joined_prefix(front, j);
        assert(joined(chunks) == joined(front) + chunks.last());
        if forall|i: int| 0 <= i < chunks.len() ==> (#[trigger] chunks[i]).len() > 0 {
            assert(chunks[chunks.len() - 1].len() > 0);
        }
    }
}

/// While no frame has come out, a fresh decoder holds exactly the bytes it
/// has read, however the reads were cut.
proof fn lemma_reads_of_partial_frame(id: u32, body: Seq<u8>, chunks: Seq<Seq<u8>>, j: int)
    requires
        body.len() <= u32::MAX,
        forall|i: int| 0 <= i < chunks.len() ==> (#[trigger] chunks[i]).len() > 0,
        joined(chunks) == frame_bytes(id, body),
        0 <= j < chunks.len(),
    ensures
        after_reads(chunks.take(j)).1 is None,
        after_reads(chunks.take(j)).0.pending() == joined(chunks.take(j)),
    decreases j,
{
    if j > 0 {
        let reads = chunks.take(j);
        assert(reads.drop_last() == chunks.take(j - 1));
        assert(reads.last() == chunks[j - 1]);
        lemma_reads_of_partial_frame(id, body, chunks, j - 1);
        let before = after_reads(chunks.take(j - 1)).0;
        let stream = before.received(chunks[j - 1]).pending();
        assert(stream == joined(reads));
        lemma_joined_prefix(chunks, j);
        lemma_partial_frame(id, body, stream.len() as int);
        if stream.len() >= 8 {
            lemma_stream_header(stream);
        }
    }
}

/// A frame that arrives cut into any number of reads comes out whole, once,
/// with the last read: every call of the decoder before the last read hands
/// out nothing, the call after the last read hands out the frame as it was
/// sent, and the decoder is left as fresh as it was. Where the cuts fall
/// makes no difference.
pub proof fn lemma_frame_in_chunks(id: u32, body: Seq<u8>, chunks: Seq<Seq<u8>>)
    requires
        body.len() <= u32::MAX,
        forall|i: int| 0 <= i < chunks.len() ==> (#[trigger] chunks[i]).len() > 0,
        joined(chunks) == frame_bytes(id, body),
    ensures
        chunks.len() >= 1,
        forall|j: int| 0 <= j < chunks.len() ==> (#[trigger] after_reads(chunks.take(j))).1 is None,
        after_reads(chunks) == (DecoderState::fresh(), Some((id, body))),
{
    assert(frame_bytes(id, body).len() >= 8);
    assert forall|j: int| 0 <= j < chunks.len() implies (#[trigger] after_reads(
        chunks.take(j),
    )).1 is None by {
        lemma_reads_of_partial_frame(id, body, chunks, j);
    }
    let k = chunks.len() as int;
    lemma_reads_of_partial_frame(id, body, chunks, k - 1);
    assert(chunks.drop_last() == chunks.take(k - 1));
    let before = after_reads(chunks.take(k - 1)).0;
    let stream = before.received(chunks.last()).pending();
    assert(stream == joined(chunks));
    lemma_round_trip(id, body, Seq::empty());
    assert(frame_bytes(id, body) + Seq::<u8>::empty() == frame_bytes(id, body));
}

} // verus!
