//! Frames and their wire format.
//!
//! On the wire a frame is one byte of stream id, one byte of payload length
//! and then the payload. Frames follow one another with nothing in between.

use crate::mux::buffer::advance;
use crate::mux::buffer::buffered;
use crate::mux::buffer::byte_at;
use crate::mux::buffer::put_slice;
use crate::mux::buffer::put_u8;
use crate::mux::buffer::to_vec;
use bytes::BytesMut;
use vstd::prelude::*;

verus! {

/// Stream id of a frame that opens a logical stream.
pub const OPEN_ID: u8 = 0;

/// Stream id of a frame that closes a logical stream.
pub const CLOSE_ID: u8 = 255;

/// Longest payload that a frame may carry on the wire.
pub const MAX_PAYLOAD: usize = 253;

/// Bytes in front of the payload: stream id and length.
pub const HEADER_LEN: usize = 2;

/// Longest frame on the wire, header included.
pub const MAX_WIRE_FRAME: usize = 255;

/// A unit on the duplex: a stream id and a payload.
#[derive(Debug)]
pub struct MuxFrame {
    pub stream_id: u8,
    pub bytes: Vec<u8>,
}

/// What a frame is: its stream id and the bytes of its payload.
pub ghost struct FrameView {
    pub stream_id: u8,
    pub payload: Seq<u8>,
}

impl View for MuxFrame {
    type V = FrameView;

    open spec fn view(&self) -> FrameView {
        FrameView { stream_id: self.stream_id, payload: self.bytes@ }
    }
}

impl FrameView {
    /// The payload is short enough for the one length byte of the format.
    pub open spec fn fits_wire(self) -> bool {
        self.payload.len() <= MAX_PAYLOAD
    }

    /// The frame asks to open the stream named by its first payload byte.
    pub open spec fn is_open(self) -> bool {
        self.stream_id == OPEN_ID
    }

    /// The frame closes the stream named by its first payload byte.
    pub open spec fn is_close(self) -> bool {
        self.stream_id == CLOSE_ID
    }

    /// The frame carries data of the stream named by its id.
    pub open spec fn is_data(self) -> bool {
        self.stream_id != OPEN_ID && self.stream_id != CLOSE_ID
    }
}

/// The wire bytes of a frame.
pub open spec fn wire_bytes(frame: FrameView) -> Seq<u8>
    recommends
        frame.fits_wire(),
{
    seq![frame.stream_id, frame.payload.len() as u8] + frame.payload
}

/// The frame at the front of `wire`, if all of it has arrived.
pub open spec fn first_frame(wire: Seq<u8>) -> Option<FrameView> {
    if wire.len() >= HEADER_LEN && wire.len() >= HEADER_LEN + wire[1] {
        Some(FrameView { stream_id: wire[0], payload: wire.subrange(2, 2 + wire[1]) })
    } else {
        None
    }
}

/// What is left of `wire` behind its first frame.
pub open spec fn after_first_frame(wire: Seq<u8>) -> Seq<u8>
    recommends
        first_frame(wire) is Some,
{
    wire.skip(HEADER_LEN + wire[1])
}

/// The wire bytes of `frames`, one frame after the other.
pub open spec fn wire_of(frames: Seq<FrameView>) -> Seq<u8>
    decreases frames.len(),
{
    if frames.len() == 0 {
        Seq::empty()
    } else {
        wire_bytes(frames[0]) + wire_of(frames.drop_first())
    }
}

/// The frames that have arrived in full at the front of `wire`, in order.
pub open spec fn frames_of(wire: Seq<u8>) -> Seq<FrameView>
    decreases wire.len(),
{
    match first_frame(wire) {
        Some(frame) => seq![frame] + frames_of(after_first_frame(wire)),
        None => Seq::empty(),
    }
}

/// A frame that was written to the wire is read back as it was, and what
/// followed it on the wire is left over.
pub proof fn lemma_frame_round_trip(frame: FrameView, rest: Seq<u8>)
    requires
        frame.fits_wire(),
    ensures
        first_frame(wire_bytes(frame) + rest) == Some(frame),
        after_first_frame(wire_bytes(frame) + rest) == rest,
{
    let wire = wire_bytes(frame) + rest;
    assert(wire[0] == frame.stream_id);
    assert(wire[1] == frame.payload.len() as u8);
    assert(wire.subrange(2, 2 + wire[1]) =~= frame.payload);
    assert(wire.skip(2 + wire[1]) =~= rest);
}

/// While a frame has arrived only in part, nothing is read from the wire.
pub proof fn lemma_partial_frame(frame: FrameView, arrived: int)
    requires
        frame.fits_wire(),
        0 <= arrived < wire_bytes(frame).len(),
    ensures
        first_frame(wire_bytes(frame).take(arrived)) is None,
{
    let part = wire_bytes(frame).take(arrived);
    if arrived >= 2 {
        assert(part[1] == frame.payload.len() as u8);
    }
}

/// Frames that were written to the wire one after the other are read back as
/// they were, in order.
pub proof fn lemma_wire_round_trip(frames: Seq<FrameView>)
    requires
        forall|i: int| 0 <= i < frames.len() ==> (#[trigger] frames[i]).fits_wire(),
    ensures
        frames_of(wire_of(frames)) == frames,
    decreases frames.len(),
{
    if frames.len() == 0 {
        assert(frames_of(wire_of(frames)) =~= frames);
    } else {
        let rest = frames.drop_first();
        assert forall|i: int| 0 <= i < rest.len() implies (#[trigger] rest[i]).fits_wire() by {
            assert(rest[i] == frames[i + 1]);
        }
        lemma_wire_round_trip(rest);
        lemma_frame_round_trip(frames[0], wire_of(rest));
        assert(seq![frames[0]] + rest =~= frames);
    }
}

impl MuxFrame {
    /// A frame with the given id and payload.
    pub fn new(stream_id: u8, bytes: Vec<u8>) -> (frame: MuxFrame)
        ensures
            frame@ == (FrameView { stream_id, payload: bytes@ }),
    {
        MuxFrame { stream_id, bytes }
    }

    /// The frame that opens stream `id`.
    pub fn open(id: u8) -> (frame: MuxFrame)
        ensures
            frame@ == (FrameView { stream_id: OPEN_ID, payload: seq![id] }),
            frame@.fits_wire(),
    {
        let mut bytes: Vec<u8> = Vec::new();
        bytes.push(id);
        assert(bytes@ =~= seq![id]);
        MuxFrame { stream_id: OPEN_ID, bytes }
    }

    /// The frame that closes stream `id`.
    pub fn close(id: u8) -> (frame: MuxFrame)
        ensures
            frame@ == (FrameView { stream_id: CLOSE_ID, payload: seq![id] }),
            frame@.fits_wire(),
    {
        let mut bytes: Vec<u8> = Vec::new();
        bytes.push(id);
        assert(bytes@ =~= seq![id]);
        MuxFrame { stream_id: CLOSE_ID, bytes }
    }
}

/// Takes the first frame off the front of `src`.
///
/// While the header or part of the payload is still missing nothing is taken
/// and `src` is left as it was. Otherwise the frame leaves `src`, and what
/// followed it stays. The length byte is taken as it stands: a frame that is
/// longer than the format allows is handed out like any other, and
/// `fits_wire` tells it apart.
pub fn decode(src: &mut BytesMut) -> (r: Option<MuxFrame>)
    ensures
        match first_frame(buffered(*old(src))) {
            Some(frame) => r is Some && r->0@ == frame && buffered(*final(src))
                == after_first_frame(buffered(*old(src))),
            None => r is None && buffered(*final(src)) == buffered(*old(src)),
        },
{
    if src.len() < 2 {
        return None;
    }
    let id: u8 = byte_at(src, 0);
    let len: u8 = byte_at(src, 1);
    let need: usize = len as usize + 2;
    if src.len() < need {
        return None;
    }
    let ghost wire = buffered(*src);
    advance(src, 2);
    let body = src.split_to(len as usize);
    let bytes = to_vec(&body);
    proof {
        assert(bytes@ =~= wire.subrange(2, 2 + wire[1]));
        assert(buffered(*src) =~= wire.skip(2 + wire[1]));
    }
    Some(MuxFrame { stream_id: id, bytes })
}

/// Appends the wire bytes of `item` to `dst`: id, length, payload.
pub fn encode(item: &MuxFrame, dst: &mut BytesMut)
    requires
        item@.fits_wire(),
    ensures
        buffered(*final(dst)) == buffered(*old(dst)) + wire_bytes(item@),
        buffered(*final(dst)).len() - buffered(*old(dst)).len() <= MAX_WIRE_FRAME,
{
    let len: usize = item.bytes.len();
    put_u8(dst, item.stream_id);
    put_u8(dst, len as u8);
    put_slice(dst, item.bytes.as_slice());
    proof {
        assert(buffered(*dst) =~= buffered(*old(dst)) + wire_bytes(item@));
    }
}

} // verus!
