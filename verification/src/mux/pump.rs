//! The two pumps of a logical stream.
//!
//! The outgoing pump turns what is read from the local endpoint into frames
//! for the wire. The incoming pump turns the frames that arrive for the stream
//! into writes to the local endpoint. Each is a small state machine: the caller
//! reads, writes and waits, tells the pump what happened, and does what the
//! pump answers.

use crate::mux::frame::FrameView;
use crate::mux::frame::MuxFrame;
use crate::mux::frame::CLOSE_ID;
use crate::mux::frame::MAX_PAYLOAD;
use crate::mux::frame::OPEN_ID;
use vstd::prelude::*;
use vstd::slice::slice_subrange;
use vstd::slice::slice_to_vec;

verus! {

/// The frames of a sequence, each by its view.
pub open spec fn frame_views(frames: Seq<MuxFrame>) -> Seq<FrameView> {
    frames.map_values(|frame: MuxFrame| frame@)
}

/// The frame that opens stream `id`.
pub open spec fn open_frame(id: u8) -> FrameView {
    FrameView { stream_id: OPEN_ID, payload: seq![id] }
}

/// The frame that closes stream `id`.
pub open spec fn close_frame(id: u8) -> FrameView {
    FrameView { stream_id: CLOSE_ID, payload: seq![id] }
}

/// The data frames that carry `data` on stream `id`: every frame but the last
/// is full, and none is empty.
pub open spec fn split_frames(id: u8, data: Seq<u8>) -> Seq<FrameView>
    decreases data.len(),
{
    if data.len() == 0 {
        Seq::empty()
    } else if data.len() <= MAX_PAYLOAD {
        seq![FrameView { stream_id: id, payload: data }]
    } else {
        seq![FrameView { stream_id: id, payload: data.take(MAX_PAYLOAD as int) }] + split_frames(
            id,
            data.skip(MAX_PAYLOAD as int),
        )
    }
}

/// The payloads of `frames`, one after the other.
pub open spec fn payloads(frames: Seq<FrameView>) -> Seq<u8>
    decreases frames.len(),
{
    if frames.len() == 0 {
        Seq::empty()
    } else {
        frames[0].payload + payloads(frames.drop_first())
    }
}

/// Splitting loses nothing: the frames carry `data` in order, each belongs to
/// stream `id`, and each holds between 1 and 253 bytes.
pub proof fn lemma_split_frames(id: u8, data: Seq<u8>)
    ensures
        payloads(split_frames(id, data)) == data,
        forall|i: int|
            0 <= i < split_frames(id, data).len() ==> {
                &&& (#[trigger] split_frames(id, data)[i]).stream_id == id
                &&& 1 <= split_frames(id, data)[i].payload.len() <= MAX_PAYLOAD
            },
    decreases data.len(),
{
    let frames = split_frames(id, data);
    if data.len() == 0 {
        assert(payloads(frames) =~= data);
    } else if data.len() <= MAX_PAYLOAD {
        assert(frames.drop_first() =~= Seq::<FrameView>::empty());
        assert(payloads(frames.drop_first()) =~= Seq::<u8>::empty());
        assert(payloads(frames) =~= data);
    } else {
        let rest = data.skip(MAX_PAYLOAD as int);
        lemma_split_frames(id, rest);
        assert(frames.drop_first() =~= split_frames(id, rest));
        assert(payloads(frames) =~= data);
        assert forall|i: int| 0 <= i < frames.len() implies {
            &&& (#[trigger] frames[i]).stream_id == id
            &&& 1 <= frames[i].payload.len() <= MAX_PAYLOAD
        } by {
            if i > 0 {
                assert(frames[i] == split_frames(id, rest)[i - 1]);
            }
        }
    }
}

/// Cuts `data` into the data frames of stream `id`.
pub fn split_payload(id: u8, data: &[u8]) -> (frames: Vec<MuxFrame>)
    ensures
        frame_views(frames@) == split_frames(id, data@),
{
    let mut frames: Vec<MuxFrame> = Vec::new();
    let mut at: usize = 0;
    assert(frame_views(frames@) =~= Seq::<FrameView>::empty());
    assert(data@.skip(0) =~= data@);
    while at < data.len()
        invariant
            at <= data.len(),
            frame_views(frames@) + split_frames(id, data@.skip(at as int)) == split_frames(
                id,
                data@,
            ),
        decreases data.len() - at,
    {
        let end: usize = if data.len() - at > MAX_PAYLOAD {
            at + MAX_PAYLOAD
        } else {
            data.len()
        };
        let chunk = slice_to_vec(slice_subrange(data, at, end));
        let frame = MuxFrame { stream_id: id, bytes: chunk };
        proof {
            let left = data@.skip(at as int);
            let ghost_frames = frame_views(frames@);
            if left.len() <= MAX_PAYLOAD {
                assert(chunk@ =~= left);
                assert(data@.skip(end as int) =~= Seq::<u8>::empty());
                assert(split_frames(id, left) =~= seq![frame@] + split_frames(
                    id,
                    data@.skip(end as int),
                ));
            } else {
                assert(chunk@ =~= left.take(MAX_PAYLOAD as int));
                assert(left.skip(MAX_PAYLOAD as int) =~= data@.skip(end as int));
            }
            assert(frame_views(frames@.push(frame)) =~= ghost_frames.push(frame@));
            assert(ghost_frames.push(frame@) + split_frames(id, data@.skip(end as int))
                =~= ghost_frames + split_frames(id, left));
        }
        frames.push(frame);
        at = end;
    }
    assert(frame_views(frames@) + Seq::<FrameView>::empty() =~= frame_views(frames@));
    frames
}

/// How far a pump has come.
#[derive(Debug, Clone, Copy, PartialEq, Eq, Structural)]
pub enum PumpState {
    /// Nothing was sent yet.
    Fresh,
    /// The stream is open and data flows.
    Open,
    /// The pump has stopped.
    Done,
}

/// What the outgoing pump is told.
pub enum OutgoingEvent {
    /// The pump starts.
    Start,
    /// The local endpoint was read. No bytes mean that it is at its end.
    Read(Vec<u8>),
    /// The read failed, or the other pump of the stream asks to stop.
    Ended,
    /// The mailbox to the wire took no frame: the supervisor is gone.
    Rejected,
}

/// What the outgoing pump asks for.
pub enum OutgoingAction {
    /// Submit these frames in order, then read again.
    Forward(Vec<MuxFrame>),
    /// Submit this last frame, tell the other pump of the stream to stop, and
    /// stop.
    Finish(MuxFrame),
    /// Stop.
    Stop,
}

/// The outgoing pump closes its stream on `event`: it is open, and the local
/// endpoint is at its end, the read failed, or the other pump asks to stop.
pub open spec fn outgoing_closes(state: PumpState, event: OutgoingEvent) -> bool {
    &&& state == PumpState::Open
    &&& match event {
        OutgoingEvent::Read(data) => data@.len() == 0,
        OutgoingEvent::Ended => true,
        _ => false,
    }
}

/// The state of the outgoing pump after `event`.
pub open spec fn outgoing_next(state: PumpState, event: OutgoingEvent) -> PumpState {
    match (state, event) {
        (PumpState::Fresh, OutgoingEvent::Start) => PumpState::Open,
        (PumpState::Open, OutgoingEvent::Read(data)) => if data@.len() > 0 {
            PumpState::Open
        } else {
            PumpState::Done
        },
        _ => PumpState::Done,
    }
}

/// The frames that the outgoing pump of stream `id` submits on `event`.
pub open spec fn outgoing_frames(id: u8, state: PumpState, event: OutgoingEvent) -> Seq<
    FrameView,
> {
    match (state, event) {
        (PumpState::Fresh, OutgoingEvent::Start) => seq![open_frame(id)],
        (PumpState::Open, OutgoingEvent::Read(data)) => if data@.len() > 0 {
            split_frames(id, data@)
        } else {
            seq![close_frame(id)]
        },
        (PumpState::Open, OutgoingEvent::Ended) => seq![close_frame(id)],
        _ => Seq::empty(),
    }
}

/// The frames that an action of the outgoing pump submits.
pub open spec fn submitted(action: OutgoingAction) -> Seq<FrameView> {
    match action {
        OutgoingAction::Forward(frames) => frame_views(frames@),
        OutgoingAction::Finish(frame) => seq![frame@],
        OutgoingAction::Stop => Seq::empty(),
    }
}

/// The pump from the local endpoint of a stream to the wire.
pub struct OutgoingPump {
    id: u8,
    state: PumpState,
}

impl OutgoingPump {
    /// The stream that the pump serves.
    pub closed spec fn stream(&self) -> u8 {
        self.id
    }

    /// How far the pump has come.
    pub closed spec fn state(&self) -> PumpState {
        self.state
    }

    /// A pump for stream `id` that has sent nothing yet.
    pub fn new(id: u8) -> (pump: OutgoingPump)
        ensures
            pump.stream() == id,
            pump.state() == PumpState::Fresh,
    {
        OutgoingPump { id, state: PumpState::Fresh }
    }

    /// Whether the pump has stopped.
    pub fn is_done(&self) -> (r: bool)
        ensures
            r == (self.state() == PumpState::Done),
    {
        match self.state {
            PumpState::Done => true,
            _ => false,
        }
    }

    /// One turn of the outgoing pump.
    ///
    /// At its start the pump submits the frame that opens the stream. What is
    /// read then goes out as data frames of at most 253 bytes. At the end of
    /// the local endpoint, on a failed read, or when the other pump asks to
    /// stop, the pump submits the frame that closes the stream and stops. When
    /// the wire takes no more frames it stops at once.
    pub fn pass_outgoing(&mut self, event: OutgoingEvent) -> (action: OutgoingAction)
        ensures
            final(self).stream() == old(self).stream(),
            final(self).state() == outgoing_next(old(self).state(), event),
            submitted(action) == outgoing_frames(old(self).stream(), old(self).state(), event),
            action is Forward <==> final(self).state() == PumpState::Open,
            action is Finish <==> outgoing_closes(old(self).state(), event),
            action is Finish ==> action->Finish_0@ == close_frame(old(self).stream()),
    {
        let id = self.id;
        match (self.state, event) {
            (PumpState::Fresh, OutgoingEvent::Start) => {
                self.state = PumpState::Open;
                let mut frames: Vec<MuxFrame> = Vec::new();
                frames.push(MuxFrame::open(id));
                assert(frame_views(frames@) =~= seq![open_frame(id)]);
                OutgoingAction::Forward(frames)
            },
            (PumpState::Open, OutgoingEvent::Read(data)) => {
                if data.len() > 0 {
                    let frames = split_payload(id, data.as_slice());
                    OutgoingAction::Forward(frames)
                } else {
                    self.state = PumpState::Done;
                    OutgoingAction::Finish(MuxFrame::close(id))
                }
            },
            (PumpState::Open, OutgoingEvent::Ended) => {
                self.state = PumpState::Done;
                OutgoingAction::Finish(MuxFrame::close(id))
            },
            _ => {
                self.state = PumpState::Done;
                OutgoingAction::Stop
            },
        }
    }
}

/// What the incoming pump is told.
pub enum IncomingEvent {
    /// A frame arrived for the stream.
    Frame(MuxFrame),
    /// The mailbox is closed, or the other pump of the stream asks to stop.
    Ended,
    /// The write to the local endpoint failed.
    WriteFailed,
}

/// What the incoming pump asks for.
pub enum IncomingAction {
    /// Write these bytes to the local endpoint, then wait for the next frame.
    Write(Vec<u8>),
    /// Tell the other pump of the stream to stop, and stop.
    Stop,
}

/// The incoming pump goes on after `event`: it is running and was handed a
/// frame that does not close the stream.
pub open spec fn incoming_goes_on(state: PumpState, event: IncomingEvent) -> bool {
    &&& state != PumpState::Done
    &&& event is Frame
    &&& !event->Frame_0@.is_close()
}

/// The state of the incoming pump after `event`.
pub open spec fn incoming_next(state: PumpState, event: IncomingEvent) -> PumpState {
    if incoming_goes_on(state, event) {
        PumpState::Open
    } else {
        PumpState::Done
    }
}

/// The bytes that the incoming pump writes on `event`.
pub open spec fn incoming_bytes(state: PumpState, event: IncomingEvent) -> Seq<u8> {
    if incoming_goes_on(state, event) {
        event->Frame_0@.payload
    } else {
        Seq::empty()
    }
}

/// The pump from the wire to the local endpoint of a stream.
pub struct IncomingPump {
    state: PumpState,
}

impl IncomingPump {
    /// How far the pump has come.
    pub closed spec fn state(&self) -> PumpState {
        self.state
    }

    /// A pump that waits for its first frame.
    pub fn new() -> (pump: IncomingPump)
        ensures
            pump.state() == PumpState::Open,
    {
        IncomingPump { state: PumpState::Open }
    }

    /// Whether the pump has stopped.
    pub fn is_done(&self) -> (r: bool)
        ensures
            r == (self.state() == PumpState::Done),
    {
        match self.state {
            PumpState::Done => true,
            _ => false,
        }
    }

    /// One turn of the incoming pump.
    ///
    /// The payload of each frame is written to the local endpoint. The pump
    /// stops on the frame that closes the stream, when its mailbox is closed,
    /// when the other pump asks to stop, and when a write fails. Once stopped
    /// it writes nothing more.
    pub fn pass_incoming(&mut self, event: IncomingEvent) -> (action: IncomingAction)
        ensures
            final(self).state() == incoming_next(old(self).state(), event),
            match action {
                IncomingAction::Write(bytes) => {
                    &&& incoming_goes_on(old(self).state(), event)
                    &&& bytes@ == incoming_bytes(old(self).state(), event)
                },
                IncomingAction::Stop => !incoming_goes_on(old(self).state(), event),
            },
    {
        match (self.state, event) {
            (PumpState::Done, _) => IncomingAction::Stop,
            (_, IncomingEvent::Frame(frame)) => {
                if frame.stream_id == CLOSE_ID {
                    self.state = PumpState::Done;
                    IncomingAction::Stop
                } else {
                    self.state = PumpState::Open;
                    IncomingAction::Write(frame.bytes)
                }
            },
            _ => {
                self.state = PumpState::Done;
                IncomingAction::Stop
            },
        }
    }
}

} // verus!
