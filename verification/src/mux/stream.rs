//! What a logical stream carries from one end to the other.
//!
//! The functions of this file follow the frames of one stream along their
//! way: out of the outgoing pump, over the wire among the frames of other
//! streams, through the supervisor of the far side and into its incoming
//! pump. The laws say that the bytes arrive as they were read, whatever else
//! the wire carries.

use crate::mux::frame::frames_of;
use crate::mux::frame::lemma_wire_round_trip;
use crate::mux::frame::wire_of;
use crate::mux::frame::FrameView;
use crate::mux::frame::MuxFrame;
use crate::mux::frame::MAX_PAYLOAD;
use crate::mux::ids::is_stream_id;
use crate::mux::multiplexer::addressee;
use crate::mux::pump::close_frame;
use crate::mux::pump::frame_views;
use crate::mux::pump::incoming_bytes;
use crate::mux::pump::incoming_next;
use crate::mux::pump::lemma_split_frames;
use crate::mux::pump::open_frame;
use crate::mux::pump::outgoing_frames;
use crate::mux::pump::outgoing_next;
use crate::mux::pump::payloads;
use crate::mux::pump::split_frames;
use crate::mux::pump::IncomingEvent;
use crate::mux::pump::OutgoingEvent;
use crate::mux::pump::PumpState;
use vstd::prelude::*;

verus! {

/// All frames that the outgoing pump of stream `id` submits when it is told
/// `events` in order, starting in `state`.
pub open spec fn run_outgoing(id: u8, state: PumpState, events: Seq<OutgoingEvent>) -> Seq<
    FrameView,
>
    decreases events.len(),
{
    if events.len() == 0 {
        Seq::empty()
    } else {
        outgoing_frames(id, state, events[0]) + run_outgoing(
            id,
            outgoing_next(state, events[0]),
            events.drop_first(),
        )
    }
}

/// All bytes that an incoming pump writes when it is told `events` in order,
/// starting in `state`.
pub open spec fn run_incoming(state: PumpState, events: Seq<IncomingEvent>) -> Seq<u8>
    decreases events.len(),
{
    if events.len() == 0 {
        Seq::empty()
    } else {
        incoming_bytes(state, events[0]) + run_incoming(
            incoming_next(state, events[0]),
            events.drop_first(),
        )
    }
}

/// `frame` carries between 1 and 253 bytes of stream `id`.
pub open spec fn is_data_of(id: u8, frame: FrameView) -> bool {
    &&& frame.stream_id == id
    &&& 1 <= frame.payload.len() <= MAX_PAYLOAD
}

/// `frames` are data frames of stream `id`, but that the last one may be the
/// frame that closes the stream.
pub open spec fn is_data_run(id: u8, frames: Seq<FrameView>) -> bool {
    forall|i: int|
        0 <= i < frames.len() ==> is_data_of(id, #[trigger] frames[i]) || (i == frames.len() - 1
            && frames[i] == close_frame(id))
}

/// `frames` are what one stream may put on the wire: nothing at all, or the
/// frame that opens the stream, then its data frames, then at most one frame
/// that closes it.
pub open spec fn is_stream_trace(id: u8, frames: Seq<FrameView>) -> bool {
    frames.len() > 0 ==> frames[0] == open_frame(id) && is_data_run(id, frames.drop_first())
}

proof fn lemma_run_done(id: u8, events: Seq<OutgoingEvent>)
    ensures
        run_outgoing(id, PumpState::Done, events) == Seq::<FrameView>::empty(),
    decreases events.len(),
{
    if events.len() > 0 {
        lemma_run_done(id, events.drop_first());
        assert(run_outgoing(id, PumpState::Done, events) =~= Seq::<FrameView>::empty());
    }
}

proof fn lemma_run_open(id: u8, events: Seq<OutgoingEvent>)
    ensures
        is_data_run(id, run_outgoing(id, PumpState::Open, events)),
    decreases events.len(),
{
    if events.len() > 0 {
        let rest = events.drop_first();
        let head = outgoing_frames(id, PumpState::Open, events[0]);
        let tail = run_outgoing(id, outgoing_next(PumpState::Open, events[0]), rest);
        let out = run_outgoing(id, PumpState::Open, events);
        assert(out == head + tail);
        if outgoing_next(PumpState::Open, events[0]) == PumpState::Open {
            lemma_run_open(id, rest);
            lemma_split_frames(id, events[0]->Read_0@);
            assert forall|i: int| 0 <= i < out.len() implies is_data_of(id, #[trigger] out[i]) || (i
                == out.len() - 1 && out[i] == close_frame(id)) by {
                if i >= head.len() {
                    assert(out[i] == tail[i - head.len()]);
                } else {
                    assert(out[i] == head[i]);
                }
            }
        } else {
            lemma_run_done(id, rest);
            assert(out =~= head);
        }
    }
}

/// The outgoing pump opens before it sends: whatever it is told, the first
/// frame that it submits opens the stream, data frames follow, and the frame
/// that closes the stream is the last, if there is one. Every data frame
/// carries the id of the stream and between 1 and 253 bytes.
pub proof fn lemma_open_before_data(id: u8, events: Seq<OutgoingEvent>)
    ensures
        is_stream_trace(id, run_outgoing(id, PumpState::Fresh, events)),
    decreases events.len(),
{
    if events.len() > 0 {
        let rest = events.drop_first();
        let out = run_outgoing(id, PumpState::Fresh, events);
        if events[0] is Start {
            lemma_run_open(id, rest);
            assert(out.drop_first() =~= run_outgoing(id, PumpState::Open, rest));
        } else {
            lemma_run_done(id, rest);
            assert(out =~= Seq::<FrameView>::empty());
        }
    }
}

/// No frame of a stream is longer on the wire than 255 bytes: each fits the
/// one length byte of the format.
pub proof fn lemma_trace_fits_wire(id: u8, frames: Seq<FrameView>)
    requires
        is_stream_trace(id, frames),
    ensures
        forall|i: int| 0 <= i < frames.len() ==> (#[trigger] frames[i]).fits_wire(),
{
    assert forall|i: int| 0 <= i < frames.len() implies (#[trigger] frames[i]).fits_wire() by {
        if i > 0 {
            assert(frames[i] == frames.drop_first()[i - 1]);
        }
    }
}

/// The frames of `wire` that the supervisor hands to the mailbox of stream
/// `id`, in order.
pub open spec fn delivered(wire: Seq<FrameView>, id: u8) -> Seq<FrameView>
    decreases wire.len(),
{
    if wire.len() == 0 {
        Seq::empty()
    } else if addressee(wire[0]) == Some(id) {
        seq![wire[0]] + delivered(wire.drop_first(), id)
    } else {
        delivered(wire.drop_first(), id)
    }
}

/// The bytes that reach the local endpoint of a stream whose mailbox was
/// handed `frames`: the payloads in front of the first frame that closes the
/// stream.
pub open spec fn received(frames: Seq<FrameView>) -> Seq<u8>
    decreases frames.len(),
{
    if frames.len() == 0 || frames[0].is_close() {
        Seq::empty()
    } else {
        frames[0].payload + received(frames.drop_first())
    }
}

/// The events that tell an incoming pump of `frames`, one by one.
pub open spec fn frame_events(frames: Seq<MuxFrame>) -> Seq<IncomingEvent> {
    frames.map_values(|frame: MuxFrame| IncomingEvent::Frame(frame))
}

/// The incoming pump writes what was received: the payloads of its frames in
/// order, and nothing from the closing frame on.
pub proof fn lemma_incoming_writes_received(frames: Seq<MuxFrame>)
    ensures
        run_incoming(PumpState::Open, frame_events(frames)) == received(frame_views(frames)),
    decreases frames.len(),
{
    let events = frame_events(frames);
    let views = frame_views(frames);
    if frames.len() > 0 {
        let rest = frames.drop_first();
        assert(events.drop_first() =~= frame_events(rest));
        assert(views.drop_first() =~= frame_views(rest));
        if views[0].is_close() {
            lemma_incoming_stopped(events.drop_first());
            assert(run_incoming(PumpState::Open, events) =~= Seq::<u8>::empty());
        } else {
            lemma_incoming_writes_received(rest);
        }
    }
}

proof fn lemma_incoming_stopped(events: Seq<IncomingEvent>)
    ensures
        run_incoming(PumpState::Done, events) == Seq::<u8>::empty(),
    decreases events.len(),
{
    if events.len() > 0 {
        lemma_incoming_stopped(events.drop_first());
        assert(run_incoming(PumpState::Done, events) =~= Seq::<u8>::empty());
    }
}

/// What a stream is handed from two stretches of the wire is what it is
/// handed from the first, then from the second.
pub proof fn lemma_delivered_concat(before: Seq<FrameView>, after: Seq<FrameView>, id: u8)
    ensures
        delivered(before + after, id) == delivered(before, id) + delivered(after, id),
    decreases before.len(),
{
    if before.len() == 0 {
        assert(before + after =~= after);
        assert(delivered(before, id) + delivered(after, id) =~= delivered(after, id));
    } else {
        lemma_delivered_concat(before.drop_first(), after, id);
        assert((before + after).drop_first() =~= before.drop_first() + after);
        assert(delivered(before + after, id) =~= delivered(before, id) + delivered(after, id));
    }
}

/// Streams do not disturb one another: frames that are not meant for stream
/// `id`, put anywhere among the frames of the wire, change nothing of what the
/// stream is handed, and so nothing of what it receives.
pub proof fn lemma_independence(
    before: Seq<FrameView>,
    others: Seq<FrameView>,
    after: Seq<FrameView>,
    id: u8,
)
    requires
        forall|i: int| 0 <= i < others.len() ==> addressee(#[trigger] others[i]) != Some(id),
    ensures
        delivered(before + others + after, id) == delivered(before + after, id),
        received(delivered(before + others + after, id)) == received(
            delivered(before + after, id),
        ),
{
    lemma_delivered_none(others, id);
    lemma_delivered_concat(before, others, id);
    lemma_delivered_concat(before + others, after, id);
    lemma_delivered_concat(before, after, id);
    assert(delivered(before, id) + Seq::<FrameView>::empty() =~= delivered(before, id));
}

proof fn lemma_delivered_none(others: Seq<FrameView>, id: u8)
    requires
        forall|i: int| 0 <= i < others.len() ==> addressee(#[trigger] others[i]) != Some(id),
    ensures
        delivered(others, id) == Seq::<FrameView>::empty(),
    decreases others.len(),
{
    if others.len() > 0 {
        let rest = others.drop_first();
        assert forall|i: int| 0 <= i < rest.len() implies addressee(#[trigger] rest[i]) != Some(
            id,
        ) by {
            assert(rest[i] == others[i + 1]);
        }
        lemma_delivered_none(rest, id);
    }
}

/// The frames that one stream puts on the wire are not meant for any other
/// stream.
pub proof fn lemma_trace_is_for_one_stream(id: u8, frames: Seq<FrameView>, other: u8)
    requires
        is_stream_id(id),
        is_stream_trace(id, frames),
        other != id,
    ensures
        forall|i: int| 0 <= i < frames.len() ==> addressee(#[trigger] frames[i]) != Some(other),
{
    assert forall|i: int| 0 <= i < frames.len() implies addressee(#[trigger] frames[i]) != Some(
        other,
    ) by {
        if i > 0 {
            assert(frames[i] == frames.drop_first()[i - 1]);
        }
    }
}

/// The events that tell an outgoing pump of `reads`, one by one, and then of
/// the end of the local endpoint.
pub open spec fn read_events(reads: Seq<Vec<u8>>) -> Seq<OutgoingEvent> {
    reads.map_values(|data: Vec<u8>| OutgoingEvent::Read(data)).push(OutgoingEvent::Ended)
}

/// The bytes of `reads`, one read after the other.
pub open spec fn read_bytes(reads: Seq<Vec<u8>>) -> Seq<u8>
    decreases reads.len(),
{
    if reads.len() == 0 {
        Seq::empty()
    } else {
        reads[0]@ + read_bytes(reads.drop_first())
    }
}

proof fn lemma_received_data(id: u8, data: Seq<FrameView>, then: Seq<FrameView>)
    requires
        is_stream_id(id),
        forall|i: int| 0 <= i < data.len() ==> is_data_of(id, #[trigger] data[i]),
    ensures
        delivered(data + then, id) == data + delivered(then, id),
        received(data + delivered(then, id)) == payloads(data) + received(delivered(then, id)),
    decreases data.len(),
{
    let tail = delivered(then, id);
    if data.len() == 0 {
        assert(data + then =~= then);
        assert(data + tail =~= tail);
        assert(payloads(data) + received(tail) =~= received(tail));
    } else {
        let rest = data.drop_first();
        assert forall|i: int| 0 <= i < rest.len() implies is_data_of(id, #[trigger] rest[i]) by {
            assert(rest[i] == data[i + 1]);
        }
        lemma_received_data(id, rest, then);
        assert(is_data_of(id, data[0]));
        assert((data + then).drop_first() =~= rest + then);
        assert((data + tail).drop_first() =~= rest + tail);
        assert(delivered(data + then, id) =~= data + tail);
        assert(received(data + tail) =~= payloads(data) + received(tail));
    }
}

proof fn lemma_conservation_open(id: u8, reads: Seq<Vec<u8>>)
    requires
        is_stream_id(id),
        forall|i: int| 0 <= i < reads.len() ==> (#[trigger] reads[i])@.len() > 0,
    ensures
        received(delivered(run_outgoing(id, PumpState::Open, read_events(reads)), id))
            == read_bytes(reads),
    decreases reads.len(),
{
    let events = read_events(reads);
    let out = run_outgoing(id, PumpState::Open, events);
    if reads.len() == 0 {
        lemma_run_done(id, events.drop_first());
        assert(out =~= seq![close_frame(id)]);
        assert(out.drop_first() =~= Seq::<FrameView>::empty());
        assert(out[0] == close_frame(id));
        assert(close_frame(id).payload[0] == id);
        assert(addressee(out[0]) == Some(id));
        assert(delivered(out.drop_first(), id) =~= Seq::<FrameView>::empty());
        assert(delivered(out, id) =~= seq![close_frame(id)]);
    } else {
        let rest = reads.drop_first();
        assert(events[0] == OutgoingEvent::Read(reads[0]));
        assert(events.drop_first() =~= read_events(rest));
        assert forall|i: int| 0 <= i < rest.len() implies (#[trigger] rest[i])@.len() > 0 by {
            assert(rest[i] == reads[i + 1]);
        }
        lemma_conservation_open(id, rest);
        let data = split_frames(id, reads[0]@);
        let then = run_outgoing(id, PumpState::Open, read_events(rest));
        lemma_split_frames(id, reads[0]@);
        assert(out == data + then);
        lemma_received_data(id, data, then);
    }
}

/// Nothing is lost and nothing is added on the way: when the outgoing pump of
/// a stream is started and told of reads that hold bytes, and then of the end
/// of its endpoint, the frames that it submits come back from the wire as
/// they were, and the far end receives the bytes that were read, in order.
pub proof fn lemma_frame_conservation(id: u8, reads: Seq<Vec<u8>>)
    requires
        is_stream_id(id),
        forall|i: int| 0 <= i < reads.len() ==> (#[trigger] reads[i])@.len() > 0,
    ensures
        ({
            let events = seq![OutgoingEvent::Start] + read_events(reads);
            let sent = run_outgoing(id, PumpState::Fresh, events);
            &&& frames_of(wire_of(sent)) == sent
            &&& received(delivered(sent, id)) == read_bytes(reads)
        }),
{
    let events = seq![OutgoingEvent::Start] + read_events(reads);
    let sent = run_outgoing(id, PumpState::Fresh, events);
    lemma_open_before_data(id, events);
    lemma_trace_fits_wire(id, sent);
    lemma_wire_round_trip(sent);
    assert(events.drop_first() =~= read_events(reads));
    let then = run_outgoing(id, PumpState::Open, read_events(reads));
    assert(sent == seq![open_frame(id)] + then);
    assert(sent.drop_first() =~= then);
    lemma_conservation_open(id, reads);
}

/// The data frames that carry `reads` on stream `id`: those of the first
/// read, then those of the next, and so on.
pub open spec fn data_frames(id: u8, reads: Seq<Vec<u8>>) -> Seq<FrameView>
    decreases reads.len(),
{
    if reads.len() == 0 {
        Seq::empty()
    } else {
        split_frames(id, reads[0]@) + data_frames(id, reads.drop_first())
    }
}

/// The payloads of two stretches of frames are those of the first, then
/// those of the second.
pub proof fn lemma_payloads_concat(before: Seq<FrameView>, after: Seq<FrameView>)
    ensures
        payloads(before + after) == payloads(before) + payloads(after),
    decreases before.len(),
{
    if before.len() == 0 {
        assert(before + after =~= after);
        assert(payloads(before) + payloads(after) =~= payloads(after));
    } else {
        lemma_payloads_concat(before.drop_first(), after);
        assert((before + after).drop_first() =~= before.drop_first() + after);
        assert(payloads(before + after) =~= payloads(before) + payloads(after));
    }
}

/// The data frames of a stream carry what was read, in order, and each holds
/// between 1 and 253 bytes of that stream.
pub proof fn lemma_data_frames(id: u8, reads: Seq<Vec<u8>>)
    ensures
        payloads(data_frames(id, reads)) == read_bytes(reads),
        forall|i: int|
            0 <= i < data_frames(id, reads).len() ==> is_data_of(
                id,
                #[trigger] data_frames(id, reads)[i],
            ),
    decreases reads.len(),
{
    if reads.len() > 0 {
        let first = split_frames(id, reads[0]@);
        let later = data_frames(id, reads.drop_first());
        lemma_data_frames(id, reads.drop_first());
        lemma_split_frames(id, reads[0]@);
        lemma_payloads_concat(first, later);
        assert forall|i: int| 0 <= i < (first + later).len() implies is_data_of(
            id,
            #[trigger] (first + later)[i],
        ) by {
            if i < first.len() {
                assert((first + later)[i] == first[i]);
            } else {
                assert((first + later)[i] == later[i - first.len()]);
            }
        }
    }
}

proof fn lemma_stream_trace_open(id: u8, reads: Seq<Vec<u8>>)
    requires
        forall|i: int| 0 <= i < reads.len() ==> (#[trigger] reads[i])@.len() > 0,
    ensures
        run_outgoing(id, PumpState::Open, read_events(reads)) == data_frames(id, reads) + seq![
            close_frame(id),
        ],
    decreases reads.len(),
{
    let events = read_events(reads);
    let out = run_outgoing(id, PumpState::Open, events);
    if reads.len() == 0 {
        lemma_run_done(id, events.drop_first());
        assert(out =~= seq![close_frame(id)]);
        assert(data_frames(id, reads) + seq![close_frame(id)] =~= seq![close_frame(id)]);
    } else {
        let rest = reads.drop_first();
        assert(events[0] == OutgoingEvent::Read(reads[0]));
        assert(events.drop_first() =~= read_events(rest));
        assert forall|i: int| 0 <= i < rest.len() implies (#[trigger] rest[i])@.len() > 0 by {
            assert(rest[i] == reads[i + 1]);
        }
        lemma_stream_trace_open(id, rest);
        assert(out =~= data_frames(id, reads) + seq![close_frame(id)]);
    }
}

/// What a stream puts on the wire from its start to its end: the frame that
/// opens it, the data frames of what was read, and the frame that closes it.
pub proof fn lemma_stream_trace(id: u8, reads: Seq<Vec<u8>>)
    requires
        forall|i: int| 0 <= i < reads.len() ==> (#[trigger] reads[i])@.len() > 0,
    ensures
        run_outgoing(id, PumpState::Fresh, seq![OutgoingEvent::Start] + read_events(reads))
            == seq![open_frame(id)] + data_frames(id, reads) + seq![close_frame(id)],
{
    let events = seq![OutgoingEvent::Start] + read_events(reads);
    assert(events.drop_first() =~= read_events(reads));
    lemma_stream_trace_open(id, reads);
    assert(run_outgoing(id, PumpState::Fresh, events) =~= seq![open_frame(id)] + data_frames(
        id,
        reads,
    ) + seq![close_frame(id)]);
}

/// The number of bytes that `frames` take on the wire: two for each frame,
/// and its payload.
pub open spec fn wire_len(frames: Seq<FrameView>) -> nat
    decreases frames.len(),
{
    if frames.len() == 0 {
        0
    } else {
        2 + frames[0].payload.len() + wire_len(frames.drop_first())
    }
}

/// Frames take on the wire what their payloads hold and two bytes each.
pub proof fn lemma_wire_len(frames: Seq<FrameView>)
    ensures
        wire_of(frames).len() == wire_len(frames),
        wire_len(frames) == payloads(frames).len() + 2 * frames.len(),
    decreases frames.len(),
{
    if frames.len() > 0 {
        lemma_wire_len(frames.drop_first());
    }
}

/// Frames that fit the wire hold at most 253 bytes each.
pub proof fn lemma_payloads_bound(frames: Seq<FrameView>)
    requires
        forall|i: int| 0 <= i < frames.len() ==> (#[trigger] frames[i]).fits_wire(),
    ensures
        payloads(frames).len() <= MAX_PAYLOAD * frames.len(),
    decreases frames.len(),
{
    if frames.len() > 0 {
        let rest = frames.drop_first();
        assert forall|i: int| 0 <= i < rest.len() implies (#[trigger] rest[i]).fits_wire() by {
            assert(rest[i] == frames[i + 1]);
        }
        lemma_payloads_bound(rest);
        assert(frames[0].fits_wire());
        assert(MAX_PAYLOAD * frames.len() == MAX_PAYLOAD + MAX_PAYLOAD * rest.len()) by {
            assert(frames.len() == rest.len() + 1);
            assert(MAX_PAYLOAD * (rest.len() + 1) == MAX_PAYLOAD * rest.len() + MAX_PAYLOAD)
                by (nonlinear_arith);
        }
    }
}

proof fn lemma_payloads_of_one(frame: FrameView)
    ensures
        payloads(seq![frame]) == frame.payload,
{
    let one = seq![frame];
    assert(one[0] == frame);
    assert(one.drop_first() =~= Seq::<FrameView>::empty());
    assert(payloads(one.drop_first()) =~= Seq::<u8>::empty());
    assert(payloads(one) =~= frame.payload);
}

/// What a stream costs on the wire: the bytes that were read, two bytes for
/// each data frame, and three bytes each for the frames that open and close
/// it. The data frames are at least as many as frames of 253 bytes can hold
/// what was read.
pub proof fn lemma_stream_wire_length(id: u8, reads: Seq<Vec<u8>>)
    requires
        forall|i: int| 0 <= i < reads.len() ==> (#[trigger] reads[i])@.len() > 0,
    ensures
        ({
            let events = seq![OutgoingEvent::Start] + read_events(reads);
            let sent = run_outgoing(id, PumpState::Fresh, events);
            let frames = data_frames(id, reads).len();
            &&& sent.len() == frames + 2
            &&& wire_of(sent).len() == read_bytes(reads).len() + 2 * frames + 6
            &&& read_bytes(reads).len() <= MAX_PAYLOAD * frames
        }),
{
    let events = seq![OutgoingEvent::Start] + read_events(reads);
    let sent = run_outgoing(id, PumpState::Fresh, events);
    let data = data_frames(id, reads);
    lemma_stream_trace(id, reads);
    lemma_data_frames(id, reads);
    lemma_wire_len(sent);
    lemma_payloads_concat(seq![open_frame(id)] + data, seq![close_frame(id)]);
    lemma_payloads_concat(seq![open_frame(id)], data);
    lemma_payloads_of_one(open_frame(id));
    lemma_payloads_of_one(close_frame(id));
    lemma_payloads_bound(data);
}

/// `wire` holds the frames of `streams`, those of each stream in their
/// order, and nothing else.
pub open spec fn is_interleaving(wire: Seq<FrameView>, streams: Seq<Seq<FrameView>>) -> bool
    decreases wire.len(),
{
    if wire.len() == 0 {
        forall|k: int| 0 <= k < streams.len() ==> (#[trigger] streams[k]).len() == 0
    } else {
        exists|k: int|
            {
                &&& 0 <= k < streams.len()
                &&& (#[trigger] streams[k]).len() > 0
                &&& streams[k][0] == wire[0]
                &&& is_interleaving(wire.drop_first(), streams.update(k, streams[k].drop_first()))
            }
    }
}

/// The bytes that all of `streams` take on the wire.
pub open spec fn total_wire_len(streams: Seq<Seq<FrameView>>) -> nat
    decreases streams.len(),
{
    if streams.len() == 0 {
        0
    } else {
        total_wire_len(streams.drop_last()) + wire_len(streams.last())
    }
}

proof fn lemma_total_of_empty(streams: Seq<Seq<FrameView>>)
    requires
        forall|k: int| 0 <= k < streams.len() ==> (#[trigger] streams[k]).len() == 0,
    ensures
        total_wire_len(streams) == 0,
    decreases streams.len(),
{
    if streams.len() > 0 {
        let rest = streams.drop_last();
        assert forall|k: int| 0 <= k < rest.len() implies (#[trigger] rest[k]).len() == 0 by {
            assert(rest[k] == streams[k]);
        }
        lemma_total_of_empty(rest);
        assert(streams.last() == streams[streams.len() - 1]);
    }
}

proof fn lemma_total_after_update(streams: Seq<Seq<FrameView>>, k: int, next: Seq<FrameView>)
    requires
        0 <= k < streams.len(),
    ensures
        total_wire_len(streams.update(k, next)) + wire_len(streams[k]) == total_wire_len(streams)
            + wire_len(next),
    decreases streams.len(),
{
    let updated = streams.update(k, next);
    if k == streams.len() - 1 {
        assert(updated.drop_last() =~= streams.drop_last());
    } else {
        assert(updated.drop_last() =~= streams.drop_last().update(k, next));
        assert(updated.last() == streams.last());
        lemma_total_after_update(streams.drop_last(), k, next);
    }
}

/// However the frames of several streams are mixed on the wire, they take
/// there what the streams take together.
pub proof fn lemma_interleaved_wire_length(wire: Seq<FrameView>, streams: Seq<Seq<FrameView>>)
    requires
        is_interleaving(wire, streams),
    ensures
        wire_of(wire).len() == total_wire_len(streams),
    decreases wire.len(),
{
    lemma_wire_len(wire);
    if wire.len() == 0 {
        lemma_total_of_empty(streams);
    } else {
        let k = choose|k: int|
            {
                &&& 0 <= k < streams.len()
                &&& (#[trigger] streams[k]).len() > 0
                &&& streams[k][0] == wire[0]
                &&& is_interleaving(wire.drop_first(), streams.update(k, streams[k].drop_first()))
            };
        let next = streams.update(k, streams[k].drop_first());
        lemma_interleaved_wire_length(wire.drop_first(), next);
        lemma_wire_len(wire.drop_first());
        lemma_total_after_update(streams, k, streams[k].drop_first());
    }
}

/// However the frames of several streams are mixed on the wire, a stream is
/// handed what it would be handed were it alone on the wire, so long as no
/// other stream sends frames that are meant for it.
pub proof fn lemma_interleaved_delivery(
    wire: Seq<FrameView>,
    streams: Seq<Seq<FrameView>>,
    own: int,
    id: u8,
)
    requires
        is_interleaving(wire, streams),
        0 <= own < streams.len(),
        forall|k: int, i: int|
            0 <= k < streams.len() && k != own && 0 <= i < streams[k].len() ==> addressee(
                #[trigger] streams[k][i],
            ) != Some(id),
    ensures
        delivered(wire, id) == delivered(streams[own], id),
        received(delivered(wire, id)) == received(delivered(streams[own], id)),
    decreases wire.len(),
{
    if wire.len() == 0 {
        assert(streams[own].len() == 0);
    } else {
        let k = choose|k: int|
            {
                &&& 0 <= k < streams.len()
                &&& (#[trigger] streams[k]).len() > 0
                &&& streams[k][0] == wire[0]
                &&& is_interleaving(wire.drop_first(), streams.update(k, streams[k].drop_first()))
            };
        let next = streams.update(k, streams[k].drop_first());
        assert forall|m: int, i: int|
            0 <= m < next.len() && m != own && 0 <= i < next[m].len() implies addressee(
            #[trigger] next[m][i],
        ) != Some(id) by {
            if m == k {
                assert(next[m][i] == streams[k][i + 1]);
            } else {
                assert(next[m][i] == streams[m][i]);
            }
        }
        lemma_interleaved_delivery(wire.drop_first(), next, own, id);
        if k == own {
            assert(next[own] == streams[own].drop_first());
        } else {
            assert(next[own] == streams[own]);
            assert(addressee(streams[k][0]) != Some(id));
        }
    }
}

} // verus!
