//! The table of logical streams and the decisions of its supervisor.
//!
//! One supervisor owns the table. It is handed events (a new local
//! connection, a frame from a local pump, a frame from the wire) and answers
//! each with the one action to perform. Sending and receiving are left to the
//! caller, so the table can be driven by any runtime.
//!
//! The table is generic in the mailbox `M`, the handle through which frames
//! reach the pump of a stream. The table stores mailboxes and hands them out;
//! it never looks inside one.

use crate::mux::frame::FrameView;
use crate::mux::frame::MuxFrame;
use crate::mux::frame::CLOSE_ID;
use crate::mux::frame::OPEN_ID;
use crate::mux::ids::is_stream_id;
use crate::mux::ids::next_free;
use crate::mux::ids::stream_ids;
use crate::mux::ids::IdAllocator;
use crate::mux::ids::MAX_STREAMS;
use std::collections::HashMap;
use vstd::prelude::*;

verus! {

broadcast use vstd::std_specs::hash::group_hash_axioms;

/// The stream that a control frame names: its first payload byte.
pub open spec fn named_stream(frame: FrameView) -> Option<u8> {
    if frame.payload.len() > 0 {
        Some(frame.payload[0])
    } else {
        None
    }
}

/// The stream whose mailbox a frame from the wire is meant for. A data frame
/// is for the stream of its id, a closing frame for the stream it names, and
/// an opening frame for none.
pub open spec fn addressee(frame: FrameView) -> Option<u8> {
    if frame.is_open() {
        None
    } else if frame.is_close() {
        named_stream(frame)
    } else {
        Some(frame.stream_id)
    }
}

/// The table after a frame has passed the supervisor, to the wire or from it:
/// the stream that a closing frame names has left it.
pub open spec fn after_frame<M>(table: Map<u8, M>, frame: FrameView) -> Map<u8, M> {
    if frame.is_close() && named_stream(frame) is Some {
        table.remove(named_stream(frame)->0)
    } else {
        table
    }
}

/// What is done with a data or closing frame from the wire: it goes to the
/// mailbox of its stream where that stream is open, and is dropped otherwise.
pub open spec fn routed<M>(table: Map<u8, M>, frame: MuxFrame) -> MuxAction<M> {
    match addressee(frame@) {
        Some(id) => if !table.contains_key(id) {
            MuxAction::Discard
        } else if frame@.is_close() {
            MuxAction::DeliverLast { mailbox: table[id], frame }
        } else {
            MuxAction::Deliver { id, frame }
        },
        None => MuxAction::Discard,
    }
}

/// Whether a stream can be entered under the id that the peer proposed.
pub open spec fn open_outcome<M>(table: Map<u8, M>, id: u8) -> Result<(), OpenError> {
    if !is_stream_id(id) {
        Err(OpenError::Reserved)
    } else if table.contains_key(id) {
        Err(OpenError::InUse)
    } else {
        Ok(())
    }
}

/// The table after a stream was to be entered under `id`.
pub open spec fn after_open<M>(table: Map<u8, M>, id: u8, mailbox: M) -> Map<u8, M> {
    if open_outcome(table, id) is Ok {
        table.insert(id, mailbox)
    } else {
        table
    }
}

/// An id can be used again as soon as its stream has left the table: the peer
/// may open a stream under it, and a local connection is given an id that is
/// no higher.
pub proof fn lemma_stream_id_reuse<M>(table: Map<u8, M>, id: u8)
    requires
        is_stream_id(id),
    ensures
        open_outcome(table.remove(id), id) is Ok,
        next_free(table.remove(id).dom()) is Some,
        next_free(table.remove(id).dom())->0 <= id,
{
    assert(table.remove(id).dom() =~= table.dom().remove(id));
    crate::mux::ids::lemma_id_reuse(table.dom(), id);
}

/// Why a stream could not be entered under the id that the peer proposed.
#[derive(Debug, Clone, Copy, PartialEq, Eq, Structural)]
pub enum OpenError {
    /// The id is 0 or 255, which name no stream.
    Reserved,
    /// A stream with this id is open.
    InUse,
}

/// What the supervisor of the consumer side is handed.
pub enum ConsumerEvent<M> {
    /// A local endpoint is to become a logical stream. The mailbox will take
    /// the frames that arrive for it.
    Connect(M),
    /// A local pump hands over a frame for the wire.
    Outgoing(MuxFrame),
    /// The decoder hands over a frame from the wire.
    Incoming(MuxFrame),
    /// The wire has ended: nothing more can be read from it or written to it.
    WireClosed,
}

/// What the supervisor of the producer side is handed.
pub enum ProducerEvent<M> {
    /// A local pump hands over a frame for the wire.
    Outgoing(MuxFrame),
    /// The decoder hands over a frame from the wire.
    Incoming(MuxFrame),
    /// The mailbox for a stream that the peer asked to open under `id`.
    Opened { id: u8, mailbox: M },
    /// The wire has ended: nothing more can be read from it or written to it.
    WireClosed,
}

/// What the supervisor asks its caller to do.
pub enum MuxAction<M> {
    /// Stream `id` is in the table: start its two pumps.
    Start { id: u8 },
    /// Every id is taken: the connection is turned away.
    Refuse,
    /// Hand the frame to the encoder.
    Send(MuxFrame),
    /// Hand the frame to the mailbox of stream `id`.
    Deliver { id: u8, frame: MuxFrame },
    /// Hand the frame to this mailbox, which has left the table.
    DeliverLast { mailbox: M, frame: MuxFrame },
    /// The peer asks to open stream `id`: answer with `Opened`.
    Open { id: u8 },
    /// Nothing is to be done.
    Discard,
    /// The wire has ended and no stream is left: the supervisor leaves.
    Leave,
}

/// The logical streams that are open, each with its mailbox.
pub struct Multiplexer<M> {
    connection_numbers: IdAllocator,
    connections: HashMap<u8, M>,
}

impl<M> View for Multiplexer<M> {
    type V = Map<u8, M>;

    /// The mailbox of each open stream, by id.
    closed spec fn view(&self) -> Map<u8, M> {
        self.connections@
    }
}

impl<M> Multiplexer<M> {
    /// A stream has a mailbox exactly if its id is handed out.
    pub closed spec fn wf(&self) -> bool {
        &&& self.connection_numbers.wf()
        &&& self.connection_numbers@ == self.connections@.dom()
    }

    /// The ids of the open streams.
    pub open spec fn streams(&self) -> Set<u8> {
        self@.dom()
    }

    /// Every open stream has a stream id, so at most 254 are open.
    pub proof fn lemma_streams(&self)
        requires
            self.wf(),
        ensures
            self.streams().subset_of(stream_ids()),
            self.streams().finite(),
            self.streams().len() <= MAX_STREAMS,
    {
        self.connection_numbers.lemma_view();
    }

    /// A local connection is refused exactly when 254 streams are open.
    pub proof fn lemma_full(&self)
        requires
            self.wf(),
        ensures
            next_free(self.streams()) is None <==> self.streams().len() == MAX_STREAMS,
    {
        self.lemma_streams();
        crate::mux::ids::lemma_exhaustion(self.streams());
    }

    /// A table without streams.
    pub fn new() -> (mux: Multiplexer<M>)
        ensures
            mux.wf(),
            mux@ == Map::<u8, M>::empty(),
    {
        let mux = Multiplexer { connection_numbers: IdAllocator::new(), connections: HashMap::new() };
        assert(mux.connections@.dom() =~= Set::<u8>::empty());
        mux
    }

    /// Whether stream `id` is open.
    pub fn is_open(&self, id: u8) -> (r: bool)
        requires
            self.wf(),
        ensures
            r == self@.contains_key(id),
    {
        self.connection_numbers.is_reserved(id)
    }

    /// The mailbox of stream `id`, if the stream is open.
    pub fn mailbox(&self, id: u8) -> (r: Option<&M>)
        ensures
            match r {
                Some(mailbox) => self@.contains_key(id) && *mailbox == self@[id],
                None => !self@.contains_key(id),
            },
    {
        self.connections.get(&id)
    }

    /// Enters a local connection under the lowest free id. With every id
    /// taken the table stays as it is and the result is `None`.
    pub fn accept_connection(&mut self, mailbox: M) -> (r: Option<u8>)
        requires
            old(self).wf(),
        ensures
            final(self).wf(),
            r == next_free(old(self).streams()),
            match r {
                Some(id) => final(self)@ == old(self)@.insert(id, mailbox),
                None => final(self)@ == old(self)@,
            },
    {
        match self.connection_numbers.reserve_id() {
            Some(id) => {
                self.connections.insert(id, mailbox);
                assert(self.connections@.dom() =~= old(self).connections@.dom().insert(id));
                Some(id)
            },
            None => None,
        }
    }

    /// Enters a stream under the id that the peer proposed. An id that names
    /// no stream, or one that is in use, is turned down and the table stays as
    /// it is.
    pub fn create_connection(&mut self, id: u8, mailbox: M) -> (r: Result<(), OpenError>)
        requires
            old(self).wf(),
        ensures
            final(self).wf(),
            r == open_outcome(old(self)@, id),
            final(self)@ == after_open(old(self)@, id, mailbox),
    {
        if id == 0 || id == 255 {
            return Err(OpenError::Reserved);
        }
        if !self.connection_numbers.claim_id(id) {
            return Err(OpenError::InUse);
        }
        self.connections.insert(id, mailbox);
        assert(self.connections@.dom() =~= old(self).connections@.dom().insert(id));
        Ok(())
    }

    /// Takes stream `id` out of the table and frees its id. The result is the
    /// mailbox that the stream had. Releasing a stream that is not open changes
    /// nothing.
    pub fn release_connection(&mut self, id: u8) -> (r: Option<M>)
        requires
            old(self).wf(),
        ensures
            final(self).wf(),
            final(self)@ == old(self)@.remove(id),
            r == if old(self)@.contains_key(id) {
                Some(old(self)@[id])
            } else {
                None
            },
    {
        let gone = self.connections.remove(&id);
        self.connection_numbers.release_id(id);
        assert(self.connections@.dom() =~= old(self).connections@.dom().remove(id));
        gone
    }

    /// Takes every stream out of the table and frees every id. The mailboxes
    /// are let go, so the pumps that wait on them come to their end.
    pub fn release_all(&mut self)
        requires
            old(self).wf(),
        ensures
            final(self).wf(),
            final(self)@ == Map::<u8, M>::empty(),
    {
        self.connections.clear();
        self.connection_numbers = IdAllocator::new();
        assert(self.connections@.dom() =~= Set::<u8>::empty());
    }

    /// A frame passes from a local pump to the wire. A closing frame also
    /// takes the stream that it names out of the table.
    fn pass_to_wire(&mut self, frame: MuxFrame) -> (action: MuxAction<M>)
        requires
            old(self).wf(),
        ensures
            final(self).wf(),
            action == MuxAction::<M>::Send(frame),
            final(self)@ == after_frame(old(self)@, frame@),
    {
        if frame.stream_id == CLOSE_ID && frame.bytes.len() > 0 {
            let id = frame.bytes[0];
            let _ = self.release_connection(id);
        }
        MuxAction::Send(frame)
    }

    /// A data or closing frame from the wire goes to the mailbox of its
    /// stream. A closing frame also takes that stream out of the table.
    fn route(&mut self, frame: MuxFrame) -> (action: MuxAction<M>)
        requires
            old(self).wf(),
            !frame@.is_open(),
        ensures
            final(self).wf(),
            final(self)@ == after_frame(old(self)@, frame@),
            action == routed(old(self)@, frame),
    {
        if frame.stream_id == CLOSE_ID {
            if frame.bytes.len() == 0 {
                return MuxAction::Discard;
            }
            let id = frame.bytes[0];
            match self.release_connection(id) {
                Some(mailbox) => MuxAction::DeliverLast { mailbox, frame },
                None => {
                    assert(self@ =~= old(self)@);
                    MuxAction::Discard
                },
            }
        } else if self.is_open(frame.stream_id) {
            MuxAction::Deliver { id: frame.stream_id, frame }
        } else {
            MuxAction::Discard
        }
    }

    /// One turn of the supervisor on the side that originates streams.
    ///
    /// A local connection gets the lowest free id, or is refused when none is
    /// left. A frame from a pump goes to the wire; when it closes a stream,
    /// that stream leaves the table. A frame from the wire goes to the mailbox
    /// of its stream, and is dropped when that stream is not open; when it
    /// closes the stream, the stream leaves the table. A request of the peer
    /// to open a stream is dropped. When the wire has ended every stream
    /// leaves the table, and the supervisor is told to leave.
    pub fn consume_connections(&mut self, event: ConsumerEvent<M>) -> (action: MuxAction<M>)
        requires
            old(self).wf(),
        ensures
            final(self).wf(),
            match event {
                ConsumerEvent::Connect(mailbox) => match next_free(old(self).streams()) {
                    Some(id) => {
                        &&& action == MuxAction::<M>::Start { id }
                        &&& final(self)@ == old(self)@.insert(id, mailbox)
                    },
                    None => action == MuxAction::<M>::Refuse && final(self)@ == old(self)@,
                },
                ConsumerEvent::Outgoing(frame) => {
                    &&& action == MuxAction::<M>::Send(frame)
                    &&& final(self)@ == after_frame(old(self)@, frame@)
                },
                ConsumerEvent::Incoming(frame) => {
                    &&& final(self)@ == after_frame(old(self)@, frame@)
                    &&& action == routed(old(self)@, frame)
                },
                ConsumerEvent::WireClosed => {
                    &&& action == MuxAction::<M>::Leave
                    &&& final(self)@ == Map::<u8, M>::empty()
                },
            },
    {
        match event {
            ConsumerEvent::Connect(mailbox) => match self.accept_connection(mailbox) {
                Some(id) => MuxAction::Start { id },
                None => MuxAction::Refuse,
            },
            ConsumerEvent::Outgoing(frame) => self.pass_to_wire(frame),
            ConsumerEvent::Incoming(frame) => {
                if frame.stream_id == OPEN_ID {
                    MuxAction::Discard
                } else {
                    self.route(frame)
                }
            },
            ConsumerEvent::WireClosed => {
                self.release_all();
                MuxAction::Leave
            },
        }
    }

    /// One turn of the supervisor on the side that listens for streams.
    ///
    /// Frames from pumps and from the wire are handled as on the other side,
    /// but for a request of the peer to open a stream: it is answered with
    /// `Open`, and the caller comes back with the mailbox. The stream is then
    /// entered under the proposed id. When that id is in use, the request is
    /// turned down with a closing frame for the id; when it names no stream,
    /// the request is dropped. When the wire has ended every stream leaves
    /// the table, and the supervisor is told to leave.
    pub fn produce_connections(&mut self, event: ProducerEvent<M>) -> (action: MuxAction<M>)
        requires
            old(self).wf(),
        ensures
            final(self).wf(),
            match event {
                ProducerEvent::Outgoing(frame) => {
                    &&& action == MuxAction::<M>::Send(frame)
                    &&& final(self)@ == after_frame(old(self)@, frame@)
                },
                ProducerEvent::Incoming(frame) => if frame@.is_open() {
                    &&& final(self)@ == old(self)@
                    &&& action == match named_stream(frame@) {
                        Some(id) => MuxAction::<M>::Open { id },
                        None => MuxAction::<M>::Discard,
                    }
                } else {
                    &&& final(self)@ == after_frame(old(self)@, frame@)
                    &&& action == routed(old(self)@, frame)
                },
                ProducerEvent::Opened { id, mailbox } => if !is_stream_id(id) {
                    action == MuxAction::<M>::Discard && final(self)@ == old(self)@
                } else if old(self)@.contains_key(id) {
                    &&& action is Send
                    &&& action->Send_0@ == (FrameView { stream_id: CLOSE_ID, payload: seq![id] })
                    &&& final(self)@ == old(self)@
                } else {
                    &&& action == MuxAction::<M>::Start { id }
                    &&& final(self)@ == old(self)@.insert(id, mailbox)
                },
                ProducerEvent::WireClosed => {
                    &&& action == MuxAction::<M>::Leave
                    &&& final(self)@ == Map::<u8, M>::empty()
                },
            },
    {
        match event {
            ProducerEvent::Outgoing(frame) => self.pass_to_wire(frame),
            ProducerEvent::Incoming(frame) => {
                if frame.stream_id == OPEN_ID {
                    if frame.bytes.len() > 0 {
                        MuxAction::Open { id: frame.bytes[0] }
                    } else {
                        MuxAction::Discard
                    }
                } else {
                    self.route(frame)
                }
            },
            ProducerEvent::Opened { id, mailbox } => match self.create_connection(id, mailbox) {
                Ok(()) => MuxAction::Start { id },
                Err(OpenError::InUse) => MuxAction::Send(MuxFrame::close(id)),
                Err(OpenError::Reserved) => MuxAction::Discard,
            },
            ProducerEvent::WireClosed => {
                self.release_all();
                MuxAction::Leave
            },
        }
    }
}

} // verus!
