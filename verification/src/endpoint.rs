//! Endpoints: what is read from and written to.
//!
//! The endpoints themselves (sockets, pipes, remote processes) live outside
//! this crate. Here stand the decisions that are made about them: how the two
//! directions of a forwarded connection end together, how a copy proceeds, and
//! which commands are run at the far end.

pub mod docker;
pub mod kube;
pub mod socket;
pub mod stdio;

use crate::text::texts;
use vstd::prelude::*;
use vstd::string::StringExecFns;

verus! {

/// Where the agent is put inside a container or pod.
pub const AGENT_PATH: &'static str = "/tmp/rs-agent";

/// The file whose presence tells the agent to leave.
pub const AGENT_KILL_PATH: &'static str = "/tmp/rs-agent.kill";

/// How long the agent waits between two looks for the file that tells it to
/// leave, in milliseconds.
pub const KILL_POLL_MILLIS: u64 = 1000;

/// How long the error output of a remote archive command is watched before
/// the copy begins, in milliseconds.
pub const PRECHECK_MILLIS: u64 = 1000;

/// Bytes that a copy moves at a time.
pub const COPY_CHUNK: usize = 10240;

/// Reports of progress that may wait to be taken.
pub const PROGRESS_CAPACITY: usize = 100;

/// Where files are copied from: a reader, and the number of bytes that it
/// will yield.
pub struct PipeCopySource<R> {
    size: u64,
    reader: R,
}

/// Where files are copied to: a writer.
pub struct PipeCopyDestination<W> {
    writer: W,
}

impl<W> PipeCopyDestination<W> {
    /// The writer of the destination.
    pub closed spec fn writer(&self) -> W {
        self.writer
    }

    /// A destination that writes to `writer`.
    pub fn new(writer: W) -> (dst: Self)
        ensures
            dst.writer() == writer,
    {
        PipeCopyDestination { writer }
    }

    /// Hands out the writer.
    pub fn into_writer(self) -> (writer: W)
        ensures
            writer == self.writer(),
    {
        self.writer
    }
}

impl<R> PipeCopySource<R> {
    /// The number of bytes that the source will yield.
    pub closed spec fn size(&self) -> u64 {
        self.size
    }

    /// The reader of the source.
    pub closed spec fn reader(&self) -> R {
        self.reader
    }

    /// A source of `size` bytes that are read from `reader`.
    pub fn new(size: u64, reader: R) -> (src: Self)
        ensures
            src.size() == size,
            src.reader() == reader,
    {
        PipeCopySource { size, reader }
    }

    /// The number of bytes that the source will yield.
    pub fn get_size(&self) -> (size: u64)
        ensures
            size == self.size(),
    {
        self.size
    }

    /// Hands out the reader.
    pub fn into_reader(self) -> (reader: R)
        ensures
            reader == self.reader(),
    {
        self.reader
    }
}

/// How far a copy has come.
#[derive(Debug, Clone, Copy, PartialEq, Eq, Structural)]
pub enum CopyState {
    /// The next chunk is being read.
    Reading,
    /// A chunk of this many bytes is being written.
    Writing(usize),
    /// The copy is over.
    Done,
}

/// What a copy is told.
pub enum CopyEvent {
    /// These bytes were read. None mean that the source is at its end.
    Read(Vec<u8>),
    /// The read failed.
    ReadFailed,
    /// The chunk was written in full.
    Written,
    /// The write failed.
    WriteFailed,
}

/// What a copy asks for.
pub enum CopyAction {
    /// Write these bytes, the chunk that was read.
    Write(Vec<u8>),
    /// Report this many bytes as copied, then read the next chunk.
    Report(usize),
    /// Stop.
    Stop,
}

/// The state of a copy after `event`.
pub open spec fn copy_next(state: CopyState, event: CopyEvent) -> CopyState {
    match (state, event) {
        (CopyState::Reading, CopyEvent::Read(bytes)) => if bytes@.len() > 0 {
            CopyState::Writing(bytes@.len() as usize)
        } else {
            CopyState::Done
        },
        (CopyState::Writing(_), CopyEvent::Written) => CopyState::Reading,
        _ => CopyState::Done,
    }
}

/// What a copy asks for on `event`: a chunk that was read is written as it
/// is, and a chunk that was written is reported with its length.
pub open spec fn copy_action(state: CopyState, event: CopyEvent) -> CopyAction {
    match (state, event) {
        (CopyState::Reading, CopyEvent::Read(bytes)) => if bytes@.len() > 0 {
            CopyAction::Write(bytes)
        } else {
            CopyAction::Stop
        },
        (CopyState::Writing(n), CopyEvent::Written) => CopyAction::Report(n),
        _ => CopyAction::Stop,
    }
}

/// The bytes that an action reports as copied.
pub open spec fn reported(action: CopyAction) -> nat {
    match action {
        CopyAction::Report(n) => n as nat,
        _ => 0,
    }
}

/// The bytes that an action hands to the destination.
pub open spec fn handed_on(action: CopyAction) -> Seq<u8> {
    match action {
        CopyAction::Write(bytes) => bytes@,
        _ => Seq::empty(),
    }
}

/// The sum of two counts, held at the largest value where it would go past.
pub open spec fn capped_sum(total: u64, more: nat) -> u64 {
    if total + more <= u64::MAX {
        (total + more) as u64
    } else {
        u64::MAX
    }
}

/// The events of a copy that reads `chunks` one after the other, writes each
/// in full, and then reads `last`, which holds nothing where the source is at
/// its end.
pub open spec fn copy_events(chunks: Seq<Vec<u8>>, last: Vec<u8>) -> Seq<CopyEvent>
    decreases chunks.len(),
{
    if chunks.len() == 0 {
        seq![CopyEvent::Read(last)]
    } else {
        seq![CopyEvent::Read(chunks[0]), CopyEvent::Written] + copy_events(
            chunks.drop_first(),
            last,
        )
    }
}

/// The bytes of `chunks`, one chunk after the other.
pub open spec fn chunk_bytes(chunks: Seq<Vec<u8>>) -> Seq<u8>
    decreases chunks.len(),
{
    if chunks.len() == 0 {
        Seq::empty()
    } else {
        chunks[0]@ + chunk_bytes(chunks.drop_first())
    }
}

/// The lengths of `chunks`, in order.
pub open spec fn chunk_lengths(chunks: Seq<Vec<u8>>) -> Seq<nat> {
    chunks.map_values(|chunk: Vec<u8>| chunk@.len())
}

/// The reports of a copy that is told `events` in order, starting in `state`.
pub open spec fn copy_reports(state: CopyState, events: Seq<CopyEvent>) -> Seq<nat>
    decreases events.len(),
{
    if events.len() == 0 {
        Seq::empty()
    } else {
        let later = copy_reports(copy_next(state, events[0]), events.drop_first());
        match copy_action(state, events[0]) {
            CopyAction::Report(n) => seq![n as nat] + later,
            _ => later,
        }
    }
}

/// All bytes that a copy hands to the destination when it is told `events` in
/// order, starting in `state`.
pub open spec fn copy_writes(state: CopyState, events: Seq<CopyEvent>) -> Seq<u8>
    decreases events.len(),
{
    if events.len() == 0 {
        Seq::empty()
    } else {
        handed_on(copy_action(state, events[0])) + copy_writes(
            copy_next(state, events[0]),
            events.drop_first(),
        )
    }
}

/// A copy that meets no failure writes what the source held, byte for byte
/// and in order, and reports every chunk that it read, once and in order, so
/// its reports add up to what the source held. No report is larger than the
/// chunk that was read.
pub proof fn lemma_copy_moves_every_chunk(chunks: Seq<Vec<u8>>, last: Vec<u8>)
    requires
        forall|i: int| 0 <= i < chunks.len() ==> (#[trigger] chunks[i])@.len() > 0,
        last@.len() == 0,
    ensures
        copy_writes(CopyState::Reading, copy_events(chunks, last)) == chunk_bytes(chunks),
        copy_reports(CopyState::Reading, copy_events(chunks, last)) == chunk_lengths(chunks),
    decreases chunks.len(),
{
    let events = copy_events(chunks, last);
    if chunks.len() == 0 {
        assert(events.drop_first() =~= Seq::<CopyEvent>::empty());
        assert(copy_reports(CopyState::Done, events.drop_first()) =~= Seq::<nat>::empty());
        assert(copy_writes(CopyState::Done, events.drop_first()) =~= Seq::<u8>::empty());
        assert(copy_writes(CopyState::Reading, events) =~= Seq::<u8>::empty());
        assert(chunk_lengths(chunks) =~= Seq::<nat>::empty());
    } else {
        let rest = chunks.drop_first();
        assert forall|i: int| 0 <= i < rest.len() implies (#[trigger] rest[i])@.len() > 0 by {
            assert(rest[i] == chunks[i + 1]);
        }
        lemma_copy_moves_every_chunk(rest, last);
        let length = chunks[0]@.len();
        let writing = CopyState::Writing(length as usize);
        assert(length == chunks[0].len());
        assert(events[0] == CopyEvent::Read(chunks[0]));
        assert(events.drop_first()[0] == CopyEvent::Written);
        assert(events.drop_first().drop_first() =~= copy_events(rest, last));
        assert(copy_reports(writing, events.drop_first()) =~= seq![length] + copy_reports(
            CopyState::Reading,
            copy_events(rest, last),
        ));
        assert(copy_writes(writing, events.drop_first()) =~= copy_writes(
            CopyState::Reading,
            copy_events(rest, last),
        ));
        assert(chunk_lengths(chunks) =~= seq![length] + chunk_lengths(rest));
    }
}

/// The pump that copies from a source to a destination, chunk by chunk.
pub struct CopyPump {
    state: CopyState,
    copied: u64,
}

impl CopyPump {
    /// How far the copy has come.
    pub closed spec fn state(&self) -> CopyState {
        self.state
    }

    /// The bytes that were reported as copied so far.
    pub closed spec fn copied(&self) -> u64 {
        self.copied
    }

    /// A copy that has moved nothing yet and is about to read.
    pub fn new() -> (pump: CopyPump)
        ensures
            pump.state() == CopyState::Reading,
            pump.copied() == 0,
    {
        CopyPump { state: CopyState::Reading, copied: 0 }
    }

    /// The bytes that were reported as copied so far.
    pub fn total(&self) -> (total: u64)
        ensures
            total == self.copied(),
    {
        self.copied
    }

    /// One turn of the copy.
    ///
    /// A chunk that was read is written as it is, and once it is written in
    /// full its length is reported. The copy stops at the end of the source
    /// and on any failure. The running total never goes down.
    pub fn pipe_copy(&mut self, event: CopyEvent) -> (action: CopyAction)
        ensures
            final(self).state() == copy_next(old(self).state(), event),
            action == copy_action(old(self).state(), event),
            final(self).copied() == capped_sum(old(self).copied(), reported(action)),
            final(self).copied() >= old(self).copied(),
    {
        match (self.state, event) {
            (CopyState::Reading, CopyEvent::Read(bytes)) => {
                if bytes.len() > 0 {
                    self.state = CopyState::Writing(bytes.len());
                    CopyAction::Write(bytes)
                } else {
                    self.state = CopyState::Done;
                    CopyAction::Stop
                }
            },
            (CopyState::Writing(n), CopyEvent::Written) => {
                self.state = CopyState::Reading;
                let room: u64 = u64::MAX - self.copied;
                if n as u64 <= room {
                    self.copied = self.copied + n as u64;
                } else {
                    self.copied = u64::MAX;
                }
                CopyAction::Report(n)
            },
            _ => {
                self.state = CopyState::Done;
                CopyAction::Stop
            },
        }
    }
}

/// One of the two directions of a forwarded connection.
#[derive(Debug, Clone, Copy, PartialEq, Eq, Structural)]
pub enum Way {
    /// From the origin to the destination.
    There,
    /// From the destination to the origin.
    Back,
}

/// How far one direction has come.
#[derive(Debug, Clone, Copy, PartialEq, Eq, Structural)]
pub enum WayState {
    /// Bytes are copied.
    Copying,
    /// The direction was told to stop and has not done so yet.
    Stopping,
    /// The direction is over. It counts this many bytes.
    Ended(u64),
}

/// What the coupling of two directions is told.
#[derive(Debug, Clone, Copy, PartialEq, Eq, Structural)]
pub enum CoupleEvent {
    /// The copy of a direction came to the end of its source after it had
    /// moved this many bytes.
    Copied { way: Way, bytes: u64 },
    /// The copy of a direction failed after it had moved this many bytes.
    Failed { way: Way, bytes: u64 },
    /// A direction has stopped without finishing its copy, because it was
    /// told to or its task was lost, after it had moved this many bytes.
    Stopped { way: Way, bytes: u64 },
}

/// What the coupling asks for.
#[derive(Debug, Clone, Copy, PartialEq, Eq, Structural)]
pub enum CoupleAction {
    /// Tell this direction to stop.
    Stop(Way),
    /// Both directions are over: the connection counts this many bytes.
    Return(u64),
    /// Nothing is to be done.
    Wait,
}

/// The other direction.
pub open spec fn opposite(way: Way) -> Way {
    match way {
        Way::There => Way::Back,
        Way::Back => Way::There,
    }
}

/// The bytes that a direction counts once it is over: what it has moved,
/// however it came to its end.
pub open spec fn counted(event: CoupleEvent) -> u64 {
    match event {
        CoupleEvent::Copied { bytes, .. } => bytes,
        CoupleEvent::Failed { bytes, .. } => bytes,
        CoupleEvent::Stopped { bytes, .. } => bytes,
    }
}

/// The direction that an event is about.
pub open spec fn way_of(event: CoupleEvent) -> Way {
    match event {
        CoupleEvent::Copied { way, .. } => way,
        CoupleEvent::Failed { way, .. } => way,
        CoupleEvent::Stopped { way, .. } => way,
    }
}

/// The larger of two counts.
pub open spec fn larger(a: u64, b: u64) -> u64 {
    if a > b {
        a
    } else {
        b
    }
}

/// How far the two directions of a connection have come.
pub ghost struct CouplingView {
    pub there: WayState,
    pub back: WayState,
}

impl CouplingView {
    /// How far a direction has come.
    pub open spec fn state(self, way: Way) -> WayState {
        match way {
            Way::There => self.there,
            Way::Back => self.back,
        }
    }

    /// The same, but for one direction.
    pub open spec fn with(self, way: Way, state: WayState) -> CouplingView {
        match way {
            Way::There => CouplingView { there: state, ..self },
            Way::Back => CouplingView { back: state, ..self },
        }
    }

    /// No direction goes on copying undisturbed while the other is over.
    pub open spec fn coupled(self) -> bool {
        &&& self.there is Ended ==> self.back != WayState::Copying
        &&& self.back is Ended ==> self.there != WayState::Copying
    }
}

/// A connection with both directions copying.
pub open spec fn fresh_coupling() -> CouplingView {
    CouplingView { there: WayState::Copying, back: WayState::Copying }
}

/// The two directions after `event`. The direction of the event is over, with
/// what it counts; the other is told to stop unless it is over too. An event
/// about a direction that is over already changes nothing.
pub open spec fn couple_next(pair: CouplingView, event: CoupleEvent) -> CouplingView {
    let way = way_of(event);
    let other = opposite(way);
    if pair.state(way) is Ended {
        pair
    } else if pair.state(other) is Ended {
        pair.with(way, WayState::Ended(counted(event)))
    } else {
        pair.with(way, WayState::Ended(counted(event))).with(other, WayState::Stopping)
    }
}

/// What the coupling asks for on `event`. With both directions over the
/// connection counts the larger of what the two have moved.
pub open spec fn couple_action(pair: CouplingView, event: CoupleEvent) -> CoupleAction {
    let way = way_of(event);
    let other = opposite(way);
    if pair.state(way) is Ended {
        CoupleAction::Wait
    } else {
        match pair.state(other) {
            WayState::Ended(n) => CoupleAction::Return(larger(counted(event), n)),
            _ => CoupleAction::Stop(other),
        }
    }
}

/// The two directions stay coupled whatever happens.
pub proof fn lemma_stays_coupled(pair: CouplingView, event: CoupleEvent)
    requires
        pair.coupled(),
    ensures
        couple_next(pair, event).coupled(),
{
}

/// The end of one direction ends the other: as soon as a direction of a fresh
/// connection is over, the other is told to stop, and once that one reports,
/// in whatever way, the connection is over and counts the larger of what the
/// two directions have moved. What the first direction reports in between
/// changes nothing.
pub proof fn lemma_coupled_termination(first: CoupleEvent, again: CoupleEvent, last: CoupleEvent)
    requires
        way_of(again) == way_of(first),
        way_of(last) == opposite(way_of(first)),
    ensures
        couple_action(fresh_coupling(), first) == CoupleAction::Stop(way_of(last)),
        couple_next(fresh_coupling(), first).state(way_of(last)) == WayState::Stopping,
        couple_next(couple_next(fresh_coupling(), first), again) == couple_next(
            fresh_coupling(),
            first,
        ),
        couple_action(couple_next(fresh_coupling(), first), last) == CoupleAction::Return(
            larger(counted(last), counted(first)),
        ),
{
}

/// The two directions of a forwarded connection, which end together.
pub struct Coupling {
    there: WayState,
    back: WayState,
}

impl View for Coupling {
    type V = CouplingView;

    closed spec fn view(&self) -> CouplingView {
        CouplingView { there: self.there, back: self.back }
    }
}

impl Coupling {
    /// A connection with both directions copying.
    pub fn new() -> (pair: Coupling)
        ensures
            pair@ == fresh_coupling(),
    {
        Coupling { there: WayState::Copying, back: WayState::Copying }
    }

    /// One turn of the coupling.
    ///
    /// When a direction is over, by the end of its copy, by a failure or by a
    /// stop, the other direction is told to stop unless it is over too. When
    /// both are over the connection counts the larger of what the two have
    /// moved, whichever way each came to its end. An event about a direction
    /// that is over already changes nothing.
    pub fn connect(&mut self, event: CoupleEvent) -> (action: CoupleAction)
        ensures
            final(self)@ == couple_next(old(self)@, event),
            action == couple_action(old(self)@, event),
            old(self)@.coupled() ==> final(self)@.coupled(),
    {
        let (way, count) = match event {
            CoupleEvent::Copied { way, bytes } => (way, bytes),
            CoupleEvent::Failed { way, bytes } => (way, bytes),
            CoupleEvent::Stopped { way, bytes } => (way, bytes),
        };
        let (mine, theirs) = match way {
            Way::There => (self.there, self.back),
            Way::Back => (self.back, self.there),
        };
        if let WayState::Ended(_) = mine {
            return CoupleAction::Wait;
        }
        let (theirs_next, action) = match theirs {
            WayState::Ended(n) => (
                theirs,
                CoupleAction::Return(
                    if count > n {
                        count
                    } else {
                        n
                    },
                ),
            ),
            _ => (
                WayState::Stopping,
                CoupleAction::Stop(
                    match way {
                        Way::There => Way::Back,
                        Way::Back => Way::There,
                    },
                ),
            ),
        };
        match way {
            Way::There => {
                self.there = WayState::Ended(count);
                self.back = theirs_next;
            },
            Way::Back => {
                self.back = WayState::Ended(count);
                self.there = theirs_next;
            },
        }
        action
    }
}

/// The words of the command that packs `target` in `dir` and writes the
/// archive to its standard output.
pub open spec fn pack_words(dir: Seq<char>, target: Seq<char>) -> Seq<Seq<char>> {
    seq!["tar"@, "cf"@, "-"@, "-C"@, dir, target]
}

/// The words of the command that counts the bytes of that archive.
pub open spec fn size_words(dir: Seq<char>, target: Seq<char>) -> Seq<Seq<char>> {
    seq!["sh"@, "-c"@, "tar cf - -C "@ + dir + " "@ + target + " | wc -c"@]
}

/// The words of the command that unpacks an archive from its standard input
/// into `path`.
pub open spec fn unpack_words(path: Seq<char>) -> Seq<Seq<char>> {
    seq!["tar"@, "xf"@, "-"@, "-C"@, path]
}

/// The words of the command that lists `path`, with `flags` behind it.
pub open spec fn ls_words(path: Seq<char>, flags: Seq<Seq<char>>) -> Seq<Seq<char>> {
    seq!["ls"@, path] + flags
}

/// The command that packs `target` in `dir`.
pub fn pack_command(dir: &str, target: &str) -> (cmd: Vec<String>)
    ensures
        texts(cmd@) == pack_words(dir@, target@),
{
    let mut cmd: Vec<String> = Vec::new();
    cmd.push("tar".to_owned());
    cmd.push("cf".to_owned());
    cmd.push("-".to_owned());
    cmd.push("-C".to_owned());
    cmd.push(dir.to_owned());
    cmd.push(target.to_owned());
    assert(texts(cmd@) =~= pack_words(dir@, target@));
    cmd
}

/// The command that counts the bytes of the archive of `target` in `dir`.
pub fn size_command(dir: &str, target: &str) -> (cmd: Vec<String>)
    ensures
        texts(cmd@) == size_words(dir@, target@),
{
    let mut line = String::from_str("tar cf - -C ");
    line.append(dir);
    line.append(" ");
    line.append(target);
    line.append(" | wc -c");
    let mut cmd: Vec<String> = Vec::new();
    cmd.push("sh".to_owned());
    cmd.push("-c".to_owned());
    cmd.push(line);
    assert(texts(cmd@) =~= size_words(dir@, target@));
    cmd
}

/// The command that unpacks an archive into `path`.
pub fn unpack_command(path: &str) -> (cmd: Vec<String>)
    ensures
        texts(cmd@) == unpack_words(path@),
{
    let mut cmd: Vec<String> = Vec::new();
    cmd.push("tar".to_owned());
    cmd.push("xf".to_owned());
    cmd.push("-".to_owned());
    cmd.push("-C".to_owned());
    cmd.push(path.to_owned());
    assert(texts(cmd@) =~= unpack_words(path@));
    cmd
}

/// The command that lists `path`.
pub fn ls_command(path: &str, flags: Vec<String>) -> (cmd: Vec<String>)
    ensures
        texts(cmd@) == ls_words(path@, texts(flags@)),
{
    let mut cmd: Vec<String> = Vec::new();
    cmd.push("ls".to_owned());
    cmd.push(path.to_owned());
    let mut flags = flags;
    let ghost given = flags@;
    cmd.append(&mut flags);
    assert(texts(cmd@) =~= ls_words(path@, texts(given)));
    cmd
}

/// The command that writes its standard input to the place of the agent.
pub fn upload_command() -> (cmd: Vec<String>)
    ensures
        texts(cmd@) == seq!["dd"@, "of="@ + AGENT_PATH@],
{
    let mut target = String::from_str("of=");
    target.append(AGENT_PATH);
    let mut cmd: Vec<String> = Vec::new();
    cmd.push("dd".to_owned());
    cmd.push(target);
    assert(texts(cmd@) =~= seq!["dd"@, "of="@ + AGENT_PATH@]);
    cmd
}

/// The command that lets the agent be run.
pub fn chmod_command() -> (cmd: Vec<String>)
    ensures
        texts(cmd@) == seq!["chmod"@, "+x"@, AGENT_PATH@],
{
    let mut cmd: Vec<String> = Vec::new();
    cmd.push("chmod".to_owned());
    cmd.push("+x".to_owned());
    cmd.push(AGENT_PATH.to_owned());
    assert(texts(cmd@) =~= seq!["chmod"@, "+x"@, AGENT_PATH@]);
    cmd
}

/// The command that tells the agent to leave.
pub fn kill_command() -> (cmd: Vec<String>)
    ensures
        texts(cmd@) == seq!["touch"@, AGENT_KILL_PATH@],
{
    let mut cmd: Vec<String> = Vec::new();
    cmd.push("touch".to_owned());
    cmd.push(AGENT_KILL_PATH.to_owned());
    assert(texts(cmd@) =~= seq!["touch"@, AGENT_KILL_PATH@]);
    cmd
}

} // verus!
