//! One transmission of a payload to the collector, as a state machine.
//!
//! The machine decides; its driver performs. The driver carries out the
//! [`Action`] that a [`Reply`] names (connect, post, submit, read) and reports
//! how it went as the next [`Event`]. No stage is retried: a failure ends the
//! transmission in a phase that names the stage.

use crate::decode::{
    carried_after, joined, lemma_chunking_is_invisible, text_across, DecodeCursor, CHUNK_CAPACITY,
};
use crate::text::{remainder_of, text_of};
use vstd::utf8::{decode_utf8, valid_utf8};
use vstd::prelude::*;

verus! {

/// Where the payload is posted.
pub const ENDPOINT: &'static str = "https://sensors.javapl.us/sensors/api/v1/sensor";

/// Name of the one request header.
pub const ACCEPT_HEADER: &'static str = "accept";

/// Value of the one request header.
pub const ACCEPT_VALUE: &'static str = "application/json";

/// True exactly for the status codes that count as an accepted delivery.
pub open spec fn status_accepted(status: u16) -> bool {
    200 <= status < 300
}

/// Decides whether a response status allows the body to be read.
pub fn is_accepted(status: u16) -> (accepted: bool)
    ensures
        accepted == status_accepted(status),
{
    200 <= status && status < 300
}

/// A stage of the exchange that can fail on its own.
#[derive(Clone, Copy, Debug, PartialEq, Eq, Structural)]
pub enum Stage {
    Connect,
    Write,
    Submit,
}

/// Why a transmission did not deliver.
#[derive(Clone, Copy, Debug, PartialEq, Eq, Structural)]
pub enum UplinkError {
    Connect,
    Write,
    Submit,
    UnexpectedStatus(u16),
}

/// The error that a failure at `stage` is reported as.
pub open spec fn stage_error(stage: Stage) -> UplinkError {
    match stage {
        Stage::Connect => UplinkError::Connect,
        Stage::Write => UplinkError::Write,
        Stage::Submit => UplinkError::Submit,
    }
}

/// How a finished transmission ended.
#[derive(Debug, PartialEq, Eq)]
pub enum TransmissionOutcome {
    Success { status: u16, location: Option<String>, body_byte_count: usize },
    Failure { reason: UplinkError },
}

/// Where a transmission stands.
#[derive(Clone, Copy, Debug, PartialEq, Eq, Structural)]
pub enum Phase {
    Idle,
    Connecting,
    Requesting,
    AwaitingResponse,
    StreamingBody,
    Done,
    Rejected(u16),
    Failed(Stage),
}

/// What the driver reports back.
#[derive(Debug)]
pub enum Event<'a> {
    /// A transmission is asked for.
    Start,
    Connected,
    ConnectFailed,
    BodyWritten,
    /// The request could not be opened, or its body not written.
    WriteFailed,
    /// The request was submitted and a response head received.
    Responded { status: u16, location: Option<String> },
    SubmitFailed,
    /// One read of the response body returned these bytes; none means the
    /// body has ended.
    ChunkRead(&'a [u8]),
    /// One read of the response body failed; the read is asked for again.
    ReadFailed,
}

/// What the driver is to do next.
#[derive(Clone, Copy, Debug, PartialEq, Eq)]
pub enum Action {
    /// Open a TLS connection, verified against the platform's trust store.
    Connect,
    /// Open a POST request to `url` with the one header [`ACCEPT_HEADER`] set
    /// to `accept`, and write the payload as its body.
    Post { url: &'static str, accept: &'static str },
    /// Finalize the request and obtain the response head.
    Submit,
    /// Read at most `max_len` bytes of the response body.
    Read { max_len: usize },
    /// Nothing: the transmission has not started or is over.
    Halt,
}

/// A step's answer: the next action, and the text decoded by this step.
#[derive(Debug)]
pub struct Reply {
    pub action: Action,
    pub text: String,
}

/// The state of a transmission as contracts see it.
pub struct UplinkState {
    pub phase: Phase,
    pub status: u16,
    pub location: Option<Seq<char>>,
    /// Bytes of the response body read so far.
    pub total: nat,
    /// Bytes read that have not become text: as a rule, the start of a
    /// character that the last read cut short.
    pub carried: Seq<u8>,
}

impl UplinkState {
    /// Before anything was asked for.
    pub open spec fn idle() -> UplinkState {
        UplinkState {
            phase: Phase::Idle,
            status: 0,
            location: None,
            total: 0,
            carried: Seq::empty(),
        }
    }

    /// The same state in another phase.
    pub open spec fn moved_to(self, phase: Phase) -> UplinkState {
        UplinkState { phase, ..self }
    }

    /// True once no event can change the state any more.
    pub open spec fn is_terminal(self) -> bool {
        self.phase is Done || self.phase is Rejected || self.phase is Failed
    }

    /// Why the transmission did not deliver, if it has ended so.
    pub open spec fn error(self) -> Option<UplinkError> {
        match self.phase {
            Phase::Rejected(code) => Some(UplinkError::UnexpectedStatus(code)),
            Phase::Failed(stage) => Some(stage_error(stage)),
            _ => None,
        }
    }

    /// How far the exchange has come: each phase counts higher than those
    /// that lead to it, and the three ways to end count the same.
    pub open spec fn progress(self) -> nat {
        match self.phase {
            Phase::Idle => 0,
            Phase::Connecting => 1,
            Phase::Requesting => 2,
            Phase::AwaitingResponse => 3,
            Phase::StreamingBody => 4,
            _ => 5,
        }
    }

    /// Asked for while idle, a transmission starts by connecting.
    pub open spec fn after_start(self) -> UplinkState {
        if self.phase is Idle {
            self.moved_to(Phase::Connecting)
        } else {
            self
        }
    }

    /// Once connected the request follows; a failed connect ends the
    /// transmission.
    pub open spec fn after_connect(self, connected: bool) -> UplinkState {
        if self.phase is Connecting {
            self.moved_to(
                if connected {
                    Phase::Requesting
                } else {
                    Phase::Failed(Stage::Connect)
                },
            )
        } else {
            self
        }
    }

    /// Once the body is written the request is submitted; a failed write
    /// ends the transmission.
    pub open spec fn after_write(self, written: bool) -> UplinkState {
        if self.phase is Requesting {
            self.moved_to(
                if written {
                    Phase::AwaitingResponse
                } else {
                    Phase::Failed(Stage::Write)
                },
            )
        } else {
            self
        }
    }

    /// A request that cannot be submitted ends the transmission.
    pub open spec fn after_submit_failure(self) -> UplinkState {
        if self.phase is AwaitingResponse {
            self.moved_to(Phase::Failed(Stage::Submit))
        } else {
            self
        }
    }

    /// The status policy: an accepted status opens the body, any other ends
    /// the transmission.
    pub open spec fn after_response(self, status: u16, location: Option<Seq<char>>) -> UplinkState {
        if self.phase is AwaitingResponse {
            UplinkState {
                phase: if status_accepted(status) {
                    Phase::StreamingBody
                } else {
                    Phase::Rejected(status)
                },
                status,
                location,
                ..self
            }
        } else {
            self
        }
    }

    /// One read of the body: an empty read ends it and drops what was
    /// carried; any other is counted and decoded as far as it goes.
    pub open spec fn after_chunk(self, bytes: Seq<u8>) -> UplinkState {
        if self.phase is StreamingBody {
            if bytes.len() == 0 {
                UplinkState { phase: Phase::Done, carried: Seq::empty(), ..self }
            } else {
                UplinkState {
                    total: self.total + bytes.len(),
                    carried: remainder_of(self.carried + bytes),
                    ..self
                }
            }
        } else {
            self
        }
    }

    /// The text that one read of the body makes available.
    pub open spec fn text_from_chunk(self, bytes: Seq<u8>) -> Seq<char> {
        if self.phase is StreamingBody && bytes.len() > 0 {
            text_of(self.carried + bytes)
        } else {
            Seq::empty()
        }
    }

    /// The state after the reads of the body that returned `chunks`, in order.
    pub open spec fn after_chunks(self, chunks: Seq<Seq<u8>>) -> UplinkState
        decreases chunks.len(),
    {
        if chunks.len() == 0 {
            self
        } else {
            self.after_chunks(chunks.drop_last()).after_chunk(chunks.last())
        }
    }

    /// All the text that the reads which returned `chunks` made available.
    pub open spec fn text_from_chunks(self, chunks: Seq<Seq<u8>>) -> Seq<char>
        decreases chunks.len(),
    {
        if chunks.len() == 0 {
            Seq::empty()
        } else {
            self.text_from_chunks(chunks.drop_last()) + self.after_chunks(
                chunks.drop_last(),
            ).text_from_chunk(chunks.last())
        }
    }

    /// The state that `event` leads to. An event that the phase does not
    /// await changes nothing.
    pub open spec fn after(self, event: Event) -> UplinkState {
        match event {
            Event::Start => self.after_start(),
            Event::Connected => self.after_connect(true),
            Event::ConnectFailed => self.after_connect(false),
            Event::BodyWritten => self.after_write(true),
            Event::WriteFailed => self.after_write(false),
            Event::Responded { status, location } => self.after_response(
                status,
                location.deep_view(),
            ),
            Event::SubmitFailed => self.after_submit_failure(),
            Event::ChunkRead(bytes) => self.after_chunk(bytes@),
            Event::ReadFailed => self,
        }
    }

    /// The text that `event` makes available.
    pub open spec fn emitted(self, event: Event) -> Seq<char> {
        match event {
            Event::ChunkRead(bytes) => self.text_from_chunk(bytes@),
            _ => Seq::empty(),
        }
    }

    /// The action that the driver is to perform in this state.
    pub open spec fn awaited(self) -> Action {
        match self.phase {
            Phase::Connecting => Action::Connect,
            Phase::Requesting => Action::Post { url: ENDPOINT, accept: ACCEPT_VALUE },
            Phase::AwaitingResponse => Action::Submit,
            Phase::StreamingBody => Action::Read {
                max_len: (CHUNK_CAPACITY - self.carried.len()) as usize,
            },
            _ => Action::Halt,
        }
    }

    /// True where what is carried fits the read buffer, as it does in every
    /// state that a transmission reaches.
    pub open spec fn fits_buffer(self) -> bool {
        self.carried.len() <= CHUNK_CAPACITY
    }

    /// True where `event` can be taken in this state: a read must fit the
    /// space that was offered, and the byte count must stay representable.
    pub open spec fn admits(self, event: Event) -> bool {
        match event {
            Event::ChunkRead(bytes) => self.phase is StreamingBody ==> {
                &&& self.carried.len() + bytes@.len() <= CHUNK_CAPACITY
                &&& self.total + bytes@.len() <= usize::MAX
            },
            _ => true,
        }
    }
}

/// The state that a run of events leads to.
pub open spec fn after_all(state: UplinkState, events: Seq<Event>) -> UplinkState
    decreases events.len(),
{
    if events.len() == 0 {
        state
    } else {
        after_all(state, events.drop_last()).after(events.last())
    }
}

/// The status policy. A response with a status from 200 up to, not
/// including, 300 opens the body for reading; with any other status the
/// transmission is over, rejected with that status.
pub proof fn lemma_status_policy(state: UplinkState, status: u16, location: Option<Seq<char>>)
    requires
        state.phase is AwaitingResponse,
    ensures
        200 <= status < 300 ==> {
            &&& state.after_response(status, location).phase == Phase::StreamingBody
            &&& state.after_response(status, location).awaited() is Read
        },
        !(200 <= status < 300) ==> {
            &&& state.after_response(status, location).phase == Phase::Rejected(status)
            &&& state.after_response(status, location).awaited() == Action::Halt
            &&& state.after_response(status, location).error() == Some(
                UplinkError::UnexpectedStatus(status),
            )
        },
{
}

/// No stage is gone through twice: no report takes a transmission back to
/// a phase it has left, and a stage that fails ends the transmission with
/// the error of that stage.
pub proof fn lemma_no_stage_is_retried(state: UplinkState, event: Event)
    ensures
        state.after(event).progress() >= state.progress(),
        state.phase is Connecting && event is ConnectFailed ==> state.after(event).error() == Some(
            UplinkError::Connect,
        ),
        state.phase is Requesting && event is WriteFailed ==> state.after(event).error() == Some(
            UplinkError::Write,
        ),
        state.phase is AwaitingResponse && event is SubmitFailed ==> state.after(event).error()
            == Some(UplinkError::Submit),
{
}

/// A transmission that is done, rejected or failed stays as it is: whatever
/// is reported, the state does not change, no text comes out, and nothing is
/// asked of the driver.
pub proof fn lemma_terminal_absorbs(state: UplinkState, event: Event)
    requires
        state.is_terminal(),
    ensures
        state.after(event) == state,
        state.emitted(event) == Seq::<char>::empty(),
        state.awaited() == Action::Halt,
{
}

/// After a status outside the accepted range no read of the body is ever
/// asked for, whatever the driver reports from then on.
pub proof fn lemma_rejected_body_is_never_read(
    state: UplinkState,
    status: u16,
    location: Option<Seq<char>>,
    events: Seq<Event>,
)
    requires
        state.phase is AwaitingResponse,
        !status_accepted(status),
    ensures
        after_all(state.after_response(status, location), events).phase == Phase::Rejected(
            status,
        ),
        !(after_all(state.after_response(status, location), events).awaited() is Read),
    decreases events.len(),
{
    if events.len() > 0 {
        let rejected = state.after_response(status, location);
        lemma_rejected_body_is_never_read(state, status, location, events.drop_last());
        lemma_terminal_absorbs(after_all(rejected, events.drop_last()), events.last());
    }
}

/// A read that returns nothing ends the body even while bytes of a cut
/// character are carried: the transmission is done, those bytes are dropped
/// without becoming text, and the byte count stays at what was read.
pub proof fn lemma_empty_read_ends_body(state: UplinkState)
    requires
        state.phase is StreamingBody,
    ensures
        state.after_chunk(Seq::empty()).phase == Phase::Done,
        state.after_chunk(Seq::empty()).awaited() == Action::Halt,
        state.after_chunk(Seq::empty()).total == state.total,
        state.after_chunk(Seq::empty()).carried == Seq::<u8>::empty(),
        state.text_from_chunk(Seq::empty()) == Seq::<char>::empty(),
{
}

/// Every read either brings the count of bytes forward or ends the body: a
/// transmission cannot go on reading without getting anywhere.
pub proof fn lemma_read_counts_or_ends(state: UplinkState, bytes: Seq<u8>)
    requires
        state.phase is StreamingBody,
    ensures
        bytes.len() > 0 ==> state.after_chunk(bytes).total == state.total + bytes.len(),
        bytes.len() > 0 ==> state.after_chunk(bytes).phase == Phase::StreamingBody,
        bytes.len() == 0 ==> state.after_chunk(bytes).is_terminal(),
{
}

/// While the body is read, the byte count is the number of bytes that the
/// reads returned, and the text that came out is that of the longest
/// well-formed prefix of those bytes, however the reads cut them.
pub proof fn lemma_body_is_counted_and_decoded(start: UplinkState, chunks: Seq<Seq<u8>>)
    requires
        start.phase is StreamingBody,
        start.carried == Seq::<u8>::empty(),
        forall|i: int| 0 <= i < chunks.len() ==> (#[trigger] chunks[i]).len() > 0,
    ensures
        start.after_chunks(chunks).phase == Phase::StreamingBody,
        start.after_chunks(chunks).total == start.total + joined(chunks).len(),
        start.after_chunks(chunks).carried == remainder_of(joined(chunks)),
        start.text_from_chunks(chunks) == text_of(joined(chunks)),
{
    lemma_body_follows_cursor(start, chunks);
    lemma_chunking_is_invisible(chunks);
}

/// Well-formed text that arrives as two reads, cut at any byte offset, comes
/// out as the text of the whole, and nothing is left carried.
pub proof fn lemma_split_body_is_whole(start: UplinkState, body: Seq<u8>, at: int)
    requires
        start.phase is StreamingBody,
        start.carried == Seq::<u8>::empty(),
        valid_utf8(body),
        0 < at < body.len(),
    ensures
        ({
            let reads = seq![body.subrange(0, at), body.subrange(at, body.len() as int)];
            &&& start.text_from_chunks(reads) == decode_utf8(body)
            &&& start.after_chunks(reads).carried == Seq::<u8>::empty()
            &&& start.after_chunks(reads).total == start.total + body.len()
        }),
{
    let first = body.subrange(0, at);
    let second = body.subrange(at, body.len() as int);
    let reads = seq![first, second];
    assert(joined(reads) =~= body) by {
        reveal_with_fuel(joined, 3);
        assert(reads.drop_last() =~= seq![first]);
        assert(reads.drop_last().drop_last() =~= Seq::<Seq<u8>>::empty());
    }
    lemma_body_is_counted_and_decoded(start, reads);
    assert(body.subrange(0, body.len() as int) =~= body);
    assert(remainder_of(body) =~= Seq::<u8>::empty());
}

/// Reading the body read by read does to the count, the carried bytes and
/// the text what feeding a cursor chunk by chunk does.
proof fn lemma_body_follows_cursor(start: UplinkState, chunks: Seq<Seq<u8>>)
    requires
        start.phase is StreamingBody,
        forall|i: int| 0 <= i < chunks.len() ==> (#[trigger] chunks[i]).len() > 0,
    ensures
        start.after_chunks(chunks).phase == Phase::StreamingBody,
        start.after_chunks(chunks).total == start.total + joined(chunks).len(),
        start.after_chunks(chunks).carried == carried_after(start.carried, chunks),
        start.text_from_chunks(chunks) == text_across(start.carried, chunks),
    decreases chunks.len(),
{
    if chunks.len() > 0 {
        lemma_body_follows_cursor(start, chunks.drop_last());
        assert(chunks.last() == chunks[chunks.len() - 1]);
    }
}

/// One transmission in progress.
pub struct Uplink {
    phase: Phase,
    status: u16,
    location: Option<String>,
    total: usize,
    cursor: DecodeCursor,
}

impl View for Uplink {
    type V = UplinkState;

    closed spec fn view(&self) -> UplinkState {
        UplinkState {
            phase: self.phase,
            status: self.status,
            location: self.location.deep_view(),
            total: self.total as nat,
            carried: self.cursor@,
        }
    }
}

impl Uplink {
    /// A transmission that has not been asked for yet.
    pub fn new() -> (uplink: Self)
        ensures
            uplink@ == UplinkState::idle(),
    {
        Uplink {
            phase: Phase::Idle,
            status: 0,
            location: None,
            total: 0,
            cursor: DecodeCursor::new(),
        }
    }

    /// The phase the transmission is in.
    pub fn phase(&self) -> (phase: Phase)
        ensures
            phase == self@.phase,
    {
        self.phase
    }

    /// Bytes of the response body read so far.
    pub fn total(&self) -> (total: usize)
        ensures
            total == self@.total,
    {
        self.total
    }

    /// The action that the driver is to perform now.
    pub fn awaited(&self) -> (action: Action)
        ensures
            action == self@.awaited(),
            self@.fits_buffer(),
    {
        let space: usize = self.cursor.free_space();
        match self.phase {
            Phase::Connecting => Action::Connect,
            Phase::Requesting => Action::Post { url: ENDPOINT, accept: ACCEPT_VALUE },
            Phase::AwaitingResponse => Action::Submit,
            Phase::StreamingBody => Action::Read { max_len: space },
            _ => Action::Halt,
        }
    }

    /// Tells whether `event` can be taken now, see [`UplinkState::admits`].
    pub fn can_take(&self, event: &Event<'_>) -> (ok: bool)
        ensures
            ok == self@.admits(*event),
    {
        match event {
            Event::ChunkRead(bytes) => match self.phase {
                Phase::StreamingBody => bytes.len() <= self.cursor.free_space() && bytes.len()
                    <= usize::MAX - self.total,
                _ => true,
            },
            _ => true,
        }
    }

    /// Takes the driver's report and answers with the next action and the
    /// text that the report made available.
    pub fn step(&mut self, event: Event<'_>) -> (reply: Reply)
        requires
            old(self)@.admits(event),
        ensures
            final(self)@ == old(self)@.after(event),
            final(self)@.fits_buffer(),
            reply.action == final(self)@.awaited(),
            reply.text@ == old(self)@.emitted(event),
    {
        let mut text = String::new();
        match event {
            Event::Start => {
                if let Phase::Idle = self.phase {
                    self.phase = Phase::Connecting;
                }
            },
            Event::Connected => {
                if let Phase::Connecting = self.phase {
                    self.phase = Phase::Requesting;
                }
            },
            Event::ConnectFailed => {
                if let Phase::Connecting = self.phase {
                    self.phase = Phase::Failed(Stage::Connect);
                }
            },
            Event::BodyWritten => {
                if let Phase::Requesting = self.phase {
                    self.phase = Phase::AwaitingResponse;
                }
            },
            Event::WriteFailed => {
                if let Phase::Requesting = self.phase {
                    self.phase = Phase::Failed(Stage::Write);
                }
            },
            Event::Responded { status, location } => {
                if let Phase::AwaitingResponse = self.phase {
                    self.status = status;
                    self.location = location;
                    if is_accepted(status) {
                        self.phase = Phase::StreamingBody;
                    } else {
                        self.phase = Phase::Rejected(status);
                    }
                }
            },
            Event::SubmitFailed => {
                if let Phase::AwaitingResponse = self.phase {
                    self.phase = Phase::Failed(Stage::Submit);
                }
            },
            Event::ChunkRead(bytes) => {
                if let Phase::StreamingBody = self.phase {
                    if bytes.len() == 0 {
                        self.cursor = DecodeCursor::new();
                        self.phase = Phase::Done;
                    } else {
                        text = self.cursor.feed(bytes);
                        self.total = self.total + bytes.len();
                    }
                }
            },
            Event::ReadFailed => {},
        }
        let action = self.awaited();
        Reply { action, text }
    }

    /// How the transmission ended, once it has.
    pub fn outcome(&self) -> (outcome: Option<TransmissionOutcome>)
        ensures
            outcome is Some <==> self@.is_terminal(),
            self@.phase is Done ==> (outcome matches Some(
                TransmissionOutcome::Success { status, location, body_byte_count },
            ) && status == self@.status && location.deep_view() == self@.location
                && body_byte_count == self@.total),
            self@.error() matches Some(reason) ==> outcome == Some(
                TransmissionOutcome::Failure { reason },
            ),
    {
        match self.phase {
            Phase::Done => Some(
                TransmissionOutcome::Success {
                    status: self.status,
                    location: self.location.clone(),
                    body_byte_count: self.total,
                },
            ),
            Phase::Rejected(code) => Some(
                TransmissionOutcome::Failure { reason: UplinkError::UnexpectedStatus(code) },
            ),
            Phase::Failed(stage) => Some(
                TransmissionOutcome::Failure {
                    reason: match stage {
                        Stage::Connect => UplinkError::Connect,
                        Stage::Write => UplinkError::Write,
                        Stage::Submit => UplinkError::Submit,
                    },
                },
            ),
            _ => None,
        }
    }
}

} // verus!
