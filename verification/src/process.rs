//! The client process's session state machine.
//!
//! A client repeatedly requests the shared resource, waits for a grant,
//! performs its critical-section action, then releases, for a configured
//! number of cycles.  The machine here holds the decisions of that loop; the
//! surrounding application owns the connection, performs each action the
//! machine asks for (send a frame, read a frame, append to the log and
//! sleep), and reports what happened back as an event.
//!
//! A non-grant frame received while awaiting a grant is logged and the
//! machine keeps waiting — the request is never retransmitted, which is the
//! protocol's documented behaviour.  A closed connection while waiting is a
//! graceful shutdown, not a failure; any other I/O failure marks the client
//! failed and ends the session.

use vstd::prelude::*;
use vstd::string::StrSliceExecFns;
use vstd::utf8::encode_utf8;
use vstd::utf8::encode_utf8_valid_utf8;
use vstd::utf8::valid_utf8;
use vstd::utf8::valid_utf8_concat;

use crate::messages::Message;
use crate::messages::MessageType;
use crate::messages::decimal_digits;
use crate::messages::lemma_ascii_valid_utf8;
use crate::messages::lemma_decimal_digits_value;
use crate::messages::push_decimal;
use crate::messages::string_from_utf8;

verus! {

/// Where a client stands in its request/grant/release cycle.
#[derive(Clone, Copy, PartialEq, Eq, Structural, Debug)]
pub enum ClientPhase {
    /// About to open the next cycle by sending a request.
    Idle,
    /// Request sent; polling the connection for the grant.
    AwaitingGrant,
    /// Holding the resource and performing the critical-section action.
    InCriticalSection,
    /// Critical section finished; about to send the release.
    Releasing,
    /// All cycles finished, or the session ended.
    Done,
}

/// What the application reports happened while serving the machine.
#[derive(Clone, Copy, PartialEq, Eq, Structural, Debug)]
pub enum ClientEvent {
    /// The request frame was written to the connection.
    RequestSent,
    /// A whole frame was read and decoded.
    FrameReceived(Message),
    /// The read would block; nothing changed.
    WouldBlock,
    /// The peer closed the connection.
    ConnectionClosed,
    /// An I/O failure other than a clean close.
    IoError,
    /// The critical-section action (log append and delay) finished.
    CriticalSectionDone,
    /// The release frame was written to the connection.
    ReleaseSent,
}

/// What the application must do next for the machine.
#[derive(Clone, Copy, PartialEq, Eq, Structural, Debug)]
pub enum ClientAction {
    /// Send a request frame carrying this client's id.
    SendRequest,
    /// Poll the connection and read the next ten-byte frame.
    AwaitFrame,
    /// Append the log record and sleep for the configured delay.
    RunCriticalSection,
    /// Send a release frame carrying this client's id.
    SendRelease,
    /// The session is over; stop.
    Stop,
}

/// One client's session state: its identity, the configured number of
/// cycles, how many cycles completed, where it stands, and whether it ended
/// in failure.
#[derive(Clone, Copy, PartialEq, Eq, Structural, Debug)]
pub struct ProcessState {
    pub id: u8,
    pub repeat: u32,
    pub counter: u32,
    pub phase: ClientPhase,
    pub failed: bool,
}

/// Which events can arrive in which phase: the application only reports an
/// event that belongs to the action it was asked to perform.
pub open spec fn event_fits(phase: ClientPhase, event: ClientEvent) -> bool {
    match event {
        ClientEvent::RequestSent => phase is Idle,
        ClientEvent::FrameReceived(_) => phase is AwaitingGrant,
        ClientEvent::WouldBlock => phase is AwaitingGrant,
        ClientEvent::ConnectionClosed => phase is AwaitingGrant,
        ClientEvent::IoError => phase is AwaitingGrant,
        ClientEvent::CriticalSectionDone => phase is InCriticalSection,
        ClientEvent::ReleaseSent => phase is Releasing,
    }
}

/// The whole transition relation of the client machine, as one function from
/// the state before an event to the state after it.
pub open spec fn client_step(pre: ProcessState, event: ClientEvent) -> ProcessState {
    match event {
        ClientEvent::RequestSent => ProcessState { phase: ClientPhase::AwaitingGrant, ..pre },
        ClientEvent::FrameReceived(m) => if m.message_type is Grant {
            ProcessState { phase: ClientPhase::InCriticalSection, ..pre }
        } else {
            ProcessState { phase: ClientPhase::AwaitingGrant, ..pre }
        },
        ClientEvent::WouldBlock => ProcessState { phase: ClientPhase::AwaitingGrant, ..pre },
        ClientEvent::ConnectionClosed => ProcessState { phase: ClientPhase::Done, ..pre },
        ClientEvent::IoError => ProcessState { phase: ClientPhase::Done, failed: true, ..pre },
        ClientEvent::CriticalSectionDone => ProcessState { phase: ClientPhase::Releasing, ..pre },
        ClientEvent::ReleaseSent => ProcessState {
            counter: (pre.counter + 1) as u32,
            phase: if pre.counter + 1 == pre.repeat {
                ClientPhase::Done
            } else {
                ClientPhase::Idle
            },
            ..pre
        },
    }
}

/// The ASCII bytes of the label `" - Writing from "` between the timestamp
/// and the process id of a log record.
pub open spec fn record_label_bytes() -> Seq<u8> {
    seq![
        32u8,
        45u8,
        32u8,
        87u8,
        114u8,
        105u8,
        116u8,
        105u8,
        110u8,
        103u8,
        32u8,
        102u8,
        114u8,
        111u8,
        109u8,
        32u8,
    ]
}

/// The UTF-8 bytes of one critical-section log record:
/// `"<timestamp> - Writing from <id>"` followed by a newline.
pub open spec fn record_bytes(timestamp: Seq<char>, id: u8) -> Seq<u8> {
    encode_utf8(timestamp) + record_label_bytes() + decimal_digits(id) + seq![10u8]
}

/// Builds the line a client appends to the shared log while it holds the
/// resource: the timestamp, the label, its own process id, and a newline.
pub fn critical_section_record(timestamp: &str, id: u8) -> (r: String)
    ensures
        encode_utf8(r@) == record_bytes(timestamp@, id),
{
    let mut bytes: Vec<u8> = timestamp.as_bytes_vec();
    let ghost stamp_len = bytes@.len() as int;
    bytes.push(32);
    bytes.push(45);
    bytes.push(32);
    bytes.push(87);
    bytes.push(114);
    bytes.push(105);
    bytes.push(116);
    bytes.push(105);
    bytes.push(110);
    bytes.push(103);
    bytes.push(32);
    bytes.push(102);
    bytes.push(114);
    bytes.push(111);
    bytes.push(109);
    bytes.push(32);
    push_decimal(&mut bytes, id);
    bytes.push(10);
    proof {
        lemma_decimal_digits_value(id);
        assert(bytes@ =~= record_bytes(timestamp@, id));
        let tail = bytes@.skip(stamp_len);
        assert(forall|i: int| 0 <= i < tail.len() ==> #[trigger] tail[i] < 0x80);
        lemma_ascii_valid_utf8(tail);
        encode_utf8_valid_utf8(timestamp@);
        valid_utf8_concat(encode_utf8(timestamp@), tail);
        assert(encode_utf8(timestamp@) + tail =~= bytes@);
    }
    match string_from_utf8(bytes) {
        Some(s) => s,
        None => {
            proof {
                assert(false);
            }
            String::new()
        },
    }
}

impl ProcessState {
    /// While the session is running, fewer cycles have completed than were
    /// configured.
    pub open spec fn wf(&self) -> bool {
        !(self.phase is Done) ==> self.counter < self.repeat
    }

    /// A fresh client session.  With zero configured cycles there is nothing
    /// to do and the session starts out finished.
    pub fn new(id: u8, repeat: u32) -> (p: ProcessState)
        ensures
            p.id == id,
            p.repeat == repeat,
            p.counter == 0,
            p.phase == (if repeat == 0 {
                ClientPhase::Done
            } else {
                ClientPhase::Idle
            }),
            !p.failed,
            p.wf(),
    {
        ProcessState {
            id,
            repeat,
            counter: 0,
            phase: if repeat == 0 {
                ClientPhase::Done
            } else {
                ClientPhase::Idle
            },
            failed: false,
        }
    }

    /// What the application must do in the current phase.
    pub fn next_action(&self) -> (action: ClientAction)
        ensures
            action == (match self.phase {
                ClientPhase::Idle => ClientAction::SendRequest,
                ClientPhase::AwaitingGrant => ClientAction::AwaitFrame,
                ClientPhase::InCriticalSection => ClientAction::RunCriticalSection,
                ClientPhase::Releasing => ClientAction::SendRelease,
                ClientPhase::Done => ClientAction::Stop,
            }),
    {
        match self.phase {
            ClientPhase::Idle => ClientAction::SendRequest,
            ClientPhase::AwaitingGrant => ClientAction::AwaitFrame,
            ClientPhase::InCriticalSection => ClientAction::RunCriticalSection,
            ClientPhase::Releasing => ClientAction::SendRelease,
            ClientPhase::Done => ClientAction::Stop,
        }
    }

    /// Advances the machine by one event, exactly as `client_step` says.
    pub fn step(&mut self, event: ClientEvent)
        requires
            old(self).wf(),
            event_fits(old(self).phase, event),
        ensures
            *final(self) == client_step(*old(self), event),
            final(self).wf(),
    {
        match event {
            ClientEvent::RequestSent => {
                self.phase = ClientPhase::AwaitingGrant;
            },
            ClientEvent::FrameReceived(m) => {
                if matches!(m.message_type, MessageType::Grant) {
                    self.phase = ClientPhase::InCriticalSection;
                } else {
                    self.phase = ClientPhase::AwaitingGrant;
                }
            },
            ClientEvent::WouldBlock => {
                self.phase = ClientPhase::AwaitingGrant;
            },
            ClientEvent::ConnectionClosed => {
                self.phase = ClientPhase::Done;
            },
            ClientEvent::IoError => {
                self.phase = ClientPhase::Done;
                self.failed = true;
            },
            ClientEvent::CriticalSectionDone => {
                self.phase = ClientPhase::Releasing;
            },
            ClientEvent::ReleaseSent => {
                self.counter = self.counter + 1;
                self.phase = if self.counter == self.repeat {
                    ClientPhase::Done
                } else {
                    ClientPhase::Idle
                };
            },
        }
    }
}

} // verus!
