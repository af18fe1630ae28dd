//! Per-connection session machine: handshake, authentication, lifecycle.
//!
//! One `Session` exists per connection. It reacts to session-level events
//! only — connect requests, handshake answers, `EndConn`, transport
//! trouble — and says at every moment whether transfer negotiation may
//! begin. Both roles run the same machine; the role decides which side
//! emits which frame.

use vstd::prelude::*;
use crate::instruction::Instruction;
use crate::instruction::Operation;

verus! {

/// Which side of the connection this peer plays.
#[derive(Clone, Copy, PartialEq, Eq, Structural, Debug)]
pub enum Role {
    Sender,
    Receiver,
}

/// The lifecycle states of a connection. `Refused` and `Failed` are
/// terminal: `Refused` records a deliberate policy rejection by the peer,
/// `Failed` an operational or protocol error.
#[derive(Clone, Copy, PartialEq, Eq, Structural, Debug)]
pub enum SessionState {
    Disconnected,
    Handshaking,
    Established,
    Closing,
    Closed,
    Refused,
    Failed,
}

/// The session-level events the machine reacts to.
#[derive(Clone, Copy, PartialEq, Eq, Structural, Debug)]
pub enum SessionEvent {
    /// A connect request was sent (Sender) or received (Receiver).
    Connect,
    /// The handshake was answered with `ConnSuccess`.
    ReplySuccess,
    /// The handshake was answered with `ConnRefuse`.
    ReplyRefuse,
    /// The handshake was answered with `ConnFail`.
    ReplyFail,
    /// `EndConn` was sent or received while established.
    EndConn,
    /// The underlying stream finished shutting down.
    StreamShutdown,
    /// A read or write on the stream failed.
    TransportFailure,
    /// A frame arrived that is invalid for the current state.
    Violation,
}

/// States no event leads out of.
pub open spec fn is_terminal_session(s: SessionState) -> bool {
    s == SessionState::Closed || s == SessionState::Refused || s == SessionState::Failed
}

/// The one transition relation of the session machine. Terminal states
/// absorb every event; an event that is out of place in the current state
/// is a protocol violation and fails the session.
pub open spec fn session_step(s: SessionState, e: SessionEvent) -> SessionState {
    if is_terminal_session(s) {
        s
    } else {
        match (s, e) {
            (SessionState::Disconnected, SessionEvent::Connect) => SessionState::Handshaking,
            (SessionState::Handshaking, SessionEvent::ReplySuccess) => SessionState::Established,
            (SessionState::Handshaking, SessionEvent::ReplyRefuse) => SessionState::Refused,
            (SessionState::Handshaking, SessionEvent::ReplyFail) => SessionState::Failed,
            (SessionState::Established, SessionEvent::EndConn) => SessionState::Closing,
            (SessionState::Closing, SessionEvent::StreamShutdown) => SessionState::Closed,
            _ => SessionState::Failed,
        }
    }
}

/// The session machine run over a whole sequence of events, first first.
pub open spec fn session_run(s: SessionState, events: Seq<SessionEvent>) -> SessionState
    decreases events.len(),
{
    if events.len() == 0 {
        s
    } else {
        session_run(session_step(s, events[0]), events.subrange(1, events.len() as int))
    }
}

/// The event a handshake answer frame stands for. Any operation other
/// than the three connection answers is out of place during a handshake.
pub open spec fn reply_event(op: Operation) -> SessionEvent {
    match op {
        Operation::ConnSuccess => SessionEvent::ReplySuccess,
        Operation::ConnRefuse => SessionEvent::ReplyRefuse,
        Operation::ConnFail => SessionEvent::ReplyFail,
        _ => SessionEvent::Violation,
    }
}

/// Terminal states are truly terminal: no single event leaves one.
pub proof fn lemma_terminal_absorbs(s: SessionState, e: SessionEvent)
    requires
        is_terminal_session(s),
    ensures
        session_step(s, e) == s,
{
}

/// Once a session is refused (or failed, or closed) it stays so under
/// every future sequence of events; in particular no later event can
/// establish it, so no transfer may ever be started afterward.
pub proof fn lemma_terminal_forever(s: SessionState, events: Seq<SessionEvent>)
    requires
        is_terminal_session(s),
    ensures
        session_run(s, events) == s,
    decreases events.len(),
{
    if events.len() > 0 {
        lemma_terminal_forever(s, events.subrange(1, events.len() as int));
    }
}

/// The only way into `Established` is a successful handshake answer while
/// handshaking: a refused session can never reach it again.
pub proof fn lemma_established_only_from_handshake(s: SessionState, e: SessionEvent)
    ensures
        session_step(s, e) == SessionState::Established ==> s == SessionState::Handshaking
            && e == SessionEvent::ReplySuccess,
{
}

/// One connection's session: its role, its lifecycle state, and the pool
/// of frame ids for the transfers this side initiates, handed out in
/// ascending order so concurrent items never collide.
pub struct Session {
    pub role: Role,
    pub state: SessionState,
    pub next_id: u16,
}

impl Session {
    /// A fresh session: not yet connected, no id handed out.
    pub fn new(role: Role) -> (r: Session)
        ensures
            r.role == role,
            r.state == SessionState::Disconnected,
            r.next_id == 0,
    {
        Session { role, state: SessionState::Disconnected, next_id: 0 }
    }

    /// Whether transfer negotiation may begin: only from `Established`.
    pub fn may_begin_transfer(&self) -> (r: bool)
        ensures
            r == (self.state == SessionState::Established),
    {
        match self.state {
            SessionState::Established => true,
            _ => false,
        }
    }

    /// Hand out the next transfer id, monotonically.
    pub fn fresh_id(&mut self) -> (r: u16)
        requires
            old(self).next_id < 0xFFFF,
        ensures
            r == old(self).next_id,
            final(self).next_id == old(self).next_id + 1,
            final(self).state == old(self).state,
            final(self).role == old(self).role,
    {
        let r = self.next_id;
        self.next_id = self.next_id + 1;
        r
    }

    /// Open the handshake: build the connect frame to send (with or
    /// without a password payload of `pass_len` bytes) and move to
    /// `Handshaking`. Only a disconnected session may connect.
    pub fn connect(&mut self, id: u16, with_pass: bool, pass_len: u16) -> (r: Instruction)
        requires
            old(self).role == Role::Sender,
            old(self).state == SessionState::Disconnected,
        ensures
            final(self).state == session_step(old(self).state, SessionEvent::Connect),
            final(self).state == SessionState::Handshaking,
            final(self).role == old(self).role,
            final(self).next_id == old(self).next_id,
            r == (Instruction {
                id,
                operation: if with_pass { Operation::ConnWithPass } else {
                    Operation::ConnWithoutPass
                },
                buffer: false,
                length: if with_pass { pass_len } else { 0 },
            }),
    {
        self.state = SessionState::Handshaking;
        if with_pass {
            Instruction { id, operation: Operation::ConnWithPass, buffer: false, length: pass_len }
        } else {
            Instruction::conn_without_pass(id)
        }
    }

    /// Take the peer's handshake answer: `ConnSuccess` establishes the
    /// session, `ConnRefuse` ends it as `Refused`, `ConnFail` as `Failed`;
    /// any other operation is a protocol violation and fails it.
    pub fn on_handshake_reply(&mut self, op: Operation)
        requires
            old(self).state == SessionState::Handshaking,
        ensures
            final(self).state == session_step(old(self).state, reply_event(op)),
            final(self).role == old(self).role,
            final(self).next_id == old(self).next_id,
    {
        match op {
            Operation::ConnSuccess => {
                self.state = SessionState::Established;
            },
            Operation::ConnRefuse => {
                self.state = SessionState::Refused;
            },
            Operation::ConnFail => {
                self.state = SessionState::Failed;
            },
            _ => {
                self.state = SessionState::Failed;
            },
        }
    }

    /// Record that a connect request arrived (Receiver side): evaluation
    /// of the request is now pending.
    pub fn on_connect_request(&mut self)
        requires
            old(self).role == Role::Receiver,
            old(self).state == SessionState::Disconnected,
        ensures
            final(self).state == session_step(old(self).state, SessionEvent::Connect),
            final(self).state == SessionState::Handshaking,
            final(self).role == old(self).role,
            final(self).next_id == old(self).next_id,
    {
        self.state = SessionState::Handshaking;
    }

    /// `EndConn` was sent or received: begin the clean teardown.
    pub fn end_conn(&mut self)
        requires
            old(self).state == SessionState::Established,
        ensures
            final(self).state == session_step(old(self).state, SessionEvent::EndConn),
            final(self).state == SessionState::Closing,
            final(self).role == old(self).role,
            final(self).next_id == old(self).next_id,
    {
        self.state = SessionState::Closing;
    }

    /// The underlying stream has been shut down: the teardown is done.
    pub fn stream_shutdown(&mut self)
        requires
            old(self).state == SessionState::Closing,
        ensures
            final(self).state == session_step(old(self).state, SessionEvent::StreamShutdown),
            final(self).state == SessionState::Closed,
            final(self).role == old(self).role,
            final(self).next_id == old(self).next_id,
    {
        self.state = SessionState::Closed;
    }

    /// A transport failure is fatal to the session wherever it is, except
    /// that an already terminal state keeps its original outcome.
    pub fn transport_failure(&mut self)
        ensures
            final(self).state == session_step(old(self).state, SessionEvent::TransportFailure),
            final(self).role == old(self).role,
            final(self).next_id == old(self).next_id,
    {
        match self.state {
            SessionState::Closed => {},
            SessionState::Refused => {},
            SessionState::Failed => {},
            _ => {
                self.state = SessionState::Failed;
            },
        }
    }

    /// A frame invalid for the current session state is a protocol
    /// violation: fatal to the session unless it is already over.
    pub fn protocol_violation(&mut self)
        ensures
            final(self).state == session_step(old(self).state, SessionEvent::Violation),
            final(self).role == old(self).role,
            final(self).next_id == old(self).next_id,
    {
        match self.state {
            SessionState::Closed => {},
            SessionState::Refused => {},
            SessionState::Failed => {},
            _ => {
                self.state = SessionState::Failed;
            },
        }
    }
}

/// Byte-for-byte comparison of two payloads.
pub fn bytes_equal(a: &Vec<u8>, b: &Vec<u8>) -> (r: bool)
    ensures
        r == (a@ == b@),
{
    if a.len() != b.len() {
        assert(a@ != b@);
        return false;
    }
    let n = a.len();
    let mut i: usize = 0;
    while i < n
        invariant
            n == a.len(),
            n == b.len(),
            i <= n,
            forall|j: int| 0 <= j < i ==> a@[j] == b@[j],
        decreases n - i,
    {
        if a[i] != b[i] {
            return false;
        }
        i = i + 1;
    }
    proof {
        assert(a@ =~= b@);
    }
    true
}

/// The handshake answer a receiver owes a connect request, given its
/// configured credential: with no credential configured every connect is
/// accepted; with one, only `ConnWithPass` whose payload equals the
/// credential byte for byte.
pub open spec fn connect_verdict(
    op: Operation,
    payload: Seq<u8>,
    credential: Option<Seq<u8>>,
) -> Operation {
    match credential {
        Option::None => Operation::ConnSuccess,
        Option::Some(cred) => {
            if op == Operation::ConnWithPass && payload == cred {
                Operation::ConnSuccess
            } else {
                Operation::ConnRefuse
            }
        },
    }
}

/// Decide a connect request (Receiver side): compare the frame's payload
/// against the configured credential and produce the answer to send.
/// A wrong or missing password is a deliberate refusal, never a failure.
pub fn evaluate_connect(op: Operation, payload: &Vec<u8>, credential: &Option<Vec<u8>>) -> (r:
    Operation)
    requires
        op == Operation::ConnWithoutPass || op == Operation::ConnWithPass,
    ensures
        r == connect_verdict(
            op,
            payload@,
            match *credential {
                Option::None => Option::None,
                Option::Some(cred) => Option::Some(cred@),
            },
        ),
        r == Operation::ConnSuccess || r == Operation::ConnRefuse,
{
    match credential {
        Option::None => Operation::ConnSuccess,
        Option::Some(cred) => {
            let is_with_pass = match op {
                Operation::ConnWithPass => true,
                _ => false,
            };
            if is_with_pass && bytes_equal(payload, cred) {
                Operation::ConnSuccess
            } else {
                Operation::ConnRefuse
            }
        },
    }
}

} // verus!
