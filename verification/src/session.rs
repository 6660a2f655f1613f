use vstd::prelude::*;
use vstd::pervasive::unreached;
use crate::message::{Message, MsgView, MAX_MESSAGE_SIZE};
use crate::registry::Registry;

verus! {

/// Why a session left `Active`.
#[derive(Clone, Copy, PartialEq, Eq, Structural, Debug)]
pub enum CloseReason {
    /// A read of zero bytes: the peer closed the connection cleanly.
    PeerClosed,
    /// A read of at least the maximum message size: a protocol violation.
    Oversize,
    /// The socket read failed with an I/O error.
    ReadFailed,
    /// A write to the socket failed or was cut short.
    WriteFailed,
    /// The session's subscription fell behind the bus and missed messages.
    Lagged,
    /// The bus itself was torn down.
    BusClosed,
}

/// The phases of one connection's life. `Closing` carries why the session is
/// going down; `Closed` is terminal.
#[derive(Clone, Copy, PartialEq, Eq, Structural, Debug)]
pub enum SessionState {
    Connecting,
    Active,
    Closing(CloseReason),
    Closed,
}

/// What one socket read produced, as the I/O layer hands it to the session.
pub enum ReadEvent {
    /// A read of zero bytes: the peer closed the connection.
    PeerClosed,
    /// A read of one or more bytes, exactly as they came off the socket.
    Data(Vec<u8>),
    /// The read failed with an I/O error.
    Failed,
}

/// What one receive on the session's bus subscription produced.
pub enum RecvEvent {
    /// A message another session (or this one) published.
    Delivery(Message),
    /// The subscription missed messages because it fell behind.
    Lagged,
    /// The bus was torn down.
    BusClosed,
}

/// What an inbound read amounts to for client `id`: bytes under the size
/// bound become a message from `id`; anything else publishes nothing.
pub open spec fn read_decision(id: u128, bytes: Seq<u8>) -> Option<MsgView> {
    if bytes.len() >= MAX_MESSAGE_SIZE {
        None
    } else {
        Some(MsgView { origin: id, payload: bytes })
    }
}

/// What an outbound delivery amounts to for client `id`: a message from
/// anyone else is written out byte for byte; a message from `id` itself is
/// suppressed and nothing is written.
pub open spec fn recv_decision(id: u128, m: MsgView) -> Option<Seq<u8>> {
    if m.origin == id {
        None
    } else {
        Some(m.payload)
    }
}

/// The byte-sequence image of an optional buffer.
pub open spec fn opt_bytes(r: Option<Vec<u8>>) -> Option<Seq<u8>> {
    match r {
        Some(b) => Some(b@),
        None => None,
    }
}

/// The per-connection state machine bridging one socket to the bus. The I/O
/// layer races the socket read against the subscription receive, hands
/// whichever event came first to the matching handler, and performs the
/// publish or write the handler decides on. Whichever path leaves `Active`
/// first wins; `finish` then deregisters the client exactly once.
pub struct Session {
    /// This client's process-lifetime-unique identity.
    pub id: u128,
    pub state: SessionState,
}

/// Relies on uuid::Uuid::new_v4 for a freshly drawn random 128-bit
/// identifier, returned as its integer value. Nothing is promised of the
/// value: the caller checks it against the registry itself.
#[verifier::external_body]
fn fresh_id() -> (r: u128) {
    uuid::Uuid::new_v4().as_u128()
}

impl Session {
    /// Enrolls one drawn identity: exactly when it is not already
    /// registered, it is registered and its session is returned, already
    /// `Active`. An identity that is already registered is turned away, with
    /// the registry untouched.
    pub fn enroll(reg: &mut Registry, id: u128) -> (r: Option<Session>)
        requires
            old(reg).wf(),
        ensures
            final(reg).wf(),
            r is Some <==> !old(reg).has(id),
            r matches Some(s) ==> {
                &&& s.id == id
                &&& s.state is Active
                &&& final(reg)@ == old(reg)@.push(id)
            },
            r is None ==> final(reg)@ == old(reg)@,
    {
        if reg.contains(id) {
            None
        } else {
            let mut s = Session::new(id);
            s.start(reg);
            Some(s)
        }
    }

    /// Accepts one fresh connection: draws a random identity and enrolls it.
    /// No session comes back only when the drawn identity collides with a
    /// registered one — cryptographically negligible, and impossible while
    /// the registry is empty — and then nothing is registered; the caller
    /// turns the connection away.
    pub fn accept(reg: &mut Registry) -> (r: Option<Session>)
        requires
            old(reg).wf(),
        ensures
            final(reg).wf(),
            old(reg)@.len() == 0 ==> r is Some,
            r matches Some(s) ==> {
                &&& s.state is Active
                &&& !old(reg).has(s.id)
                &&& final(reg)@ == old(reg)@.push(s.id)
            },
            r is None ==> final(reg)@ == old(reg)@ && old(reg)@.len() > 0,
    {
        let id = fresh_id();
        Session::enroll(reg, id)
    }

    /// A session for a freshly accepted connection, not yet registered.
    pub fn new(id: u128) -> (r: Session)
        ensures
            r.id == id,
            r.state is Connecting,
    {
        Session { id, state: SessionState::Connecting }
    }

    /// Registers the client and enters `Active`. Registration happens before
    /// the session forwards anything; the identity, being never reused while
    /// registered, is new to the registry.
    pub fn start(&mut self, reg: &mut Registry)
        requires
            old(self).state is Connecting,
            old(reg).wf(),
            !old(reg).has(old(self).id),
        ensures
            final(self).id == old(self).id,
            final(self).state is Active,
            final(reg).wf(),
            final(reg)@ == old(reg)@.push(old(self).id),
    {
        reg.register(self.id);
        self.state = SessionState::Active;
    }

    /// Applies one inbound socket event, per the read decision: zero bytes
    /// closes normally; an oversize read closes as a protocol violation and
    /// discards the bytes; anything shorter becomes the message to publish,
    /// with this session as origin, and the session stays `Active`.
    pub fn handle_read(&mut self, ev: ReadEvent) -> (r: Option<Message>)
        requires
            old(self).state is Active,
        ensures
            final(self).id == old(self).id,
            match ev {
                ReadEvent::PeerClosed => {
                    &&& r is None
                    &&& final(self).state == SessionState::Closing(CloseReason::PeerClosed)
                },
                ReadEvent::Data(bytes) => {
                    &&& (read_decision(old(self).id, bytes@) matches Some(mv) ==> {
                        &&& final(self).state is Active
                        &&& r matches Some(m) && m@ == mv
                        &&& r matches Some(m) && m.admissible()
                    })
                    &&& (read_decision(old(self).id, bytes@) is None ==> {
                        &&& r is None
                        &&& final(self).state == SessionState::Closing(CloseReason::Oversize)
                    })
                },
                ReadEvent::Failed => {
                    &&& r is None
                    &&& final(self).state == SessionState::Closing(CloseReason::ReadFailed)
                },
            },
    {
        match ev {
            ReadEvent::PeerClosed => {
                self.state = SessionState::Closing(CloseReason::PeerClosed);
                None
            },
            ReadEvent::Data(bytes) => {
                if bytes.len() >= MAX_MESSAGE_SIZE {
                    self.state = SessionState::Closing(CloseReason::Oversize);
                    None
                } else {
                    Some(Message { origin: self.id, payload: bytes })
                }
            },
            ReadEvent::Failed => {
                self.state = SessionState::Closing(CloseReason::ReadFailed);
                None
            },
        }
    }

    /// Applies one outbound bus event, per the receive decision: a delivery
    /// from another client yields exactly its payload to write; a delivery
    /// from this client is suppressed; a lagged subscription and a torn-down
    /// bus are both fatal for this session.
    pub fn handle_recv(&mut self, ev: RecvEvent) -> (r: Option<Vec<u8>>)
        requires
            old(self).state is Active,
        ensures
            final(self).id == old(self).id,
            match ev {
                RecvEvent::Delivery(m) => {
                    &&& final(self).state is Active
                    &&& opt_bytes(r) == recv_decision(old(self).id, m@)
                },
                RecvEvent::Lagged => {
                    &&& r is None
                    &&& final(self).state == SessionState::Closing(CloseReason::Lagged)
                },
                RecvEvent::BusClosed => {
                    &&& r is None
                    &&& final(self).state == SessionState::Closing(CloseReason::BusClosed)
                },
            },
    {
        match ev {
            RecvEvent::Delivery(m) => {
                if m.origin == self.id {
                    None
                } else {
                    Some(m.payload)
                }
            },
            RecvEvent::Lagged => {
                self.state = SessionState::Closing(CloseReason::Lagged);
                None
            },
            RecvEvent::BusClosed => {
                self.state = SessionState::Closing(CloseReason::BusClosed);
                None
            },
        }
    }

    /// Records that the write `handle_recv` asked for failed or was cut
    /// short: fatal for this session only.
    pub fn write_failed(&mut self)
        requires
            old(self).state is Active,
        ensures
            final(self).id == old(self).id,
            final(self).state == SessionState::Closing(CloseReason::WriteFailed),
    {
        self.state = SessionState::Closing(CloseReason::WriteFailed);
    }

    /// Leaves `Closing` for the terminal `Closed`, deregistering this client
    /// exactly once. Every other client's registration is untouched; the
    /// reason the session went down is returned for the diagnostic log.
    pub fn finish(&mut self, reg: &mut Registry) -> (r: CloseReason)
        requires
            old(self).state is Closing,
            old(reg).wf(),
        ensures
            final(self).id == old(self).id,
            final(self).state is Closed,
            r == old(self).state->Closing_0,
            final(reg).wf(),
            !final(reg).has(old(self).id),
            final(reg)@ == old(reg)@.remove_value(old(self).id),
            forall|x: u128| x != old(self).id ==> (final(reg).has(x) <==> old(reg).has(x)),
    {
        let reason = match self.state {
            SessionState::Closing(c) => c,
            _ => unreached(),
        };
        reg.deregister(self.id);
        self.state = SessionState::Closed;
        reason
    }
}

/// A message published by client `x` is written out, byte for byte, by the
/// session of every client other than `x`, and never by `x`'s own session:
/// self-echo suppression excludes exactly the originator from the
/// distribution of its own message.
pub proof fn lemma_publish_to_all_but_self(x: u128, y: u128, payload: Seq<u8>)
    ensures
        recv_decision(x, MsgView { origin: x, payload }) is None,
        y != x ==> recv_decision(y, MsgView { origin: x, payload }) == Some(payload),
{
}

/// The size boundary: a payload of one byte less than the maximum is
/// forwarded intact as a message, while a read at or above the maximum
/// produces no message at all.
pub proof fn lemma_size_boundary(id: u128, bytes: Seq<u8>)
    ensures
        bytes.len() == MAX_MESSAGE_SIZE - 1 ==> read_decision(id, bytes) == Some(
            MsgView { origin: id, payload: bytes },
        ),
        bytes.len() >= MAX_MESSAGE_SIZE ==> read_decision(id, bytes) is None,
{
}

} // verus!
