use vstd::prelude::*;

verus! {

/// Upper bound on a message payload, in bytes. A payload must be strictly
/// smaller than this; a read of this many bytes or more is a protocol
/// violation that closes the offending session.
pub const MAX_MESSAGE_SIZE: usize = 1024;

/// An immutable message on the bus: the identity of the publishing client
/// paired with an opaque byte payload. Payloads are never interpreted.
#[derive(Clone)]
pub struct Message {
    /// The client that published this message.
    pub origin: u128,
    /// The raw bytes, exactly as read from the publisher's socket.
    pub payload: Vec<u8>,
}

/// The mathematical image of a `Message`: the origin and the byte sequence.
#[verifier::ext_equal]
pub ghost struct MsgView {
    pub origin: u128,
    pub payload: Seq<u8>,
}

impl View for Message {
    type V = MsgView;

    open spec fn view(&self) -> MsgView {
        MsgView { origin: self.origin, payload: self.payload@ }
    }
}

impl Message {
    /// A message is admissible on the bus when its payload is strictly under
    /// the size bound. The bound is enforced at ingestion, not by the bus.
    pub open spec fn admissible(self) -> bool {
        self.payload@.len() < MAX_MESSAGE_SIZE
    }

    /// An independent copy with the same origin and the same bytes.
    pub fn duplicate(&self) -> (r: Message)
        ensures
            r@ == self@,
    {
        let mut p: Vec<u8> = Vec::new();
        let mut i: usize = 0;
        while i < self.payload.len()
            invariant
                i <= self.payload.len(),
                p@ == self.payload@.subrange(0, i as int),
            decreases self.payload.len() - i,
        {
            p.push(self.payload[i]);
            i += 1;
        }
        proof {
            assert(p@ =~= self.payload@);
        }
        Message { origin: self.origin, payload: p }
    }
}

} // verus!
